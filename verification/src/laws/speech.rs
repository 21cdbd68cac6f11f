//! What holds of speech.
use crate::laws::texts::texts_are_trimmed_at_both_ends;
use crate::tts::{
    ffmpeg_args, file_name, is_fresh_name, is_name_char, piper_args, plain_rate,
    seeded_choice, settled, speech_path, voice_choice, SpeechError,
};
use vstd::prelude::*;

verus! {

/// Speech is made with the voice at the place that was chosen, drawn out by the scale that was given, and
/// is made where both are there.
pub proof fn speech_is_made_with_the_chosen_voice(
    voices: Seq<Option<String>>,
    place: Option<usize>,
    scale: Option<String>,
)
    requires
        place matches Some(place) ==> place < voices.len(),
    ensures
        settled(voices, place, scale) is Ok <==> place is Some
            && voices[place->Some_0 as int] is Some && scale is Some,
        settled(voices, place, scale) matches Ok((voice, length)) ==> voice
            == voices[place->Some_0 as int]->Some_0@ && length == scale->Some_0@,
{
}

/// Whatever the rate is, that there is no voice is said where there is none, and that the voice cannot be
/// read where it cannot be; only then is anything said of the rate.
pub proof fn voices_come_before_rates(
    voices: Seq<Option<String>>,
    place: Option<usize>,
    scale: Option<String>,
    other: Option<String>,
)
    requires
        place matches Some(place) ==> place < voices.len(),
    ensures
        place is None ==> settled(voices, place, scale) == Err::<(Seq<char>, Seq<char>), _>(
            SpeechError::NoVoice,
        ),
        place is Some && voices[place->Some_0 as int] is None ==> settled(voices, place, scale)
            == settled(voices, place, other) && settled(voices, place, scale) == Err::<
            (Seq<char>, Seq<char>),
            _,
        >(SpeechError::UnreadableVoice),
        settled(voices, place, scale) == Err::<(Seq<char>, Seq<char>), _>(
            SpeechError::InvalidRate,
        ) ==> scale is None && place is Some && voices[place->Some_0 as int] is Some,
{
}

/// Two players whose voices have one hash are given one voice, by what the generator with that seed gives.
pub proof fn voices_are_chosen_by_their_hash(hash: u64, count: usize)
    ensures
        voice_choice(hash, count) == seeded_choice(hash, count),
{
}

/// What is missing is not found, what cannot be read is a fault of the server, and what cannot be worked
/// with is one of the request.
pub proof fn speech_errors_have_codes(error: SpeechError)
    ensures
        error.code() == 404 <==> error == SpeechError::NoVoice,
        error.code() == 500 <==> error == SpeechError::UnreadableVoice,
        error.code() == 422 <==> error == SpeechError::InvalidGlob || error
            == SpeechError::InvalidRate,
{
}

/// A rate is taken without the percent signs at its ends, and nothing else is taken away from it.
pub proof fn rates_lose_their_signs(rate: Seq<char>)
    ensures
        exists|from: int, to: int|
            {
                &&& 0 <= from <= to <= rate.len()
                &&& plain_rate(rate) == #[trigger] rate.subrange(from, to)
                &&& forall|i: int| 0 <= i < from ==> #[trigger] rate[i] == '%'
                &&& forall|i: int| to <= i < rate.len() ==> #[trigger] rate[i] == '%'
                &&& from < to ==> rate[from] != '%' && rate[to - 1] != '%'
            },
{
    texts_are_trimmed_at_both_ends(rate, |c: char| c == '%');
}

/// A file has its name, a dot and its format, so that the name and the format can be told from it.
pub proof fn files_are_named_and_dotted(name: Seq<char>, format: Seq<char>)
    ensures
        file_name(name, format).len() == name.len() + 1 + format.len(),
        file_name(name, format).take(name.len() as int) == name,
        file_name(name, format)[name.len() as int] == '.',
        file_name(name, format).skip(name.len() as int + 1) == format,
{
    reveal_strlit(".");
    let whole = file_name(name, format);
    assert(whole.take(name.len() as int) =~= name);
    assert(whole.skip(name.len() as int + 1) =~= format);
}

/// Speech is written below the directory of speech, under the name of its file.
pub proof fn speech_is_written_below_its_directory(name: Seq<char>)
    ensures
        speech_path(name).len() == 4 + name.len(),
        speech_path(name).take(4) == "tts/"@,
        speech_path(name).skip(4) == name,
{
    reveal_strlit("tts/");
    assert(speech_path(name).take(4) =~= "tts/"@);
    assert(speech_path(name).skip(4) =~= name);
}

/// A name that a file is given is of so many characters that can stand in the path of a URL as they are.
pub proof fn fresh_names_are_plain(name: Seq<char>, i: int)
    requires
        is_fresh_name(name),
        0 <= i < name.len(),
    ensures
        name.len() == 21,
        name[i] != '/',
        name[i] != '.',
        name[i] != '%',
        name[i] != ' ',
        is_name_char(name[i]),
{
}

/// Whether a program is run with an option and a value behind it.
pub open spec fn is_given(args: Seq<Seq<char>>, option: Seq<char>, value: Seq<char>) -> bool {
    exists|i: int| 0 <= i < args.len() - 1 && #[trigger] args[i] == option && args[i + 1] == value
}

/// The program that speaks is given the scale and the voice and told to hand out what it speaks as it is;
/// the program that encodes reads that, at its rate, evens it out, and writes the file at the rate of a file.
pub proof fn programs_are_given_what_they_need(
    scale: Seq<char>,
    voice: Seq<char>,
    out: Seq<char>,
)
    ensures
        is_given(piper_args(scale, voice), "--length-scale"@, scale),
        is_given(piper_args(scale, voice), "--model"@, voice),
        piper_args(scale, voice).last() == "--output-raw"@,
        piper_args(scale, voice).len() == 5,
        ffmpeg_args(out).len() == 11,
        ffmpeg_args(out).last() == out,
        is_given(ffmpeg_args(out).take(5), "-f"@, "s16le"@),
        is_given(ffmpeg_args(out).take(5), "-ar"@, "22050"@),
        is_given(ffmpeg_args(out).take(6), "-i"@, "pipe:"@),
        is_given(ffmpeg_args(out).skip(6), "-ar"@, "44100"@),
        is_given(ffmpeg_args(out).skip(6), "-filter:a"@, "speechnorm"@),
{
    let piper = piper_args(scale, voice);
    assert(piper[0] == "--length-scale"@ && piper[1] == scale);
    assert(piper[2] == "--model"@ && piper[3] == voice);
    let head = ffmpeg_args(out).take(5);
    assert(head[0] == "-f"@ && head[1] == "s16le"@);
    assert(head[2] == "-ar"@ && head[3] == "22050"@);
    let input = ffmpeg_args(out).take(6);
    assert(input[4] == "-i"@ && input[5] == "pipe:"@);
    let tail = ffmpeg_args(out).skip(6);
    assert(tail[0] == "-ar"@ && tail[1] == "44100"@);
    assert(tail[2] == "-filter:a"@ && tail[3] == "speechnorm"@);
}

} // verus!
