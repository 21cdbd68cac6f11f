//! Speech: which voice a player speaks with, and how what is said is turned into a file.
use crate::ecast::OpMode;
use crate::text::{concat2, concat3, texts, trim, trim_char};
use rand::seq::IteratorRandom;
use rand::SeedableRng;
use rand_xoshiro::Xoroshiro128PlusPlus;
use std::hash::{DefaultHasher, Hasher};
use vstd::prelude::*;
use vstd::string::StringSliceAdditionalSpecFns;
use vstd::utf8::encode_utf8;

verus! {

/// Where speech is to be had.
#[derive(Debug)]
pub struct TTSResponse {
    pub success: bool,
    pub url: String,
}

/// What is to be said, and how.
#[derive(Debug)]
pub struct TTSRequest {
    pub engine: String,
    pub fail_sim: Option<String>,
    pub file_format: String,
    pub rate: String,
    pub text: String,
    pub text_format: String,
    pub voice: String,
}

/// What [`DefaultHasher`] makes of bytes.
pub uninterp spec fn default_hash(bytes: Seq<u8>) -> u64;

/// [`DefaultHasher::default`] makes hashers that are all the same, so that the hash of bytes depends
/// on the bytes alone, within one release of the standard library.
#[verifier::external_body]
fn hash_bytes(bytes: &[u8]) -> (r: u64)
    ensures
        r == default_hash(bytes@),
{
    let mut hasher = DefaultHasher::default();
    hasher.write(bytes);
    hasher.finish()
}

/// Which of `count` items [`IteratorRandom::choose`] takes from an iterator that cannot tell how
/// many there are, by the numbers of a [`Xoroshiro128PlusPlus`] with a seed.
pub uninterp spec fn seeded_choice(seed: u64, count: usize) -> Option<usize>;

/// [`IteratorRandom::choose`] takes one of the items, and none if and only if there are none.
#[verifier::external_body]
fn choose_seeded(seed: u64, count: usize) -> (r: Option<usize>)
    ensures
        r == seeded_choice(seed, count),
        r is None <==> count == 0,
        r matches Some(index) ==> index < count,
{
    let mut rng = Xoroshiro128PlusPlus::seed_from_u64(seed);
    (0..count).map_while(Some).choose(&mut rng)
}

/// Whether a character is one of those that names are made of: a letter, a digit, `_` or `-`.
pub open spec fn is_name_char(c: char) -> bool {
    ||| 'a' <= c <= 'z'
    ||| 'A' <= c <= 'Z'
    ||| '0' <= c <= '9'
    ||| c == '_'
    ||| c == '-'
}

/// Whether a text can be the name that a file is given.
pub open spec fn is_fresh_name(name: Seq<char>) -> bool {
    &&& name.len() == 21
    &&& forall|i: int| 0 <= i < name.len() ==> is_name_char(#[trigger] name[i])
}

/// [`nanoid::format`] makes a random name of letters, digits, `_` and `-`. Which one it makes is
/// left to chance.
#[verifier::external_body]
fn fresh_name() -> (r: String)
    ensures
        is_fresh_name(r@),
{
    nanoid::format(nanoid::rngs::default, &nanoid::alphabet::SAFE, 21)
}

/// How speech is had.
#[derive(Debug)]
pub enum SpeechPlan {
    /// Another server is asked.
    Ask { url: &'static str },
    /// It is made here, with a voice from the files that a pattern finds, at a rate that is a
    /// percentage.
    Make { voice_glob: String, rate: String },
}

/// The URL under which another server is asked for speech.
pub const SPEECH_URL: &'static str = "https://blobcast.jackboxgames.com/tts/generate";

/// The rate that a request asks for, without the signs that name it a percentage.
pub open spec fn plain_rate(rate: Seq<char>) -> Seq<char> {
    trim(rate, |c: char| c == '%')
}

/// Whether this is how speech is had.
pub open spec fn is_planned(
    op_mode: OpMode,
    voices_path: Seq<char>,
    rate: Seq<char>,
    plan: SpeechPlan,
) -> bool {
    match plan {
        SpeechPlan::Ask { url } => op_mode == OpMode::Proxy && url@ == SPEECH_URL@,
        SpeechPlan::Make { voice_glob, rate: plain } => {
            &&& op_mode == OpMode::Native
            &&& voice_glob@ == voices_path + "/*.onnx"@
            &&& plain@ == plain_rate(rate)
        },
    }
}

/// Decides how speech is had.
pub fn generate_handler(op_mode: OpMode, voices_path: &str, tts: &TTSRequest) -> (r: SpeechPlan)
    ensures
        is_planned(op_mode, voices_path@, tts.rate@, r),
{
    match op_mode {
        OpMode::Proxy => SpeechPlan::Ask { url: SPEECH_URL },
        OpMode::Native => SpeechPlan::Make {
            voice_glob: concat2(voices_path, "/*.onnx"),
            rate: trim_char(tts.rate.as_str(), '%'),
        },
    }
}

/// Which of `count` voices a player speaks with, by the hash of the voice that the player asks for.
pub open spec fn voice_choice(hash: u64, count: usize) -> Option<usize> {
    seeded_choice(hash, count)
}

/// Which of `count` voices a player speaks with. There is none only where there are no voices.
pub fn choose_voice(tts: &TTSRequest, count: usize) -> (r: Option<usize>)
    ensures
        r == voice_choice(default_hash(encode_utf8(tts.voice@)), count),
        r is None <==> count == 0,
        r matches Some(index) ==> index < count,
{
    choose_seeded(hash_bytes(tts.voice.as_str().as_bytes()), count)
}

/// A player speaks with the same voice whatever is said, and however it is said, as long as the
/// voices are the same.
pub proof fn voices_are_consistent(a: TTSRequest, b: TTSRequest, count: usize)
    requires
        a.voice@ == b.voice@,
    ensures
        voice_choice(default_hash(encode_utf8(a.voice@)), count) == voice_choice(
            default_hash(encode_utf8(b.voice@)),
            count,
        ),
{
}

/// Why there is no speech.
#[derive(Clone, Copy, Debug, PartialEq, Eq, Structural)]
pub enum SpeechError {
    /// Voices cannot be looked for.
    InvalidGlob,
    /// There is no voice.
    NoVoice,
    /// What was found in the place of the voice cannot be read.
    UnreadableVoice,
    /// The rate is no number.
    InvalidRate,
}

impl SpeechError {
    /// The status code of the answer.
    pub open spec fn code(self) -> u16 {
        match self {
            SpeechError::InvalidGlob => 422,
            SpeechError::NoVoice => 404,
            SpeechError::UnreadableVoice => 500,
            SpeechError::InvalidRate => 422,
        }
    }

    /// The status code of the answer.
    pub fn status(&self) -> (r: u16)
        ensures
            r == self.code(),
    {
        match self {
            SpeechError::InvalidGlob => 422,
            SpeechError::NoVoice => 404,
            SpeechError::UnreadableVoice => 500,
            SpeechError::InvalidRate => 422,
        }
    }
}

/// The voice at the place that was chosen, and the scale by which it is drawn out, or why there is no
/// speech: that there is no voice counts before that the one that was chosen cannot be read, and that
/// before a rate that is no number.
pub open spec fn settled(
    voices: Seq<Option<String>>,
    place: Option<usize>,
    length_scale: Option<String>,
) -> Result<(Seq<char>, Seq<char>), SpeechError> {
    match place {
        None => Err(SpeechError::NoVoice),
        Some(place) => match voices[place as int] {
            None => Err(SpeechError::UnreadableVoice),
            Some(voice) => match length_scale {
                None => Err(SpeechError::InvalidRate),
                Some(scale) => Ok((voice@, scale@)),
            },
        },
    }
}

/// Settles on the voice at the place that was chosen. A voice that was found but cannot be read is
/// `None`, and so is the scale where the rate is no number.
pub fn settle_voice(
    voices: &Vec<Option<String>>,
    place: Option<usize>,
    length_scale: Option<String>,
) -> (r: Result<(String, String), SpeechError>)
    requires
        place matches Some(place) ==> place < voices.len(),
    ensures
        settled(voices@, place, length_scale) == match r {
            Ok((voice, scale)) => Ok((voice@, scale@)),
            Err(error) => Err(error),
        },
{
    match place {
        None => Err(SpeechError::NoVoice),
        Some(place) => match &voices[place] {
            None => Err(SpeechError::UnreadableVoice),
            Some(voice) => match length_scale {
                None => Err(SpeechError::InvalidRate),
                Some(scale) => Ok((voice.clone(), scale)),
            },
        },
    }
}

/// The voice that a player speaks with, out of those that were found, where they could be looked for,
/// and the scale by which it is drawn out, or why there is no speech.
pub open spec fn spoken(
    voice: Seq<char>,
    voices: Option<Vec<Option<String>>>,
    length_scale: Option<String>,
) -> Result<(Seq<char>, Seq<char>), SpeechError> {
    match voices {
        None => Err(SpeechError::InvalidGlob),
        Some(voices) => settled(
            voices@,
            voice_choice(default_hash(encode_utf8(voice)), voices.len()),
            length_scale,
        ),
    }
}

/// Settles on the voice that a player speaks with, out of those that were found, where they could be
/// looked for.
pub fn settle_speech(
    tts: &TTSRequest,
    voices: &Option<Vec<Option<String>>>,
    length_scale: Option<String>,
) -> (r: Result<(String, String), SpeechError>)
    ensures
        spoken(tts.voice@, *voices, length_scale) == (match r {
            Ok((voice, scale)) => Ok((voice@, scale@)),
            Err(error) => Err(error),
        }),
        (r == Err::<(String, String), _>(SpeechError::NoVoice)) <==> (voices matches Some(voices)
            && voices.len() == 0),
        r matches Ok((voice, scale)) ==> {
            &&& voices matches Some(found)
            &&& exists|i: int|
                0 <= i < found.len() && (#[trigger] found@[i] matches Some(path) && path@
                    == voice@)
            &&& length_scale matches Some(given) && given@ == scale@
        },
{
    match voices {
        None => Err(SpeechError::InvalidGlob),
        Some(voices) => {
            let place = choose_voice(tts, voices.len());
            settle_voice(voices, place, length_scale)
        },
    }
}

/// The name of a file in a format.
pub open spec fn file_name(name: Seq<char>, format: Seq<char>) -> Seq<char> {
    name + "."@ + format
}

/// Names the file that speech is written to. The name is a fresh one in the format that is asked
/// for.
pub fn name_output(tts: &TTSRequest) -> (r: String)
    ensures
        exists|name: Seq<char>| #[trigger]
            is_fresh_name(name) && r@ == file_name(name, tts.file_format@),
{
    let name = fresh_name();
    assert(is_fresh_name(name@));
    concat3(name.as_str(), ".", tts.file_format.as_str())
}

/// The path of the file that speech is written to.
pub open spec fn speech_path(out_name: Seq<char>) -> Seq<char> {
    "tts/"@ + out_name
}

/// The path of the file that speech is written to, below the directory of such files.
pub fn output_path(out_name: &str) -> (r: String)
    ensures
        r@ == speech_path(out_name@),
{
    concat2("tts/", out_name)
}

/// What is run to make speech, and what is answered once that is done.
#[derive(Debug)]
pub struct SpeechJob {
    /// What the program that speaks is run with; it is given the text.
    pub piper_args: Vec<String>,
    /// What the program that encodes is run with; it is given what the other has spoken.
    pub ffmpeg_args: Vec<String>,
    pub response: TTSResponse,
}

/// What the program that speaks is run with.
pub open spec fn piper_args(length_scale: Seq<char>, voice: Seq<char>) -> Seq<Seq<char>> {
    seq!["--length-scale"@, length_scale, "--model"@, voice, "--output-raw"@]
}

/// What the program that encodes is run with.
pub open spec fn ffmpeg_args(out: Seq<char>) -> Seq<Seq<char>> {
    seq![
        "-f"@,
        "s16le"@,
        "-ar"@,
        "22050"@,
        "-i"@,
        "pipe:"@,
        "-ar"@,
        "44100"@,
        "-filter:a"@,
        "speechnorm"@,
        out,
    ]
}

/// The texts in a list of their own.
fn owned(list: &[&str]) -> (r: Vec<String>)
    ensures
        r.len() == list@.len(),
        forall|i: int| 0 <= i < r.len() ==> (#[trigger] r@[i])@ == list@[i]@,
{
    let mut r: Vec<String> = Vec::new();
    let mut i: usize = 0;
    while i < list.len()
        invariant
            i <= list.len(),
            r.len() == i,
            forall|j: int| 0 <= j < i ==> (#[trigger] r@[j])@ == list@[j]@,
        decreases list.len() - i,
    {
        r.push(list[i].to_owned());
        i = i + 1;
    }
    r
}

/// Whether this is what is run to make speech with a voice, drawn out by a scale, into a file, and what
/// is answered once that is done.
pub open spec fn is_job(
    voice: Seq<char>,
    length_scale: Seq<char>,
    out: Seq<char>,
    out_name: Seq<char>,
    accessible_host: Seq<char>,
    job: SpeechJob,
) -> bool {
    &&& texts(job.piper_args@) == piper_args(length_scale, voice)
    &&& texts(job.ffmpeg_args@) == ffmpeg_args(out)
    &&& job.response.success
    &&& job.response.url@ == "https://"@ + accessible_host + "/tts/"@ + out_name
}

/// What is run to make speech with a voice, drawn out by a scale, into a file, and what is answered
/// once that is done.
pub fn speech_job(
    voice: &str,
    length_scale: &str,
    out: &str,
    out_name: &str,
    accessible_host: &str,
) -> (r: SpeechJob)
    ensures
        is_job(voice@, length_scale@, out@, out_name@, accessible_host@, r),
{
    let piper = owned(&["--length-scale", length_scale, "--model", voice, "--output-raw"]);
    let ffmpeg = owned(
        &[
            "-f",
            "s16le",
            "-ar",
            "22050",
            "-i",
            "pipe:",
            "-ar",
            "44100",
            "-filter:a",
            "speechnorm",
            out,
        ],
    );
    assert(texts(piper@) =~= piper_args(length_scale@, voice@));
    assert(texts(ffmpeg@) =~= ffmpeg_args(out@));
    let mut url = concat3("https://", accessible_host, "/tts/");
    url.push_str(out_name);
    SpeechJob {
        piper_args: piper,
        ffmpeg_args: ffmpeg,
        response: TTSResponse { success: true, url },
    }
}

} // verus!
