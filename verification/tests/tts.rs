use johnbox::ecast::OpMode;
use johnbox::tts::{
    choose_voice, generate_handler, name_output, output_path, settle_speech, settle_voice,
    speech_job, SpeechError, SpeechPlan, TTSRequest,
};
use rand::seq::IteratorRandom;
use rand::SeedableRng;
use rand_xoshiro::Xoroshiro128PlusPlus;
use std::hash::{DefaultHasher, Hasher};

fn request(voice: &str, text: &str) -> TTSRequest {
    TTSRequest {
        engine: "e".to_owned(),
        fail_sim: None,
        file_format: "ogg".to_owned(),
        rate: "%95%%".to_owned(),
        text: text.to_owned(),
        text_format: "plain".to_owned(),
        voice: voice.to_owned(),
    }
}

#[test]
fn speech_is_asked_for_or_made() {
    match generate_handler(OpMode::Proxy, "/voices", &request("v", "t")) {
        SpeechPlan::Ask { url } => {
            assert_eq!(url, "https://blobcast.jackboxgames.com/tts/generate")
        }
        _ => panic!(),
    }
    match generate_handler(OpMode::Native, "/voices", &request("v", "t")) {
        SpeechPlan::Make { voice_glob, rate } => {
            assert_eq!(voice_glob, "/voices/*.onnx");
            assert_eq!(rate, "95");
        }
        _ => panic!(),
    }
}

#[test]
fn voices_stay_the_same() {
    let mut chosen = Vec::new();
    for voice in ["a", "b", "c", "d", "e", "f", "g", "h"] {
        let first = choose_voice(&request(voice, "one"), 5).unwrap();
        let second = choose_voice(&request(voice, "two"), 5).unwrap();
        assert_eq!(first, second);
        assert!(first < 5);
        chosen.push(first);
    }
    assert!(chosen.iter().any(|i| *i != chosen[0]));
    assert_eq!(choose_voice(&request("a", "t"), 0), None);
    assert_eq!(choose_voice(&request("a", "t"), 1), Some(0));
}

#[test]
fn voices_are_those_of_the_hash() {
    for voice in ["a", "voice", ""] {
        let mut hasher = DefaultHasher::default();
        hasher.write(voice.as_bytes());
        let mut rng = Xoroshiro128PlusPlus::seed_from_u64(hasher.finish());
        // an iterator that cannot tell how many items it has
        let mut left: usize = 7;
        let unknown = std::iter::from_fn(move || {
            if left > 0 {
                left -= 1;
                Some(6 - left)
            } else {
                None
            }
        });
        assert_eq!(choose_voice(&request(voice, "t"), 7), unknown.choose(&mut rng));
    }
}

#[test]
fn names_are_fresh() {
    let a = name_output(&request("v", "t"));
    let b = name_output(&request("v", "t"));
    assert_eq!(a.len(), 25);
    assert!(a.ends_with(".ogg"));
    assert!(a[..21].chars().all(|c| c.is_ascii_alphanumeric() || c == '_' || c == '-'));
    assert_ne!(a, b);
    assert_eq!(output_path("x.ogg"), "tts/x.ogg");
}

#[test]
fn programs_are_run() {
    let job = speech_job("/v/a.onnx", "1.05", "/out/tts/x.ogg", "x.ogg", "here.example");
    assert_eq!(
        job.piper_args,
        vec!["--length-scale", "1.05", "--model", "/v/a.onnx", "--output-raw"]
    );
    assert_eq!(
        job.ffmpeg_args,
        vec![
            "-f", "s16le", "-ar", "22050", "-i", "pipe:", "-ar", "44100", "-filter:a",
            "speechnorm", "/out/tts/x.ogg"
        ]
    );
    assert!(job.response.success);
    assert_eq!(job.response.url, "https://here.example/tts/x.ogg");
}

#[test]
fn voices_are_asked_for_before_rates() {
    let tts = request("v", "t");
    let scale = || Some("1.5".to_owned());
    let voice = |name: &str| Some(name.to_owned());
    let none = settle_speech(&tts, &Some(vec![]), None).err().unwrap();
    assert_eq!(none, SpeechError::NoVoice);
    assert_eq!(none.status(), 404);
    assert_eq!(settle_speech(&tts, &Some(vec![]), scale()).err(), Some(SpeechError::NoVoice));
    let bad = settle_speech(&tts, &Some(vec![voice("a")]), None).err().unwrap();
    assert_eq!(bad, SpeechError::InvalidRate);
    assert_eq!(bad.status(), 422);
    let unreadable = settle_speech(&tts, &Some(vec![None]), None).err().unwrap();
    assert_eq!(unreadable, SpeechError::UnreadableVoice);
    assert_eq!(unreadable.status(), 500);
    let glob = settle_speech(&tts, &None, None).err().unwrap();
    assert_eq!(glob, SpeechError::InvalidGlob);
    assert_eq!(glob.status(), 422);
    let voices = vec![voice("a"), voice("b"), voice("c")];
    let place = choose_voice(&tts, 3).unwrap();
    assert_eq!(
        settle_speech(&tts, &Some(voices.clone()), scale()),
        Ok((voices[place].clone().unwrap(), "1.5".to_owned()))
    );
    assert_eq!(
        settle_voice(&voices, Some(1), scale()),
        Ok(("b".to_owned(), "1.5".to_owned()))
    );
}
