use std::collections::HashMap;

use divvun_worker_tts::response::{
    accepts_mpeg, requested_country, text_bundle_for, wants_float_samples, AppError,
    CountryChoice, StreamEvent, SynthesisProgress,
};

#[test]
fn error_messages() {
    assert_eq!(AppError::LanguageNotFound(3).message(), "Language 3 not found");
    assert_eq!(AppError::PipelineCreation("x".into()).message(), "Pipeline creation failed: x");
    assert_eq!(AppError::TextProcessing("x".into()).message(), "Text processing failed: x");
    assert_eq!(AppError::SpeechSynthesis("x".into()).message(), "Speech synthesis failed: x");
    assert_eq!(AppError::WavProcessing("x".into()).message(), "WAV processing failed: x");
    assert_eq!(AppError::AudioEncoding("x".into()).message(), "Audio encoding failed: x");
    assert_eq!(AppError::NoOutput.message(), "No audio output generated");
}

#[test]
fn error_statuses() {
    assert_eq!(AppError::LanguageNotFound(0).status(), 400);
    assert!(!AppError::LanguageNotFound(0).is_server_error());
    for e in [AppError::NoOutput, AppError::SpeechSynthesis("s".into()), AppError::PipelineCreation("p".into())] {
        assert_eq!(e.status(), 500);
        assert!(e.is_server_error());
    }
}

#[test]
fn error_bodies_are_json() {
    assert_eq!(AppError::LanguageNotFound(12).response_body(), r#"{"error":"Language 12 not found"}"#);
    assert_eq!(
        AppError::PipelineCreation("a\"b\n".into()).response_body(),
        r#"{"error":"Pipeline creation failed: a\"b\n"}"#
    );
}

#[test]
fn collected_text_and_audio() {
    let mut p = SynthesisProgress::new(true);
    assert!(p.step(StreamEvent::Text(vec!["a".into(), "b".into()])).is_ok());
    assert!(p.step(StreamEvent::Audio(0)).is_ok());
    assert!(p.step(StreamEvent::Text(vec!["c".into()])).is_ok());
    assert!(p.step(StreamEvent::Audio(10)).is_ok());
    assert_eq!(p.finish().unwrap(), vec!["a".to_string(), "b".to_string(), "c".to_string()]);
}

#[test]
fn text_is_dropped_unless_asked_for() {
    let mut p = SynthesisProgress::new(false);
    assert!(p.step(StreamEvent::Text(vec!["a".into()])).is_ok());
    assert!(p.step(StreamEvent::Audio(1)).is_ok());
    assert!(p.finish().unwrap().is_empty());
}

#[test]
fn no_audio_is_an_error() {
    let mut p = SynthesisProgress::new(true);
    assert!(p.step(StreamEvent::Text(vec!["a".into()])).is_ok());
    assert!(p.step(StreamEvent::Audio(0)).is_ok());
    assert!(matches!(p.finish(), Err(AppError::NoOutput)));
    assert!(matches!(SynthesisProgress::new(false).finish(), Err(AppError::NoOutput)));
}

#[test]
fn pipeline_failure_is_a_synthesis_error() {
    let mut p = SynthesisProgress::new(true);
    match p.step(StreamEvent::Failure("broken".into())) {
        Err(AppError::SpeechSynthesis(m)) => assert_eq!(m, "broken"),
        _ => panic!("expected a synthesis error"),
    }
}

#[test]
fn float_samples_are_asked_for_by_name() {
    assert!(wants_float_samples(Some("f32")));
    assert!(wants_float_samples(Some("F32")));
    assert!(!wants_float_samples(Some("f32 ")));
    assert!(!wants_float_samples(Some("i16")));
    assert!(!wants_float_samples(Some("")));
    assert!(!wants_float_samples(None));
}

#[test]
fn mpeg_is_accepted_anywhere_in_the_header() {
    assert!(accepts_mpeg(Some("audio/mpeg")));
    assert!(accepts_mpeg(Some("audio/wav, audio/mpeg;q=0.5")));
    assert!(!accepts_mpeg(Some("audio/MPEG")));
    assert!(!accepts_mpeg(Some("audio/mpe")));
    assert!(!accepts_mpeg(None));
}

#[test]
fn text_bundles_are_looked_up_by_language() {
    let mut bundles = HashMap::new();
    bundles.insert(1usize, "sme");
    assert_eq!(*text_bundle_for(&bundles, 1).unwrap(), "sme");
    assert!(matches!(text_bundle_for(&bundles, 2), Err(AppError::LanguageNotFound(2))));
}

#[test]
fn requested_country_choices() {
    assert!(matches!(requested_country(Some("")), CountryChoice::Absent));
    assert!(matches!(requested_country(None), CountryChoice::Derive));
    match requested_country(Some("NO")) {
        CountryChoice::Given(c) => assert_eq!(c, "NO"),
        _ => panic!("expected the given country"),
    }
}
