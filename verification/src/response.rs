//! Handling a synthesis request: the errors it can end in, the collection of
//! pipeline output, and the choice of audio format.

use std::collections::HashMap;

use vstd::prelude::*;

use crate::client::option_str;
use crate::json::{json_object, serde_json_object};
use crate::text::{
    ascii_lower, chars_of, contains_chars, contains_text, decimal_text,
    eq_ignore_ascii_case_chars, push_decimal, push_str, texts_of,
};

verus! {

/// Why a synthesis request failed.
#[derive(Debug)]
pub enum AppError {
    LanguageNotFound(usize),
    PipelineCreation(String),
    TextProcessing(String),
    SpeechSynthesis(String),
    WavProcessing(String),
    AudioEncoding(String),
    NoOutput,
}

/// The message of an error.
pub open spec fn app_error_text(e: AppError) -> Seq<char> {
    match e {
        AppError::LanguageNotFound(id) => "Language "@ + decimal_text(id as nat) + " not found"@,
        AppError::PipelineCreation(m) => "Pipeline creation failed: "@ + m@,
        AppError::TextProcessing(m) => "Text processing failed: "@ + m@,
        AppError::SpeechSynthesis(m) => "Speech synthesis failed: "@ + m@,
        AppError::WavProcessing(m) => "WAV processing failed: "@ + m@,
        AppError::AudioEncoding(m) => "Audio encoding failed: "@ + m@,
        AppError::NoOutput => "No audio output generated"@,
    }
}

/// The HTTP status of an error: 400 for an unknown language, which is the
/// client's fault, and 500 for everything else.
pub open spec fn error_status(e: AppError) -> u16 {
    match e {
        AppError::LanguageNotFound(_) => 400,
        _ => 500,
    }
}

/// The JSON body sent for an error: an object whose `error` field holds the
/// message.
pub open spec fn error_body(e: AppError) -> Seq<char> {
    json_object(seq![("error"@, app_error_text(e))])
}

impl AppError {
    /// The message of the error, as it is shown to clients and logged.
    pub fn message(&self) -> (r: String)
        ensures
            r@ == app_error_text(*self),
    {
        let mut r = String::new();
        match self {
            AppError::LanguageNotFound(id) => {
                push_str(&mut r, "Language ");
                push_decimal(&mut r, *id as u64);
                push_str(&mut r, " not found");
            },
            AppError::PipelineCreation(m) => {
                push_str(&mut r, "Pipeline creation failed: ");
                push_str(&mut r, m.as_str());
            },
            AppError::TextProcessing(m) => {
                push_str(&mut r, "Text processing failed: ");
                push_str(&mut r, m.as_str());
            },
            AppError::SpeechSynthesis(m) => {
                push_str(&mut r, "Speech synthesis failed: ");
                push_str(&mut r, m.as_str());
            },
            AppError::WavProcessing(m) => {
                push_str(&mut r, "WAV processing failed: ");
                push_str(&mut r, m.as_str());
            },
            AppError::AudioEncoding(m) => {
                push_str(&mut r, "Audio encoding failed: ");
                push_str(&mut r, m.as_str());
            },
            AppError::NoOutput => {
                push_str(&mut r, "No audio output generated");
            },
        }
        r
    }

    /// The HTTP status code answered for the error.
    pub fn status(&self) -> (r: u16)
        ensures
            r == error_status(*self),
    {
        match self {
            AppError::LanguageNotFound(_) => 400,
            _ => 500,
        }
    }

    /// Whether the error is the server's fault (a 5xx status), which is
    /// logged as an error rather than a warning.
    pub fn is_server_error(&self) -> (r: bool)
        ensures
            r == (500 <= error_status(*self) <= 599),
    {
        let s = self.status();
        500 <= s && s <= 599
    }

    /// The JSON body of the error response.
    pub fn response_body(&self) -> (r: String)
        ensures
            r@ == error_body(*self),
    {
        let mut name = String::new();
        push_str(&mut name, "error");
        let fields = vec![(name, self.message())];
        let r = serde_json_object(fields.as_slice());
        assert(crate::json::field_texts(fields@) =~= seq![("error"@, app_error_text(*self))]);
        r
    }
}

/// An error is answered with 400 exactly when the language is unknown, and
/// every other error is a server error.
pub proof fn law_error_status(e: AppError)
    ensures
        error_status(e) == 400 <==> e is LanguageNotFound,
        500 <= error_status(e) <= 599 <==> !(e is LanguageNotFound),
{
}

/// The text bundle registered for the requested language, or
/// `LanguageNotFound` when there is none.
pub fn text_bundle_for<B>(bundles: &HashMap<usize, B>, language: usize) -> (r: Result<&B, AppError>)
    ensures
        match r {
            Ok(b) => bundles@.contains_key(language) && *b == bundles@[language],
            Err(e) => !bundles@.contains_key(language) && e == AppError::LanguageNotFound(language),
        },
{
    proof {
        broadcast use vstd::std_specs::hash::group_hash_axioms;
    }
    match bundles.get(&language) {
        Some(b) => Ok(b),
        None => Err(AppError::LanguageNotFound(language)),
    }
}

/// Which country a request is served for: the one it names, none when it
/// names the empty text, or the one derived from the request otherwise.
pub enum CountryChoice {
    Given(String),
    Absent,
    Derive,
}

/// The country choice for the `country` field of a request body.
pub fn requested_country(country: Option<&str>) -> (r: CountryChoice)
    ensures
        match country {
            Some(c) => if c@.len() == 0 {
                r is Absent
            } else {
                r matches CountryChoice::Given(g) && g@ == c@
            },
            None => r is Derive,
        },
{
    match country {
        Some(c) => {
            let cs = crate::text::chars_of(c);
            if cs.len() == 0 {
                CountryChoice::Absent
            } else {
                CountryChoice::Given(crate::text::string_of(cs.as_slice()))
            }
        },
        None => CountryChoice::Derive,
    }
}

/// What the text and speech pipelines hand back while a request is served.
pub enum StreamEvent {
    /// Processed text, one or more pieces.
    Text(Vec<String>),
    /// A chunk of audio with this many samples.
    Audio(usize),
    /// A pipeline failed with this message.
    Failure(String),
}

/// What has been collected of a request's output so far.
pub struct SynthesisProgress {
    include_text: bool,
    texts: Vec<String>,
    has_audio: bool,
}

/// The mathematical form of the collected output.
pub struct ProgressView {
    /// Whether the client asked for the processed text.
    pub include_text: bool,
    /// The processed text kept so far.
    pub texts: Seq<Seq<char>>,
    /// Whether any audio sample has arrived.
    pub has_audio: bool,
}

impl View for SynthesisProgress {
    type V = ProgressView;

    closed spec fn view(&self) -> ProgressView {
        ProgressView {
            include_text: self.include_text,
            texts: texts_of(self.texts@),
            has_audio: self.has_audio,
        }
    }
}

/// The state after one event, where the event is not a failure.
pub open spec fn progress_after(p: ProgressView, event: StreamEvent) -> ProgressView {
    match event {
        StreamEvent::Text(t) => ProgressView {
            include_text: p.include_text,
            texts: if p.include_text {
                p.texts + texts_of(t@)
            } else {
                p.texts
            },
            has_audio: p.has_audio,
        },
        StreamEvent::Audio(n) => ProgressView {
            include_text: p.include_text,
            texts: p.texts,
            has_audio: p.has_audio || n > 0,
        },
        StreamEvent::Failure(_) => p,
    }
}

impl SynthesisProgress {
    /// Nothing collected yet; text is kept only when `include_text` is set.
    pub fn new(include_text: bool) -> (r: Self)
        ensures
            r@ == (ProgressView {
                include_text,
                texts: Seq::<Seq<char>>::empty(),
                has_audio: false,
            }),
    {
        let r = SynthesisProgress { include_text, texts: Vec::new(), has_audio: false };
        assert(texts_of(r.texts@) =~= Seq::<Seq<char>>::empty());
        r
    }

    /// Takes one event. A failure ends the request with a speech synthesis
    /// error carrying the pipeline's message; text is kept when asked for;
    /// audio marks that there is output.
    pub fn step(&mut self, event: StreamEvent) -> (r: Result<(), AppError>)
        ensures
            match event {
                StreamEvent::Failure(m) => r == Err::<(), AppError>(AppError::SpeechSynthesis(m))
                    && final(self)@ == old(self)@,
                _ => r is Ok && final(self)@ == progress_after(old(self)@, event),
            },
    {
        match event {
            StreamEvent::Text(t) => {
                if self.include_text {
                    let mut i: usize = 0;
                    let ghost before = self.texts@;
                    while i < t.len()
                        invariant
                            i <= t.len(),
                            self.texts@ == before + t@.take(i as int),
                            self.include_text == old(self).include_text,
                            self.has_audio == old(self).has_audio,
                        decreases t.len() - i,
                    {
                        self.texts.push(t[i].clone());
                        i += 1;
                        assert(t@.take(i as int) == t@.take(i - 1).push(t@[i - 1]));
                    }
                    assert(t@.take(t.len() as int) == t@);
                    assert(texts_of(before + t@) =~= texts_of(before) + texts_of(t@));
                }
                Ok(())
            },
            StreamEvent::Audio(n) => {
                if n > 0 {
                    self.has_audio = true;
                }
                Ok(())
            },
            StreamEvent::Failure(m) => Err(AppError::SpeechSynthesis(m)),
        }
    }

    /// The outcome once the pipelines are done: the kept text, or
    /// `NoOutput` when no audio sample arrived.
    pub fn finish(self) -> (r: Result<Vec<String>, AppError>)
        ensures
            match r {
                Ok(t) => self@.has_audio && texts_of(t@) == self@.texts,
                Err(e) => !self@.has_audio && e == AppError::NoOutput,
            },
    {
        if self.has_audio {
            Ok(self.texts)
        } else {
            Err(AppError::NoOutput)
        }
    }
}

/// Text is only ever kept when the client asked for it.
pub proof fn law_text_only_when_asked(p: ProgressView, event: StreamEvent)
    requires
        !p.include_text,
        p.texts.len() == 0,
    ensures
        progress_after(p, event).texts.len() == 0,
        !progress_after(p, event).include_text,
{
}

/// When the client asked for text, every text event appends its texts to
/// those kept, whether or not audio has already arrived, and leaves the rest
/// as it was; an audio event never changes the kept text.
pub proof fn law_text_kept_when_asked(p: ProgressView, t: Vec<String>, n: usize)
    requires
        p.include_text,
    ensures
        progress_after(p, StreamEvent::Text(t)).texts == p.texts + texts_of(t@),
        progress_after(p, StreamEvent::Text(t)).has_audio == p.has_audio,
        progress_after(p, StreamEvent::Text(t)).include_text,
        progress_after(p, StreamEvent::Audio(n)).texts == p.texts,
        progress_after(p, StreamEvent::Audio(n)).has_audio == (p.has_audio || n > 0),
{
}

/// Text, audio, then more text: the kept text is both texts in order.
pub proof fn law_text_after_audio(p: ProgressView, t1: Vec<String>, n: usize, t2: Vec<String>)
    requires
        p.include_text,
    ensures
        progress_after(
            progress_after(progress_after(p, StreamEvent::Text(t1)), StreamEvent::Audio(n)),
            StreamEvent::Text(t2),
        ).texts == p.texts + texts_of(t1@) + texts_of(t2@),
{
}

/// Once audio has arrived it stays arrived.
pub proof fn law_audio_is_kept(p: ProgressView, event: StreamEvent)
    requires
        p.has_audio,
    ensures
        progress_after(p, event).has_audio,
{
}

/// Whether the `sample_format` query asks for 32-bit float samples: it is
/// `f32`, with the letter in either case.
pub open spec fn asks_float_samples(sample_format: Option<Seq<char>>) -> bool {
    match sample_format {
        Some(t) => t.len() == 3 && ascii_lower(t[0]) == 'f' && t[1] == '3' && t[2] == '2',
        None => false,
    }
}

/// Whether an `Accept` header names `audio/mpeg`.
pub open spec fn accepts_mpeg_audio(accept: Option<Seq<char>>) -> bool {
    match accept {
        Some(t) => contains_text(t, "audio/mpeg"@),
        None => false,
    }
}

/// MP3 is chosen exactly when the `Accept` header holds the text
/// `audio/mpeg` somewhere; a missing header, or one without that text (such
/// as `*/*`), gives WAV.
pub proof fn law_mpeg_only_when_named(t: Seq<char>)
    ensures
        accepts_mpeg_audio(Some(t)) <==> exists|i: int|
            0 <= i && i + 10 <= t.len() && #[trigger] t.subrange(i, i + 10) == "audio/mpeg"@,
        !accepts_mpeg_audio(None),
{
    reveal_strlit("audio/mpeg");
    assert("audio/mpeg"@.len() == 10);
}

/// Whether the client asked for 32-bit float samples.
pub fn wants_float_samples(sample_format: Option<&str>) -> (r: bool)
    ensures
        r == asks_float_samples(option_str(sample_format)),
{
    match sample_format {
        Some(t) => {
            let s = chars_of(t);
            let f32_name: Vec<char> = vec!['f', '3', '2'];
            let r = eq_ignore_ascii_case_chars(s.as_slice(), f32_name.as_slice());
            proof {
                if s@.len() == 3 {
                    assert(ascii_lower(s@[1]) == ascii_lower('3') ==> s@[1] == '3');
                    assert(ascii_lower(s@[2]) == ascii_lower('2') ==> s@[2] == '2');
                    assert(ascii_lower(f32_name@[0]) == 'f');
                    assert(ascii_lower(f32_name@[1]) == '3');
                    assert(ascii_lower(f32_name@[2]) == '2');
                }
            }
            r
        },
        None => false,
    }
}

/// Whether the client accepts MPEG audio.
pub fn accepts_mpeg(accept: Option<&str>) -> (r: bool)
    ensures
        r == accepts_mpeg_audio(option_str(accept)),
{
    match accept {
        Some(t) => {
            let s = chars_of(t);
            let mpeg = chars_of("audio/mpeg");
            contains_chars(s.as_slice(), mpeg.as_slice())
        },
        None => false,
    }
}

} // verus!
