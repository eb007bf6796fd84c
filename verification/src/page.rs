//! The web page served on `/`, the voice configuration it lists, and the
//! bundle file names that configuration leads to.

use vstd::prelude::*;

use crate::json::{json_object, serde_json_object};
use crate::text::{
    chars_of, contains_text, decimal_string, decimal_text, matches_at, push_decimal, push_str,
};

verus! {

/// One voice of the configuration: its display name, the language number
/// requests name it by, and its speakers by number.
pub struct VoiceConfig {
    pub name: String,
    pub language: usize,
    pub speakers: Vec<(usize, String)>,
}

/// `s` with every occurrence of `pat`, taken from left to right without
/// overlap, replaced by `rep`, as `str::replace` does.
pub open spec fn replace_all(s: Seq<char>, pat: Seq<char>, rep: Seq<char>) -> Seq<char>
    decreases s.len(),
{
    if pat.len() == 0 || s.len() < pat.len() {
        s
    } else if s.take(pat.len() as int) == pat {
        rep + replace_all(s.skip(pat.len() as int), pat, rep)
    } else {
        seq![s[0]] + replace_all(s.drop_first(), pat, rep)
    }
}

/// The page: the language options, the voice settings style (hidden unless
/// several voices are offered) and the version put in place of their
/// placeholders.
pub open spec fn page_text(
    template: Seq<char>,
    multi_voice: bool,
    options: Seq<char>,
    version: Seq<char>,
) -> Seq<char> {
    let with_options = replace_all(
        template,
        "%LANGUAGE_OPTIONS%"@,
        if multi_voice {
            options
        } else {
            Seq::<char>::empty()
        },
    );
    let with_style = replace_all(
        with_options,
        "%VOICE_SETTINGS_STYLE%"@,
        if multi_voice {
            Seq::<char>::empty()
        } else {
            "display: none;"@
        },
    );
    replace_all(with_style, "%VERSION%"@, version)
}

/// The speakers of a voice as name fields keyed by their decimal numbers.
pub open spec fn speaker_fields(speakers: Seq<(usize, String)>) -> Seq<(Seq<char>, Seq<char>)> {
    speakers.map_values(|s: (usize, String)| (decimal_text(s.0 as nat), s.1@))
}

/// The `<option>` element that offers one voice.
pub open spec fn option_text(
    language: usize,
    speakers_json: Seq<char>,
    name: Seq<char>,
    code: Seq<char>,
) -> Seq<char> {
    "<option value=\""@ + decimal_text(language as nat) + "\" data-speakers='"@ + speakers_json
        + "'>"@ + name + " ("@ + code + ")</option>"@
}

/// The options for all voices, in the order given.
pub open spec fn options_text(voices: Seq<(String, VoiceConfig)>) -> Seq<char>
    decreases voices.len(),
{
    if voices.len() == 0 {
        Seq::<char>::empty()
    } else {
        let (code, voice) = voices.last();
        options_text(voices.drop_last()) + option_text(
            voice.language,
            json_object(speaker_fields(voice.speakers@)),
            voice.name@,
            code@,
        )
    }
}

/// `s` with every occurrence of the non-empty `pat` replaced by `rep`.
pub fn replace_chars(s: &[char], pat: &[char], rep: &[char]) -> (r: Vec<char>)
    requires
        pat.len() > 0,
    ensures
        r@ == replace_all(s@, pat@, rep@),
{
    let mut out: Vec<char> = Vec::new();
    let mut i: usize = 0;
    assert(s@.skip(0) == s@);
    while i < s.len()
        invariant
            i <= s.len(),
            pat.len() > 0,
            out@ + replace_all(s@.skip(i as int), pat@, rep@) == replace_all(s@, pat@, rep@),
        decreases s.len() - i,
    {
        let ghost rest = s@.skip(i as int);
        if pat.len() <= s.len() - i && matches_at(s, pat, i) {
            assert(rest.take(pat.len() as int) == s@.subrange(i as int, i + pat.len()));
            assert(rest.skip(pat.len() as int) == s@.skip(i + pat.len()));
            let ghost before = out@;
            let mut k: usize = 0;
            while k < rep.len()
                invariant
                    k <= rep.len(),
                    out@ == before + rep@.take(k as int),
                decreases rep.len() - k,
            {
                out.push(rep[k]);
                k += 1;
                assert(rep@.take(k as int) == rep@.take(k - 1).push(rep@[k - 1]));
            }
            assert(rep@.take(rep.len() as int) == rep@);
            assert(out@ + replace_all(s@.skip(i + pat.len()), pat@, rep@) == before + (rep@
                + replace_all(rest.skip(pat.len() as int), pat@, rep@)));
            i += pat.len();
        } else {
            if pat.len() <= s.len() - i {
                assert(rest.take(pat.len() as int) == s@.subrange(i as int, i + pat.len()));
            }
            assert(rest.drop_first() == s@.skip(i + 1));
            assert(rest[0] == s@[i as int]);
            assert(replace_all(rest, pat@, rep@) == seq![s@[i as int]] + replace_all(
                s@.skip(i + 1),
                pat@,
                rep@,
            )) by {
                if rest.len() < pat.len() {
                    assert(rest.drop_first().len() < pat.len());
                    assert(rest =~= seq![rest[0]] + rest.drop_first());
                }
            }
            let ghost before = out@;
            out.push(s[i]);
            assert(out@ == before + seq![s@[i as int]]);
            i += 1;
        }
    }
    assert(s@.skip(s.len() as int) =~= Seq::<char>::empty());
    out
}

/// Replaces every occurrence of the placeholder `pat` in `s` by `rep`.
fn replace_placeholder(s: &[char], pat: &str, rep: &[char]) -> (r: Vec<char>)
    requires
        pat@.len() > 0,
    ensures
        r@ == replace_all(s@, pat@, rep@),
{
    let p = chars_of(pat);
    replace_chars(s, p.as_slice(), rep)
}

/// The page with its placeholders filled in.
pub fn render_page(template: &str, multi_voice: bool, options: &str, version: &str) -> (r: String)
    ensures
        r@ == page_text(template@, multi_voice, options@, version@),
{
    proof {
        reveal_strlit("%LANGUAGE_OPTIONS%");
        reveal_strlit("%VOICE_SETTINGS_STYLE%");
        reveal_strlit("%VERSION%");
    }
    let t = chars_of(template);
    let empty: Vec<char> = Vec::new();
    let opts = chars_of(options);
    let hidden = chars_of("display: none;");
    let ver = chars_of(version);
    let step1 = if multi_voice {
        replace_placeholder(t.as_slice(), "%LANGUAGE_OPTIONS%", opts.as_slice())
    } else {
        replace_placeholder(t.as_slice(), "%LANGUAGE_OPTIONS%", empty.as_slice())
    };
    let step2 = if multi_voice {
        replace_placeholder(step1.as_slice(), "%VOICE_SETTINGS_STYLE%", empty.as_slice())
    } else {
        replace_placeholder(step1.as_slice(), "%VOICE_SETTINGS_STYLE%", hidden.as_slice())
    };
    assert(empty@ == Seq::<char>::empty());
    let step3 = replace_placeholder(step2.as_slice(), "%VERSION%", ver.as_slice());
    crate::text::string_of(step3.as_slice())
}

/// The speakers of a voice as a JSON object from their numbers to names.
pub fn speakers_json(speakers: &[(usize, String)]) -> (r: String)
    ensures
        r@ == json_object(speaker_fields(speakers@)),
{
    let mut fields: Vec<(String, String)> = Vec::new();
    let mut i: usize = 0;
    while i < speakers.len()
        invariant
            i <= speakers.len(),
            fields.len() == i,
            forall|j: int|
                0 <= j < i ==> (#[trigger] fields@[j]).0@ == decimal_text(speakers@[j].0 as nat)
                    && fields@[j].1@ == speakers@[j].1@,
        decreases speakers.len() - i,
    {
        let (number, name) = &speakers[i];
        fields.push((decimal_string(*number), name.clone()));
        i += 1;
    }
    let r = serde_json_object(fields.as_slice());
    assert(crate::json::field_texts(fields@) =~= speaker_fields(speakers@));
    r
}

/// The `<option>` element that offers one voice.
pub fn language_option(language: usize, speakers_json: &str, name: &str, code: &str) -> (r:
    String)
    ensures
        r@ == option_text(language, speakers_json@, name@, code@),
{
    let mut r = String::new();
    push_str(&mut r, "<option value=\"");
    push_decimal(&mut r, language as u64);
    push_str(&mut r, "\" data-speakers='");
    push_str(&mut r, speakers_json);
    push_str(&mut r, "'>");
    push_str(&mut r, name);
    push_str(&mut r, " (");
    push_str(&mut r, code);
    push_str(&mut r, ")</option>");
    r
}

/// The options offering every voice, in the order given.
pub fn language_options(voices: &[(String, VoiceConfig)]) -> (r: String)
    ensures
        r@ == options_text(voices@),
{
    let mut r = String::new();
    let mut i: usize = 0;
    while i < voices.len()
        invariant
            i <= voices.len(),
            r@ == options_text(voices@.take(i as int)),
        decreases voices.len() - i,
    {
        let (code, voice) = &voices[i];
        let sj = speakers_json(voice.speakers.as_slice());
        let line = language_option(voice.language, sj.as_str(), voice.name.as_str(), code.as_str());
        push_str(&mut r, line.as_str());
        assert(voices@.take(i + 1).drop_last() == voices@.take(i as int));
        assert(voices@.take(i + 1).last() == voices@[i as int]);
        i += 1;
    }
    assert(voices@.take(voices.len() as int) == voices@);
    r
}

/// The file holding the text bundle of a language: `text-LANG.drb`.
pub fn text_bundle_file_name(language: &str) -> (r: String)
    ensures
        r@ == "text-"@ + language@ + ".drb"@,
{
    let mut r = String::new();
    push_str(&mut r, "text-");
    push_str(&mut r, language);
    push_str(&mut r, ".drb");
    r
}

/// A text in which the pattern does not occur is left as it is.
pub proof fn lemma_replace_absent(s: Seq<char>, pat: Seq<char>, rep: Seq<char>)
    requires
        !contains_text(s, pat),
    ensures
        replace_all(s, pat, rep) == s,
    decreases s.len(),
{
    if pat.len() > 0 && s.len() >= pat.len() {
        if s.take(pat.len() as int) == pat {
            assert(s.subrange(0int, 0int + pat.len()) == pat);
        }
        assert forall|i: int|
            0 <= i && i + pat.len() <= s.drop_first().len() implies #[trigger] s.drop_first().subrange(
            i,
            i + pat.len(),
        ) != pat by {
            assert(s.drop_first().subrange(i, i + pat.len()) == s.subrange(i + 1, i + 1 + pat.len()));
        }
        lemma_replace_absent(s.drop_first(), pat, rep);
        assert(s =~= seq![s[0]] + s.drop_first());
    }
}

/// A template holding none of the three placeholders is served unchanged.
pub proof fn law_page_without_placeholders(
    template: Seq<char>,
    multi_voice: bool,
    options: Seq<char>,
    version: Seq<char>,
)
    requires
        !contains_text(template, "%LANGUAGE_OPTIONS%"@),
        !contains_text(template, "%VOICE_SETTINGS_STYLE%"@),
        !contains_text(template, "%VERSION%"@),
    ensures
        page_text(template, multi_voice, options, version) == template,
{
    let o = if multi_voice {
        options
    } else {
        Seq::<char>::empty()
    };
    let st = if multi_voice {
        Seq::<char>::empty()
    } else {
        "display: none;"@
    };
    lemma_replace_absent(template, "%LANGUAGE_OPTIONS%"@, o);
    lemma_replace_absent(template, "%VOICE_SETTINGS_STYLE%"@, st);
    lemma_replace_absent(template, "%VERSION%"@, version);
}

} // verus!
