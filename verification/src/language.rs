//! Reading the `Accept-Language` header and deriving a country from the
//! language tags it names.

use vstd::prelude::*;

use crate::text::{
    chars_of, has_prefix, option_text, split_chars, split_on, starts_with_chars, string_of,
    sub_chars, texts_of, trim, trim_chars, upper_case, upper_chars, lemma_split_on_nonempty,
    law_split_append_piece, law_split_count, law_split_without_separator,
};

verus! {

/// One comma-separated entry of an `Accept-Language` header: the language
/// tag, and in order the texts after `q=` of its parameters that carry one.
/// The first of those texts that reads as a number is the entry's weight.
pub struct LanguagePreference {
    pub tag: String,
    pub quality_texts: Vec<String>,
}

/// `q=`
pub open spec fn quality_prefix() -> Seq<char> {
    seq!['q', '=']
}

/// The texts after `q=` of those parameters that begin with it once trimmed.
pub open spec fn quality_candidates(params: Seq<Seq<char>>) -> Seq<Seq<char>>
    decreases params.len(),
{
    if params.len() == 0 {
        Seq::<Seq<char>>::empty()
    } else {
        let before = quality_candidates(params.drop_last());
        let t = trim(params.last());
        if has_prefix(t, quality_prefix()) {
            before.push(t.skip(2))
        } else {
            before
        }
    }
}

/// The tag and quality texts of one header entry: the entry is trimmed and
/// split at `;`; the first piece is the tag.
pub open spec fn preference_of(part: Seq<char>) -> (Seq<char>, Seq<Seq<char>>) {
    let segments = split_on(trim(part), ';');
    (segments[0], quality_candidates(segments.drop_first()))
}

/// The entries of a header, split at `,`.
pub open spec fn language_entries(header: Seq<char>) -> Seq<(Seq<char>, Seq<Seq<char>>)> {
    split_on(header, ',').map_values(|p: Seq<char>| preference_of(p))
}

/// The country that a language tag points to. A bare Nordic language gives
/// its country; `lang-REGION` gives REGION and `lang-script-REGION` gives
/// REGION, upper-cased; anything else gives none.
pub open spec fn country_of_tag(tag: Seq<char>) -> Option<Seq<char>> {
    let chunks = split_on(tag, '-');
    if chunks.len() == 1 {
        let c = chunks[0];
        if c == seq!['n', 'b'] || c == seq!['n', 'n'] {
            Some(seq!['N', 'O'])
        } else if c == seq!['s', 'v'] {
            Some(seq!['S', 'E'])
        } else if c == seq!['d', 'a'] {
            Some(seq!['D', 'K'])
        } else if c == seq!['i', 's'] {
            Some(seq!['I', 'S'])
        } else if c == seq!['f', 'i'] {
            Some(seq!['F', 'I'])
        } else {
            None
        }
    } else if chunks.len() == 2 {
        Some(upper_case(chunks[1]))
    } else if chunks.len() == 3 {
        Some(upper_case(chunks[2]))
    } else {
        None
    }
}

/// The country of the first tag, in order, that points to one.
pub open spec fn first_country(tags: Seq<Seq<char>>) -> Option<Seq<char>>
    decreases tags.len(),
{
    if tags.len() == 0 {
        None
    } else {
        match country_of_tag(tags[0]) {
            Some(c) => Some(c),
            None => first_country(tags.drop_first()),
        }
    }
}

/// The quality texts of the parameters of one entry.
fn quality_texts_of(segments: &Vec<Vec<char>>) -> (r: Vec<String>)
    requires
        segments.len() >= 1,
    ensures
        texts_of(r@) == quality_candidates(
            segments@.map_values(|v: Vec<char>| v@).drop_first(),
        ),
{
    let ghost params = segments@.map_values(|v: Vec<char>| v@).drop_first();
    let q: Vec<char> = vec!['q', '='];
    assert(q@ == quality_prefix());
    let mut r: Vec<String> = Vec::new();
    let mut i: usize = 1;
    assert(params.take(0) =~= Seq::<Seq<char>>::empty());
    while i < segments.len()
        invariant
            1 <= i <= segments.len(),
            params == segments@.map_values(|v: Vec<char>| v@).drop_first(),
            q@ == quality_prefix(),
            texts_of(r@) == quality_candidates(params.take(i - 1)),
        decreases segments.len() - i,
    {
        let t = trim_chars(segments[i].as_slice());
        assert(params[i - 1] == segments@[i as int]@);
        assert(params.take(i as int).drop_last() == params.take(i - 1));
        assert(params.take(i as int).last() == segments@[i as int]@);
        if starts_with_chars(t.as_slice(), q.as_slice()) {
            let v = sub_chars(t.as_slice(), 2, t.len());
            assert(v@ == t@.skip(2));
            r.push(string_of(v.as_slice()));
            assert(texts_of(r@) == texts_of(r@).drop_last().push(v@));
        }
        i += 1;
    }
    assert(params.take(segments.len() - 1) == params);
    r
}

/// The entries of an `Accept-Language` header, in the order written: each
/// comma-separated part is trimmed and split at `;`, the first piece being
/// the tag.
pub fn accept_language_entries(header: &str) -> (r: Vec<LanguagePreference>)
    ensures
        r.len() == language_entries(header@).len(),
        forall|i: int|
            0 <= i < r.len() ==> (#[trigger] r@[i]).tag@ == language_entries(header@)[i].0
                && texts_of(r@[i].quality_texts@) == language_entries(header@)[i].1,
{
    let h = chars_of(header);
    let parts = split_chars(h.as_slice(), ',');
    let ghost entries = language_entries(header@);
    let mut r: Vec<LanguagePreference> = Vec::new();
    let mut i: usize = 0;
    while i < parts.len()
        invariant
            i <= parts.len(),
            h@ == header@,
            entries == language_entries(header@),
            parts.len() == split_on(h@, ',').len(),
            forall|j: int| 0 <= j < parts.len() ==> #[trigger] parts@[j]@ == split_on(h@, ',')[j],
            r.len() == i,
            forall|j: int|
                0 <= j < i ==> (#[trigger] r@[j]).tag@ == entries[j].0 && texts_of(
                    r@[j].quality_texts@,
                ) == entries[j].1,
        decreases parts.len() - i,
    {
        let t = trim_chars(parts[i].as_slice());
        let segments = split_chars(t.as_slice(), ';');
        proof {
            lemma_split_on_nonempty(t@, ';');
            assert(segments@.map_values(|v: Vec<char>| v@) =~= split_on(t@, ';'));
            assert(entries[i as int] == preference_of(parts@[i as int]@));
        }
        let tag = string_of(segments[0].as_slice());
        let quality_texts = quality_texts_of(&segments);
        r.push(LanguagePreference { tag, quality_texts });
        i += 1;
    }
    r
}

/// Whether `c` is the two characters `a`, `b`.
fn is_pair(c: &[char], a: char, b: char) -> (r: bool)
    ensures
        r == (c@ == seq![a, b]),
{
    if c.len() == 2 && c[0] == a && c[1] == b {
        assert(c@ =~= seq![a, b]);
        true
    } else {
        false
    }
}

/// The country that a language tag points to, if any.
pub fn country_from_language(tag: &str) -> (r: Option<String>)
    ensures
        option_text(r) == country_of_tag(tag@),
{
    let t = chars_of(tag);
    let chunks = split_chars(t.as_slice(), '-');
    if chunks.len() == 1 {
        let c = chunks[0].as_slice();
        let code: Vec<char> = if is_pair(c, 'n', 'b') || is_pair(c, 'n', 'n') {
            vec!['N', 'O']
        } else if is_pair(c, 's', 'v') {
            vec!['S', 'E']
        } else if is_pair(c, 'd', 'a') {
            vec!['D', 'K']
        } else if is_pair(c, 'i', 's') {
            vec!['I', 'S']
        } else if is_pair(c, 'f', 'i') {
            vec!['F', 'I']
        } else {
            return None;
        };
        Some(string_of(code.as_slice()))
    } else if chunks.len() == 2 {
        Some(upper_chars(chunks[1].as_slice()))
    } else if chunks.len() == 3 {
        Some(upper_chars(chunks[2].as_slice()))
    } else {
        None
    }
}

/// The country of the first tag, in order, that points to one.
pub fn country_from_languages(tags: &[String]) -> (r: Option<String>)
    ensures
        option_text(r) == first_country(texts_of(tags@)),
{
    let ghost all = texts_of(tags@);
    let mut i: usize = 0;
    assert(all.skip(0) == all);
    while i < tags.len()
        invariant
            i <= tags.len(),
            all == texts_of(tags@),
            first_country(all) == first_country(all.skip(i as int)),
        decreases tags.len() - i,
    {
        let found = country_from_language(tags[i].as_str());
        assert(all.skip(i as int)[0] == tags@[i as int]@);
        if found.is_some() {
            return found;
        }
        assert(all.skip(i as int).drop_first() == all.skip(i + 1));
        i += 1;
    }
    None
}

/// Every comma-separated part of the header gives one entry, in order: there
/// is one entry more than there are commas, and entry `i` is read from the
/// `i`-th part.
pub proof fn law_one_entry_per_part(header: Seq<char>)
    ensures
        language_entries(header).len() == header.filter(|x: char| x == ',').len() + 1,
        forall|i: int|
            0 <= i < language_entries(header).len() ==> #[trigger] language_entries(header)[i]
                == preference_of(split_on(header, ',')[i]),
{
    law_split_count(header, ',');
}

/// A tag without `-` points to a country only when it is one of the Nordic
/// languages nb, nn, sv, da, is, fi; every other bare tag points nowhere.
pub proof fn law_bare_tag_country(tag: Seq<char>)
    requires
        forall|i: int| 0 <= i < tag.len() ==> tag[i] != '-',
    ensures
        tag == seq!['n', 'b'] || tag == seq!['n', 'n'] ==> country_of_tag(tag) == Some(
            seq!['N', 'O'],
        ),
        tag == seq!['s', 'v'] ==> country_of_tag(tag) == Some(seq!['S', 'E']),
        tag == seq!['d', 'a'] ==> country_of_tag(tag) == Some(seq!['D', 'K']),
        tag == seq!['i', 's'] ==> country_of_tag(tag) == Some(seq!['I', 'S']),
        tag == seq!['f', 'i'] ==> country_of_tag(tag) == Some(seq!['F', 'I']),
        !(tag == seq!['n', 'b'] || tag == seq!['n', 'n'] || tag == seq!['s', 'v'] || tag == seq![
            'd',
            'a',
        ] || tag == seq!['i', 's'] || tag == seq!['f', 'i']) ==> country_of_tag(tag) is None,
{
    law_split_without_separator(tag, '-');
}

/// `lang-REGION` and `lang-script-REGION` point to REGION in upper case,
/// whatever the language and script.
pub proof fn law_region_subtag_country(lang: Seq<char>, script: Seq<char>, region: Seq<char>)
    requires
        forall|i: int| 0 <= i < lang.len() ==> lang[i] != '-',
        forall|i: int| 0 <= i < script.len() ==> script[i] != '-',
        forall|i: int| 0 <= i < region.len() ==> region[i] != '-',
    ensures
        country_of_tag(lang + seq!['-'] + region) == Some(upper_case(region)),
        country_of_tag(lang + seq!['-'] + script + seq!['-'] + region) == Some(
            upper_case(region),
        ),
{
    law_split_without_separator(lang, '-');
    law_split_append_piece(lang, region, '-');
    law_split_append_piece(lang, script, '-');
    law_split_append_piece(lang + seq!['-'] + script, region, '-');
    assert(seq![lang].push(region) =~= seq![lang, region]);
    assert(seq![lang].push(script).push(region) =~= seq![lang, script, region]);
}

/// The country comes from the first tag, in order, that points to one: the
/// tags before it point nowhere.
pub proof fn law_first_country_decides(tags: Seq<Seq<char>>, k: int)
    requires
        0 <= k < tags.len(),
        country_of_tag(tags[k]) is Some,
        forall|j: int| 0 <= j < k ==> country_of_tag(#[trigger] tags[j]) is None,
    ensures
        first_country(tags) == country_of_tag(tags[k]),
    decreases k,
{
    if k > 0 {
        assert(country_of_tag(tags[0]) is None);
        assert forall|j: int| 0 <= j < k - 1 implies country_of_tag(
            #[trigger] tags.drop_first()[j],
        ) is None by {
            assert(tags.drop_first()[j] == tags[j + 1]);
        }
        law_first_country_decides(tags.drop_first(), k - 1);
    }
}

} // verus!
