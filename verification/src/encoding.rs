//! Encodings of the processed text for the `X-Divvun-Text` response header:
//! UTF-16 in little-endian byte order, then standard Base64.

use vstd::prelude::*;

use base64::Engine;

use crate::text::{join_strings, join_with, option_text, texts_of, trim, trim_chars};
use crate::wav::le_bytes16;

verus! {

/// The character of a Base64 digit in the standard alphabet.
pub open spec fn base64_digit(v: nat) -> char {
    if v < 26 {
        (65 + v) as char
    } else if v < 52 {
        (97 + v - 26) as char
    } else if v < 62 {
        (48 + v - 52) as char
    } else if v == 62 {
        '+'
    } else {
        '/'
    }
}

/// Standard Base64 (RFC 4648, section 4) with `=` padding: each three bytes
/// become four digits; a last group of one or two bytes is padded.
pub open spec fn base64_text(b: Seq<u8>) -> Seq<char>
    decreases b.len(),
{
    if b.len() == 0 {
        Seq::<char>::empty()
    } else if b.len() == 1 {
        seq![base64_digit((b[0] / 4) as nat), base64_digit(((b[0] % 4) * 16) as nat), '=', '=']
    } else if b.len() == 2 {
        seq![
            base64_digit((b[0] / 4) as nat),
            base64_digit(((b[0] % 4) * 16 + b[1] / 16) as nat),
            base64_digit(((b[1] % 16) * 4) as nat),
            '=',
        ]
    } else {
        seq![
            base64_digit((b[0] / 4) as nat),
            base64_digit(((b[0] % 4) * 16 + b[1] / 16) as nat),
            base64_digit(((b[1] % 16) * 4 + b[2] / 64) as nat),
            base64_digit((b[2] % 64) as nat),
        ] + base64_text(b.skip(3))
    }
}

/// `Engine::encode` of `base64::engine::general_purpose::STANDARD`, the
/// standard alphabet with padding, as the crate documents it.
#[verifier::external_body]
fn base64_standard(bytes: &[u8]) -> (r: String)
    ensures
        r@ == base64_text(bytes@),
{
    base64::engine::general_purpose::STANDARD.encode(bytes)
}

/// One character in UTF-16, little-endian: one code unit, or a surrogate pair
/// for characters beyond the Basic Multilingual Plane.
pub open spec fn char_utf16_le(c: char) -> Seq<u8> {
    let v = (c as u32) as nat;
    if v < 0x10000 {
        le_bytes16(v)
    } else {
        le_bytes16((0xD800 + (v - 0x10000) / 1024) as nat) + le_bytes16(
            (0xDC00 + (v - 0x10000) % 1024) as nat,
        )
    }
}

/// A text in UTF-16, little-endian, as `encode_utf16` followed by
/// `to_le_bytes` gives it.
pub open spec fn utf16_le(s: Seq<char>) -> Seq<u8>
    decreases s.len(),
{
    if s.len() == 0 {
        Seq::<u8>::empty()
    } else {
        utf16_le(s.drop_last()) + char_utf16_le(s.last())
    }
}

/// The value of the text header: the texts joined by new lines, trimmed,
/// in UTF-16 little-endian and then Base64; none when there is no text.
pub open spec fn text_header(texts: Seq<Seq<char>>) -> Option<Seq<char>> {
    if texts.len() == 0 {
        None
    } else {
        Some(base64_text(utf16_le(trim(join_with(texts, seq!['\n'])))))
    }
}

/// Appends the two bytes of a 16-bit code unit, least significant first.
fn push_unit(out: &mut Vec<u8>, u: u32)
    requires
        u < 0x10000,
    ensures
        final(out)@ == old(out)@ + le_bytes16(u as nat),
{
    out.push((u % 256) as u8);
    out.push((u / 256) as u8);
    assert(final(out)@ =~= old(out)@ + le_bytes16(u as nat));
}

/// A text in UTF-16, little-endian.
pub fn utf16_le_bytes(s: &[char]) -> (r: Vec<u8>)
    ensures
        r@ == utf16_le(s@),
{
    let mut r: Vec<u8> = Vec::new();
    let mut i: usize = 0;
    while i < s.len()
        invariant
            i <= s.len(),
            r@ == utf16_le(s@.take(i as int)),
        decreases s.len() - i,
    {
        let c = s[i];
        proof {
            vstd::utf8::char_is_scalar(c);
        }
        let v = c as u32;
        proof {
            assert(s@.take(i + 1).drop_last() == s@.take(i as int));
            assert(s@.take(i + 1).last() == s@[i as int]);
        }
        if v < 0x10000 {
            push_unit(&mut r, v);
        } else {
            push_unit(&mut r, 0xD800 + (v - 0x10000) / 1024);
            push_unit(&mut r, 0xDC00 + (v - 0x10000) % 1024);
        }
        i += 1;
    }
    assert(s@.take(s.len() as int) == s@);
    r
}

/// The value of the `X-Divvun-Text` header for the processed texts, or none
/// when there are none.
pub fn text_header_value(texts: &[String]) -> (r: Option<String>)
    ensures
        option_text(r) == text_header(texts_of(texts@)),
{
    if texts.len() == 0 {
        return None;
    }
    let newline: Vec<char> = vec!['\n'];
    let joined = join_strings(texts, newline.as_slice());
    let trimmed = trim_chars(joined.as_slice());
    let bytes = utf16_le_bytes(trimmed.as_slice());
    let r = base64_standard(bytes.as_slice());
    assert(newline@ == seq!['\n']);
    assert(joined@ == join_with(texts_of(texts@), seq!['\n']));
    assert(r@ == base64_text(utf16_le(trim(join_with(texts_of(texts@), seq!['\n'])))));
    assert(texts_of(texts@).len() == texts.len());
    Some(r)
}

/// Standard Base64 of `n` bytes has `4 ⌈n / 3⌉` characters.
pub proof fn law_base64_length(b: Seq<u8>)
    ensures
        base64_text(b).len() == 4 * ((b.len() + 2) / 3),
    decreases b.len(),
{
    if b.len() >= 3 {
        law_base64_length(b.skip(3));
    }
}

/// Each character takes two bytes in UTF-16, or four beyond the Basic
/// Multilingual Plane, so the encoding always has an even length.
pub proof fn law_utf16_even_length(s: Seq<char>)
    ensures
        utf16_le(s).len() % 2 == 0,
        s.len() * 2 <= utf16_le(s).len() <= s.len() * 4,
    decreases s.len(),
{
    if s.len() > 0 {
        law_utf16_even_length(s.drop_last());
    }
}

/// A character below U+10000 is one code unit: the two bytes of its code
/// point, least significant first.
pub proof fn law_utf16_basic_plane(c: char)
    requires
        (c as u32) < 0x10000,
    ensures
        char_utf16_le(c) == seq![((c as u32) % 256) as u8, ((c as u32) / 256) as u8],
{
    let v = (c as u32) as nat;
    assert((v / 256) % 256 == v / 256);
    assert(char_utf16_le(c) =~= seq![((c as u32) % 256) as u8, ((c as u32) / 256) as u8]);
}

/// A character from U+10000 on is a surrogate pair, high then low, each code
/// unit least significant byte first.
pub proof fn law_utf16_surrogate_pair(c: char)
    requires
        (c as u32) >= 0x10000,
    ensures
        ({
            let v = (c as u32) as int;
            let high = 0xD800 + (v - 0x10000) / 1024;
            let low = 0xDC00 + (v - 0x10000) % 1024;
            char_utf16_le(c) == seq![
                (high % 256) as u8,
                (high / 256) as u8,
                (low % 256) as u8,
                (low / 256) as u8,
            ]
        }),
{
    vstd::utf8::char_is_scalar(c);
    let v = (c as u32) as int;
    let high = 0xD800 + (v - 0x10000) / 1024;
    let low = 0xDC00 + (v - 0x10000) % 1024;
    assert(high < 0x10000 && low < 0x10000);
    assert((high / 256) % 256 == high / 256);
    assert((low / 256) % 256 == low / 256);
    assert(char_utf16_le(c) =~= seq![
        (high % 256) as u8,
        (high / 256) as u8,
        (low % 256) as u8,
        (low / 256) as u8,
    ]);
}

/// The encoding of a text is the encodings of its characters one after the
/// other: encoding two texts one after the other is encoding them joined.
pub proof fn law_utf16_concat(s: Seq<char>, t: Seq<char>)
    ensures
        utf16_le(s + t) == utf16_le(s) + utf16_le(t),
    decreases t.len(),
{
    if t.len() == 0 {
        assert(s + t =~= s);
    } else {
        law_utf16_concat(s, t.drop_last());
        assert((s + t).drop_last() =~= s + t.drop_last());
        assert((s + t).last() == t.last());
    }
}

/// A text of one character encodes as that character.
pub proof fn law_utf16_single(c: char)
    ensures
        utf16_le(seq![c]) == char_utf16_le(c),
{
    assert(seq![c].drop_last() =~= Seq::<char>::empty());
    assert(utf16_le(Seq::<char>::empty()) == Seq::<u8>::empty());
    assert(utf16_le(seq![c]) == utf16_le(seq![c].drop_last()) + char_utf16_le(seq![c].last()));
    assert(Seq::<u8>::empty() + char_utf16_le(c) =~= char_utf16_le(c));
}

} // verus!
