use divvun_worker_tts::debug::{console_lines, TextOutput};
use divvun_worker_tts::text::{
    chars_of, contains_chars, decimal_string, parse_u16_chars, split_chars, trim_chars,
};

fn chars(s: &str) -> Vec<char> {
    s.chars().collect()
}

#[test]
fn decimal_text_of_numbers() {
    assert_eq!(decimal_string(0), "0");
    assert_eq!(decimal_string(7), "7");
    assert_eq!(decimal_string(10), "10");
    assert_eq!(decimal_string(4000), "4000");
    assert_eq!(decimal_string(usize::MAX), usize::MAX.to_string());
}

#[test]
fn port_numbers_are_read_like_u16_parse() {
    for s in ["0", "80", "+80", "065535", "65535", "65536", "", "+", "-1", "1a", " 1", "99999999999", "++1"] {
        assert_eq!(parse_u16_chars(&chars(s)), s.parse::<u16>().ok(), "for {s:?}");
    }
}

#[test]
fn trimming_removes_unicode_white_space() {
    assert_eq!(trim_chars(&chars("\u{3000} x y\t\n")), chars("x y"));
    assert_eq!(trim_chars(&chars("   ")), Vec::<char>::new());
    assert_eq!(trim_chars(&chars("\u{a0}a\u{2028}")), chars("a"));
    assert_eq!(trim_chars(&chars("a\u{200b}")), chars("a\u{200b}"));
}

#[test]
fn splitting_matches_str_split() {
    for (s, sep) in [("a,b,,c", ','), ("", ','), (",", ','), ("abc", '-'), ("en-US-x", '-')] {
        let got: Vec<String> = split_chars(&chars(s), sep).into_iter().map(|v| v.into_iter().collect()).collect();
        let want: Vec<String> = s.split(sep).map(|p| p.to_string()).collect();
        assert_eq!(got, want);
    }
}

#[test]
fn substring_search() {
    assert!(contains_chars(&chars("abcabd"), &chars("abd")));
    assert!(contains_chars(&chars("abc"), &chars("")));
    assert!(!contains_chars(&chars("ab"), &chars("abc")));
    assert_eq!(chars_of("åx"), vec!['å', 'x']);
}

#[test]
fn debugger_output_lines() {
    let lines = |o| console_lines(o).into_iter().map(|l| (l.to_stderr, l.text)).collect::<Vec<_>>();
    assert_eq!(lines(TextOutput::Text("hi".into())), vec![(false, "hi".to_string())]);
    assert_eq!(
        lines(TextOutput::Texts(vec!["a".into(), "b".into()])),
        vec![(false, "a".to_string()), (false, "b".to_string())]
    );
    assert_eq!(
        lines(TextOutput::Other("Bytes([1])".into())),
        vec![(true, "(unexpected output type: Bytes([1]))".to_string())]
    );
    assert_eq!(lines(TextOutput::Failure("bad".into())), vec![(true, "Error: bad".to_string())]);
}
