use divvun_worker_tts::encoding::{text_header_value, utf16_le_bytes};
use divvun_worker_tts::wav::write_wav_pcm16;

#[test]
fn wav_file_has_canonical_header_and_samples() {
    let (content_type, bytes) = write_wav_pcm16(&[0, 1, -1, 32767, -32768]);
    assert_eq!(content_type, "audio/wav");
    let expected: Vec<u8> = vec![
        82, 73, 70, 70, 46, 0, 0, 0, 87, 65, 86, 69, 102, 109, 116, 32, 16, 0, 0, 0, 1, 0, 1, 0,
        34, 86, 0, 0, 68, 172, 0, 0, 2, 0, 16, 0, 100, 97, 116, 97, 10, 0, 0, 0, 0, 0, 1, 0, 255,
        255, 255, 127, 0, 128,
    ];
    assert_eq!(bytes, expected);
}

#[test]
fn wav_file_size_is_header_and_two_bytes_per_sample() {
    for n in [0usize, 1, 7, 1000] {
        let samples = vec![5i16; n];
        let (_, bytes) = write_wav_pcm16(&samples);
        assert_eq!(bytes.len(), 44 + 2 * n);
        assert_eq!(&bytes[40..44], &((2 * n) as u32).to_le_bytes());
        assert_eq!(&bytes[4..8], &((36 + 2 * n) as u32).to_le_bytes());
    }
}

#[test]
fn utf16_little_endian_bytes() {
    assert_eq!(utf16_le_bytes(&['h', 'é']), vec![0x68, 0, 0xe9, 0]);
    assert_eq!(utf16_le_bytes(&['😀']), vec![0x3d, 0xd8, 0x00, 0xde]);
    assert_eq!(utf16_le_bytes(&[]), Vec::<u8>::new());
}

#[test]
fn text_header_encodes_trimmed_joined_text() {
    let t = |v: &[&str]| v.iter().map(|s| s.to_string()).collect::<Vec<_>>();
    assert_eq!(text_header_value(&t(&["hello"])), Some("aABlAGwAbABvAA==".to_string()));
    assert_eq!(text_header_value(&t(&[" a ", "b  "])), Some("YQAgAAoAYgA=".to_string()));
    assert_eq!(text_header_value(&t(&["😀"])), Some("PdgA3g==".to_string()));
    assert_eq!(text_header_value(&[]), None);
    assert_eq!(text_header_value(&t(&["  "])), Some("".to_string()));
}

#[test]
fn base64_length_is_four_per_three_bytes() {
    for n in 0..20usize {
        let text = "x".repeat(n);
        let v = text_header_value(&[text]).unwrap();
        let bytes = 2 * n;
        assert_eq!(v.len(), 4 * ((bytes + 2) / 3));
    }
}
