use divvun_worker_tts::page::{
    language_option, language_options, render_page, replace_chars, speakers_json,
    text_bundle_file_name, VoiceConfig,
};

const TEMPLATE: &str = "<x>%LANGUAGE_OPTIONS%|%VOICE_SETTINGS_STYLE%|%VERSION%</x>";

#[test]
fn page_for_several_voices() {
    assert_eq!(render_page(TEMPLATE, true, "<o>", "1.0"), "<x><o>||1.0</x>");
}

#[test]
fn page_for_one_voice_hides_the_settings() {
    assert_eq!(render_page(TEMPLATE, false, "<o>", "1.0"), "<x>|display: none;|1.0</x>");
}

#[test]
fn page_without_placeholders_is_unchanged() {
    assert_eq!(render_page("<p>plain</p>", true, "<o>", "2"), "<p>plain</p>");
}

#[test]
fn replacement_goes_left_to_right_without_overlap() {
    let s: Vec<char> = "aaaa".chars().collect();
    let r = replace_chars(&s, &['a', 'a'], &['b']);
    assert_eq!(r.into_iter().collect::<String>(), "bb");
    let s: Vec<char> = "%VERSION%%VERSION%".chars().collect();
    let p: Vec<char> = "%VERSION%".chars().collect();
    let r = replace_chars(&s, &p, &['1']);
    assert_eq!(r.into_iter().collect::<String>(), "11");
}

#[test]
fn speakers_are_a_json_object_keyed_by_number() {
    let s = speakers_json(&[(0, "Biret".to_string()), (10, "Máhtte".to_string()), (2, "c\"".to_string())]);
    let v: serde_json::Value = serde_json::from_str(&s).unwrap();
    assert_eq!(v["0"], "Biret");
    assert_eq!(v["10"], "Máhtte");
    assert_eq!(v["2"], "c\"");
    assert_eq!(v.as_object().unwrap().len(), 3);
    assert_eq!(speakers_json(&[]), "{}");
}

#[test]
fn voice_option_element() {
    assert_eq!(
        language_option(3, "{\"0\":\"a\"}", "North Sámi", "sme"),
        "<option value=\"3\" data-speakers='{\"0\":\"a\"}'>North Sámi (sme)</option>"
    );
}

#[test]
fn options_follow_the_configuration_order() {
    let voices = vec![
        ("sme".to_string(), VoiceConfig { name: "A".into(), language: 0, speakers: vec![(0, "x".into())] }),
        ("smj".to_string(), VoiceConfig { name: "B".into(), language: 1, speakers: vec![] }),
    ];
    assert_eq!(
        language_options(&voices),
        "<option value=\"0\" data-speakers='{\"0\":\"x\"}'>A (sme)</option><option value=\"1\" data-speakers='{}'>B (smj)</option>"
    );
    assert_eq!(language_options(&[]), "");
}

#[test]
fn text_bundle_file_names() {
    assert_eq!(text_bundle_file_name("olo"), "text-olo.drb");
}
