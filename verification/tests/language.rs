use divvun_worker_tts::language::{
    accept_language_entries, country_from_language, country_from_languages,
};

fn entries(h: &str) -> Vec<(String, Vec<String>)> {
    accept_language_entries(h).into_iter().map(|p| (p.tag, p.quality_texts)).collect()
}

#[test]
fn accept_language_is_split_into_entries() {
    assert_eq!(
        entries("nb-NO,nb;q=0.9, en;q=0.8"),
        vec![
            ("nb-NO".to_string(), vec![]),
            ("nb".to_string(), vec!["0.9".to_string()]),
            ("en".to_string(), vec!["0.8".to_string()]),
        ]
    );
}

#[test]
fn accept_language_keeps_every_q_parameter_in_order() {
    assert_eq!(
        entries(" fi ; level=1; q=x ;q=0.5"),
        vec![("fi ".to_string(), vec!["x".to_string(), "0.5".to_string()])]
    );
}

#[test]
fn empty_accept_language_has_one_empty_entry() {
    assert_eq!(entries(""), vec![("".to_string(), vec![])]);
    assert_eq!(entries(",").len(), 2);
}

#[test]
fn nordic_languages_give_their_country() {
    for (tag, country) in [("nb", "NO"), ("nn", "NO"), ("sv", "SE"), ("da", "DK"), ("is", "IS"), ("fi", "FI")] {
        assert_eq!(country_from_language(tag), Some(country.to_string()));
    }
    assert_eq!(country_from_language("en"), None);
    assert_eq!(country_from_language(""), None);
    assert_eq!(country_from_language("NB"), None);
}

#[test]
fn region_subtags_give_the_country_in_upper_case() {
    assert_eq!(country_from_language("en-us"), Some("US".to_string()));
    assert_eq!(country_from_language("sr-latn-rs"), Some("RS".to_string()));
    assert_eq!(country_from_language("de-straße"), Some("STRASSE".to_string()));
    assert_eq!(country_from_language("a-b-c-d"), None);
    assert_eq!(country_from_language("en-"), Some("".to_string()));
}

#[test]
fn first_tag_with_a_country_decides() {
    let tags = |v: &[&str]| v.iter().map(|s| s.to_string()).collect::<Vec<_>>();
    assert_eq!(country_from_languages(&tags(&["en", "fr-ca", "sv"])), Some("CA".to_string()));
    assert_eq!(country_from_languages(&tags(&["sv", "fr-ca"])), Some("SE".to_string()));
    assert_eq!(country_from_languages(&tags(&["en", "de"])), None);
    assert_eq!(country_from_languages(&[]), None);
}
