use wiktparse::headings::promote_headings;
use wiktparse::vocab::{is_word_role, starts_with_etymology};

#[test]
fn promote_shifts_both_levels() {
    assert_eq!(
        promote_headings("<h4>t</h4><h5>u</h5>"),
        "<h3>t</h3><h4>u</h4>".to_string()
    );
}

#[test]
fn promote_handles_close_tags_with_attributes_open() {
    assert_eq!(
        promote_headings("<h5 id=\"x\">y</h5>"),
        "<h4 id=\"x\">y</h4>".to_string()
    );
}

#[test]
fn promote_leaves_other_text_unchanged() {
    assert_eq!(promote_headings(""), "".to_string());
    assert_eq!(promote_headings("<p>h5 and h4</p>"), "<p>h5 and h4</p>".to_string());
    assert_eq!(promote_headings("<h3>top</h3>"), "<h3>top</h3>".to_string());
    assert_eq!(promote_headings("<h6>deep</h6>"), "<h6>deep</h6>".to_string());
}

#[test]
fn promote_output_has_no_h5_tags() {
    let out = promote_headings("<h5>a</h5><h5>b</h5><h4>c</h4>");
    assert_eq!(out, "<h4>a</h4><h4>b</h4><h3>c</h3>");
    assert!(!out.contains("<h5"));
    assert!(!out.contains("</h5"));
}

#[test]
fn promote_keeps_multibyte_text() {
    assert_eq!(
        promote_headings("ñ<h5>qué</h5>é"),
        "ñ<h4>qué</h4>é".to_string()
    );
}

#[test]
fn promote_lone_angle_brackets() {
    assert_eq!(promote_headings("<<h5>"), "<<h4>".to_string());
    assert_eq!(promote_headings("<h"), "<h".to_string());
    assert_eq!(promote_headings("</h"), "</h".to_string());
}

#[test]
fn all_eleven_roles_are_recognized() {
    let roles = [
        "Noun",
        "Verb",
        "Adjective",
        "Adverb",
        "Pronoun",
        "Preposition",
        "Conjunction",
        "Interjection",
        "Determiner",
        "Article",
        "Participle",
    ];
    for r in roles {
        assert!(is_word_role(&r.to_string()), "{} should be a word role", r);
    }
}

#[test]
fn role_match_is_exact() {
    assert!(!is_word_role(&"noun".to_string()));
    assert!(!is_word_role(&"Nouns".to_string()));
    assert!(!is_word_role(&"Noun ".to_string()));
    assert!(!is_word_role(&"".to_string()));
}

#[test]
fn etymology_prefix_is_exact() {
    assert!(starts_with_etymology(&"Etymology 1".to_string()));
    assert!(starts_with_etymology(&"Etymology 12".to_string()));
    assert!(starts_with_etymology(&"Etymology  ".to_string()));
    assert!(!starts_with_etymology(&"Etymology".to_string()));
    assert!(!starts_with_etymology(&"etymology 1".to_string()));
    assert!(!starts_with_etymology(&"EtymologyX".to_string()));
    assert!(!starts_with_etymology(&"The Etymology 1".to_string()));
}
