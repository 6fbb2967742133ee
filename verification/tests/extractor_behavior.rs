use wiktparse::dom::{get_first_child_text, Document, Element, Node};
use wiktparse::extract::{
    parse_wiktionary, parse_wiktionary_layout1, parse_wiktionary_layout2, MalformedInput,
};
use wiktparse::lookup::{lookup_outcome, LookupResult};

fn elem(anchor: Option<&str>, markup: &str, children: Vec<Node>) -> Node {
    Node::Element(Element {
        anchor: anchor.map(|a| a.to_string()),
        markup: markup.to_string(),
        children,
    })
}

fn text(s: &str) -> Node {
    Node::Text(s.to_string())
}

/// A heading element whose first child is the title text.
fn heading(title: &str) -> Node {
    elem(None, title, vec![text(title)])
}

/// A section whose heading token is `title` and whose inner markup is `markup`.
fn section(title: &str, markup: &str) -> Node {
    elem(None, markup, vec![heading(title)])
}

/// The anchor element that identifies the Spanish block.
fn spanish_anchor() -> Node {
    elem(Some("Spanish"), "Spanish", vec![text("Spanish")])
}

/// A top-level section whose first child carries the "Spanish" anchor.
fn spanish_block(mut sections: Vec<Node>) -> Node {
    let mut children = vec![spanish_anchor()];
    children.append(&mut sections);
    elem(None, "", children)
}

fn doc(body: Vec<Node>) -> Document {
    Document { body }
}

#[test]
fn layout1_two_sections_in_order() {
    // Body has one child with anchor "Spanish" containing two children headed
    // "Noun" and "Verb": the dispatcher returns both fragments in that order.
    let d = doc(vec![spanish_block(vec![
        section("Noun", "<h3>Noun</h3><p>a noun</p>"),
        section("Verb", "<h3>Verb</h3><p>a verb</p>"),
    ])]);
    assert_eq!(
        parse_wiktionary(&d),
        Ok(Some(vec![
            "<h3>Noun</h3><p>a noun</p>".to_string(),
            "<h3>Verb</h3><p>a verb</p>".to_string(),
        ]))
    );
}

#[test]
fn layout2_sole_etymology_promotes_h5() {
    // A Spanish block whose sole child is headed "Etymology 1", containing one
    // child headed "Adjective" with an inner <h5> tag: the fragment comes back
    // with the <h5> promoted to <h4>.
    let d = doc(vec![spanish_block(vec![elem(
        None,
        "",
        vec![
            heading("Etymology 1"),
            section("Adjective", "<h5>Adjective</h5><p>large</p>"),
        ],
    )])]);
    assert_eq!(
        parse_wiktionary(&d),
        Ok(Some(vec!["<h4>Adjective</h4><p>large</p>".to_string()]))
    );
}

#[test]
fn layout2_verb_and_noun_in_document_order() {
    // "Etymology 1" followed by nested "Verb" and "Noun" sections yields two
    // fragments, Verb before Noun, each with heading tags shifted up a level.
    let d = doc(vec![spanish_block(vec![elem(
        None,
        "",
        vec![
            heading("Etymology 1"),
            section("Verb", "<h4>Verb</h4><p>to run</p>"),
            section("Noun", "<h5>Noun</h5><p>a run</p>"),
        ],
    )])]);
    assert_eq!(
        parse_wiktionary(&d),
        Ok(Some(vec![
            "<h3>Verb</h3><p>to run</p>".to_string(),
            "<h4>Noun</h4><p>a run</p>".to_string(),
        ]))
    );
}

#[test]
fn no_spanish_section_is_not_found() {
    // No section carries the "Spanish" anchor: both extractors yield nothing
    // and the dispatcher reports not-found.
    let d = doc(vec![
        elem(Some("English"), "", vec![elem(Some("English"), "English", vec![text("English")])]),
        section("Noun", "<p>english noun</p>"),
    ]);
    assert_eq!(parse_wiktionary_layout1(&d), Ok(None));
    assert_eq!(parse_wiktionary_layout2(&d), Ok(None));
    assert_eq!(parse_wiktionary(&d), Ok(None));
}

#[test]
fn empty_body_is_not_found() {
    let d = doc(vec![]);
    assert_eq!(parse_wiktionary(&d), Ok(None));
}

#[test]
fn heading_match_is_case_sensitive() {
    // A section headed "noun" (lowercase) is never extracted; "Noun" is.
    let lower = doc(vec![spanish_block(vec![section("noun", "<p>skipped</p>")])]);
    assert_eq!(parse_wiktionary_layout1(&lower), Ok(None));
    let upper = doc(vec![spanish_block(vec![section("Noun", "<p>kept</p>")])]);
    assert_eq!(
        parse_wiktionary_layout1(&upper),
        Ok(Some(vec!["<p>kept</p>".to_string()]))
    );
}

#[test]
fn heading_match_is_case_sensitive_under_etymology() {
    // The same exactness holds one level down, under an Etymology section.
    let lower = doc(vec![spanish_block(vec![elem(
        None,
        "",
        vec![heading("Etymology 1"), section("verb", "<p>skipped</p>")],
    )])]);
    assert_eq!(parse_wiktionary(&lower), Ok(None));
    let upper = doc(vec![spanish_block(vec![elem(
        None,
        "",
        vec![heading("Etymology 1"), section("Verb", "<p>kept</p>")],
    )])]);
    assert_eq!(
        parse_wiktionary(&upper),
        Ok(Some(vec!["<p>kept</p>".to_string()]))
    );
}

#[test]
fn spanish_anchor_must_be_first_child() {
    // Only a section whose *first* child carries the anchor is examined.
    let d = doc(vec![elem(
        None,
        "",
        vec![
            text("filler"),
            spanish_anchor(),
            section("Noun", "<p>a noun</p>"),
        ],
    )]);
    assert_eq!(parse_wiktionary(&d), Ok(None));
}

#[test]
fn multiple_spanish_blocks_concatenate_in_order() {
    let d = doc(vec![
        spanish_block(vec![section("Noun", "<p>first</p>")]),
        section("Verb", "<p>between, no anchor</p>"),
        spanish_block(vec![section("Verb", "<p>second</p>")]),
    ]);
    assert_eq!(
        parse_wiktionary(&d),
        Ok(Some(vec!["<p>first</p>".to_string(), "<p>second</p>".to_string()]))
    );
}

#[test]
fn layout1_preferred_over_layout2() {
    // When the Spanish block holds both a direct part-of-speech section and an
    // Etymology section, Layout-1's result wins and no promotion happens.
    let d = doc(vec![spanish_block(vec![
        section("Noun", "<h4>Noun</h4><p>direct</p>"),
        elem(
            None,
            "",
            vec![
                heading("Etymology 1"),
                section("Verb", "<h4>Verb</h4><p>nested</p>"),
            ],
        ),
    ])]);
    assert_eq!(
        parse_wiktionary(&d),
        Ok(Some(vec!["<h4>Noun</h4><p>direct</p>".to_string()]))
    );
}

#[test]
fn layout2_requires_etymology_prefix() {
    // A Spanish-block child not headed "Etymology " is skipped entirely:
    // Layout-2 does not treat it as a direct part-of-speech section.
    let d = doc(vec![spanish_block(vec![
        elem(
            None,
            "",
            vec![heading("History 1"), section("Noun", "<p>skipped</p>")],
        ),
        elem(
            None,
            "",
            vec![heading("etymology 1"), section("Verb", "<p>skipped too</p>")],
        ),
        elem(
            None,
            "",
            vec![heading("EtymologyX"), section("Verb", "<p>no space</p>")],
        ),
    ])]);
    assert_eq!(parse_wiktionary(&d), Ok(None));
}

#[test]
fn matched_section_without_markup_is_malformed() {
    // A matched part-of-speech node that is not an element cannot be rendered
    // back to markup: a hard failure, not a silent miss.
    let d = doc(vec![spanish_block(vec![Node::Opaque(vec![heading("Noun")])])]);
    assert_eq!(parse_wiktionary_layout1(&d), Err(MalformedInput));
    assert_eq!(parse_wiktionary(&d), Err(MalformedInput));
}

#[test]
fn layout2_malformed_under_etymology() {
    let d = doc(vec![spanish_block(vec![elem(
        None,
        "",
        vec![heading("Etymology 1"), Node::Opaque(vec![heading("Verb")])],
    )])]);
    // Layout-1 finds nothing (the Etymology child is not a role section), so
    // the dispatcher falls through to Layout-2, which fails.
    assert_eq!(parse_wiktionary_layout1(&d), Ok(None));
    assert_eq!(parse_wiktionary(&d), Err(MalformedInput));
}

#[test]
fn lookup_success_found() {
    let d = doc(vec![spanish_block(vec![section("Noun", "<p>a noun</p>")])]);
    match lookup_outcome(200, Some(&d)) {
        Ok(LookupResult::Found(v)) => assert_eq!(v, vec!["<p>a noun</p>".to_string()]),
        other => panic!("expected Found, got {:?}", other),
    }
}

#[test]
fn lookup_success_not_found() {
    let d = doc(vec![section("Noun", "<p>no anchor</p>")]);
    match lookup_outcome(200, Some(&d)) {
        Ok(LookupResult::NotFound) => {}
        other => panic!("expected NotFound, got {:?}", other),
    }
}

#[test]
fn lookup_404_maps_to_not_found_without_parsing() {
    match lookup_outcome(404, None) {
        Ok(LookupResult::NotFound) => {}
        other => panic!("expected NotFound, got {:?}", other),
    }
}

#[test]
fn lookup_other_status_is_upstream_error() {
    match lookup_outcome(500, None) {
        Ok(LookupResult::UpstreamError) => {}
        other => panic!("expected UpstreamError, got {:?}", other),
    }
    match lookup_outcome(301, None) {
        Ok(LookupResult::UpstreamError) => {}
        other => panic!("expected UpstreamError, got {:?}", other),
    }
}

#[test]
fn lookup_malformed_propagates() {
    let d = doc(vec![spanish_block(vec![Node::Opaque(vec![heading("Noun")])])]);
    match lookup_outcome(200, Some(&d)) {
        Err(MalformedInput) => {}
        other => panic!("expected a malformed-input failure, got {:?}", other),
    }
}

#[test]
fn first_child_text_reads_one_level_down() {
    let n = elem(None, "", vec![text("hello")]);
    assert_eq!(get_first_child_text(Some(&n)), Some(&"hello".to_string()));
    let t = text("bare");
    assert_eq!(get_first_child_text(Some(&t)), None);
    assert_eq!(get_first_child_text(None), None);
    let nested = elem(None, "", vec![elem(None, "", vec![text("deep")])]);
    assert_eq!(get_first_child_text(Some(&nested)), None);
}
