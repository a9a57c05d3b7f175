use webspec_fetch::merge::merge_parsed_specs;
use webspec_fetch::model::{
    ParsedIdlDefinition, ParsedReference, ParsedSection, ParsedSpec, SectionType,
};

fn section(anchor: &str, title: &str) -> ParsedSection {
    ParsedSection {
        anchor: anchor.into(),
        title: Some(title.into()),
        content_text: None,
        section_type: SectionType::Heading,
        parent_anchor: None,
        prev_anchor: None,
        next_anchor: None,
        depth: Some(2),
    }
}

fn reference(from: &str) -> ParsedReference {
    ParsedReference {
        from_anchor: from.into(),
        to_spec: "DOM".into(),
        to_anchor: "concept-tree".into(),
    }
}

fn page(sections: Vec<ParsedSection>) -> ParsedSpec {
    ParsedSpec {
        sections,
        references: vec![],
        idl_definitions: vec![],
    }
}

fn titles(spec: &ParsedSpec) -> Vec<&str> {
    spec.sections.iter().map(|s| s.title.as_deref().unwrap()).collect()
}

#[test]
fn test_merge_parsed_specs() {
    let spec_a = ParsedSpec {
        sections: vec![ParsedSection {
            anchor: "sec-a".into(),
            title: Some("A".into()),
            content_text: None,
            section_type: SectionType::Heading,
            parent_anchor: None,
            prev_anchor: None,
            next_anchor: None,
            depth: Some(2),
        }],
        references: vec![],
        idl_definitions: vec![],
    };
    let spec_b = ParsedSpec {
        sections: vec![ParsedSection {
            anchor: "sec-b".into(),
            title: Some("B".into()),
            content_text: None,
            section_type: SectionType::Heading,
            parent_anchor: None,
            prev_anchor: None,
            next_anchor: None,
            depth: Some(2),
        }],
        references: vec![ParsedReference {
            from_anchor: "sec-b".into(),
            to_spec: "DOM".into(),
            to_anchor: "concept-tree".into(),
        }],
        idl_definitions: vec![],
    };

    let merged = merge_parsed_specs(vec![spec_a, spec_b]);
    assert_eq!(merged.sections.len(), 2);
    assert_eq!(merged.references.len(), 1);
}

#[test]
fn merging_nothing_gives_nothing() {
    let merged = merge_parsed_specs(vec![]);
    assert_eq!(merged.sections.len(), 0);
    assert_eq!(merged.references.len(), 0);
    assert_eq!(merged.idl_definitions.len(), 0);
}

#[test]
fn the_first_section_of_an_anchor_is_kept() {
    let merged = merge_parsed_specs(vec![
        page(vec![section("a", "1"), section("b", "2"), section("a", "3")]),
        page(vec![section("c", "4"), section("b", "5"), section("d", "6")]),
    ]);
    assert_eq!(titles(&merged), ["1", "2", "4", "6"]);
}

#[test]
fn references_and_definitions_are_all_kept() {
    let mut first = page(vec![]);
    first.references = vec![reference("x"), reference("x")];
    let mut second = page(vec![]);
    second.references = vec![reference("x"), reference("y")];
    second.idl_definitions = vec![ParsedIdlDefinition {
        anchor: "n".into(),
        name: "Node".into(),
        kind: "interface".into(),
        text: "interface Node {};".into(),
    }];
    let merged = merge_parsed_specs(vec![first, second]);
    let from: Vec<&str> = merged.references.iter().map(|r| r.from_anchor.as_str()).collect();
    assert_eq!(from, ["x", "x", "x", "y"]);
    assert_eq!(merged.idl_definitions.len(), 1);
    assert_eq!(merged.idl_definitions[0].name, "Node");
}

#[test]
fn merging_in_stages_changes_nothing() {
    let pages = || {
        vec![
            page(vec![section("a", "1"), section("b", "2")]),
            page(vec![section("b", "3"), section("c", "4")]),
            page(vec![section("c", "5"), section("a", "6"), section("d", "7")]),
        ]
    };
    let at_once = merge_parsed_specs(pages());
    let mut rest = pages();
    let tail = rest.split_off(2);
    let mut staged = vec![merge_parsed_specs(rest)];
    staged.extend(tail);
    let in_stages = merge_parsed_specs(staged);
    assert_eq!(titles(&at_once), titles(&in_stages));
    assert_eq!(titles(&at_once), ["1", "2", "4", "7"]);
}

#[test]
fn any_part_may_be_merged_first() {
    let first = || vec![page(vec![section("a", "1")]), page(vec![section("b", "2")])];
    let second = || {
        vec![
            page(vec![section("c", "3"), section("a", "4")]),
            page(vec![section("c", "5"), section("d", "6")]),
        ]
    };
    let expected = ["1", "2", "3", "6"];
    let mut pages = first();
    pages.push(merge_parsed_specs(second()));
    assert_eq!(titles(&merge_parsed_specs(pages)), expected);
    let parts = vec![merge_parsed_specs(first()), merge_parsed_specs(second())];
    assert_eq!(titles(&merge_parsed_specs(parts)), expected);
    let mut pages = first();
    pages.insert(1, merge_parsed_specs(second()));
    assert_eq!(titles(&merge_parsed_specs(pages)), ["1", "3", "6", "2"]);
}

#[test]
fn sections_of_any_page_are_kept() {
    assert!(merge_parsed_specs(vec![page(vec![]), page(vec![])]).sections.is_empty());
    let merged = merge_parsed_specs(vec![page(vec![]), page(vec![section("a", "1")])]);
    assert_eq!(merged.sections.len(), 1);
}
