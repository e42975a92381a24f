use aderyn_core::ast::NodeKind;
use aderyn_core::context::WorkspaceContext;
use aderyn_core::detector::IssueSeverity;
use aderyn_core::engine::Issue;
use aderyn_core::ingest::{ingest, line_at, parse_location, IngestionError, RawNode};
use aderyn_core::markdown::{decimal, slug_from_lowered, title_slug, MarkdownReportPrinter};
use aderyn_core::report::aggregate;

fn raw(node_type: &str, id: Option<u64>, src: &str, children: Vec<RawNode>) -> RawNode {
    RawNode {
        node_type: node_type.to_string(),
        id,
        src: Some(src.to_string()),
        name: None,
        member_name: None,
        absolute_path: None,
        base_name: None,
        modifier_name: None,
        children,
    }
}

#[test]
fn locations_parse_offset_and_length() {
    assert_eq!(parse_location("12:34:0"), Some((12, 34)));
    assert_eq!(parse_location("0:7"), Some((0, 7)));
    assert_eq!(parse_location("5:6:-1"), Some((5, 6)));
    assert_eq!(parse_location("12"), None);
    assert_eq!(parse_location(":3:0"), None);
    assert_eq!(parse_location("1::0"), None);
    assert_eq!(parse_location("a:3:0"), None);
    assert_eq!(parse_location("99999999999999999999999:1:0"), None);
}

#[test]
fn lines_count_newlines_before_the_offset() {
    let text = b"ab\ncd\n\nef";
    assert_eq!(line_at(text, 0), 1);
    assert_eq!(line_at(text, 3), 2);
    assert_eq!(line_at(text, 7), 4);
    assert_eq!(line_at(text, 100), 4);
}

#[test]
fn node_types_map_to_kinds() {
    assert_eq!(NodeKind::from_node_type("MemberAccess"), NodeKind::MemberAccess);
    assert_eq!(NodeKind::from_node_type("SourceUnit"), NodeKind::SourceUnit);
    assert_eq!(NodeKind::from_node_type("BinaryOperation"), NodeKind::Other);
}

#[test]
fn ingestion_builds_the_typed_tree() {
    let source = "pragma solidity ^0.8.0;\ncontract A {\n  function f() public { x.delegatecall(\"\"); }\n}\n";
    let mut access = raw("MemberAccess", Some(3), "62:14:0", vec![]);
    access.member_name = Some("delegatecall".to_string());
    let mut contract = raw("ContractDefinition", Some(2), "24:60:0", vec![access]);
    contract.name = Some("A".to_string());
    let mut unit = raw("SourceUnit", Some(1), "0:85:0", vec![contract]);
    unit.absolute_path = Some("src/A.sol".to_string());
    let node = ingest(&unit, source.as_bytes()).unwrap();
    assert_eq!(node.kind, NodeKind::SourceUnit);
    assert_eq!(node.name, "src/A.sol");
    assert_eq!(node.children[0].name, "A");
    assert_eq!(node.children[0].src.line, 2);
    let inner = &node.children[0].children[0];
    assert_eq!((inner.id, inner.name.as_str(), inner.src.offset, inner.src.length, inner.src.line), (3, "delegatecall", 62, 14, 3));
    let context = WorkspaceContext::build(&vec![node]);
    assert_eq!(context.member_accesses, vec![2]);
}

#[test]
fn ingestion_reports_the_first_fault() {
    let mut unit = raw("SourceUnit", Some(1), "0:10:0", vec![raw("Block", None, "0:1:0", vec![])]);
    unit.absolute_path = Some("a.sol".to_string());
    assert_eq!(ingest(&unit, b"").unwrap_err(), IngestionError::MissingId);
    let unit = raw("SourceUnit", Some(1), "0:10:0", vec![]);
    assert_eq!(ingest(&unit, b"").unwrap_err(), IngestionError::MissingName);
    let mut unit = raw("Block", Some(1), "zero:10:0", vec![]);
    assert_eq!(ingest(&unit, b"").unwrap_err(), IngestionError::MalformedLocation);
    unit.src = None;
    assert_eq!(ingest(&unit, b"").unwrap_err(), IngestionError::MalformedLocation);
}

#[test]
fn decimals_and_slugs() {
    assert_eq!(decimal(0), "0");
    assert_eq!(decimal(7), "7");
    assert_eq!(decimal(1234), "1234");
    assert_eq!(slug_from_lowered("using `delegatecall` in loop"), "using-delegatecall-in-loop");
    assert_eq!(slug_from_lowered("a-b c!"), "a-b-c");
    assert_eq!(title_slug("Centralization Risk for trusted owners"), "centralization-risk-for-trusted-owners");
    assert_eq!(title_slug("Using `delegatecall` in Loop"), "using-delegatecall-in-loop");
}

fn issue(title: &str, severity: IssueSeverity) -> Issue {
    Issue {
        detector_name: "d".to_string(),
        title: title.to_string(),
        description: String::new(),
        severity,
        instances: vec![],
    }
}

#[test]
fn table_of_contents_lists_each_nonempty_severity() {
    let report = aggregate(vec![
        issue("Using `delegatecall` in loop", IssueSeverity::High),
        issue("Centralization Risk for trusted owners", IssueSeverity::Medium),
        issue("Second High", IssueSeverity::High),
    ]);
    let toc = MarkdownReportPrinter.print_table_of_contents(&report);
    let expected = "# Table of Contents\n\n\
- [Summary](#summary)\n  - [Files Summary](#files-summary)\n  - [Files Details](#files-details)\n  - [Issue Summary](#issue-summary)\n\
- [High Issues](#high-issues)\n  - [H-1: Using `delegatecall` in loop](#H-1-using-delegatecall-in-loop)\n  - [H-2: Second High](#H-2-second-high)\n\
- [Medium Issues](#medium-issues)\n  - [M-1: Centralization Risk for trusted owners](#M-1-centralization-risk-for-trusted-owners)\n\n\n";
    assert_eq!(toc, expected);
}

#[test]
fn title_and_disclaimer_text() {
    let text = MarkdownReportPrinter.print_title_and_disclaimer();
    assert!(text.starts_with("# Aderyn Analysis Report\n\nThis report was generated by [Aderyn]"));
    assert!(text.ends_with("potential security vulnerabilities.\n"));
}
