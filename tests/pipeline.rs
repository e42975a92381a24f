use aderyn_core::ast::{AstNode, NodeKind, SourceLocation};
use aderyn_core::context::WorkspaceContext;
use aderyn_core::detector::{IssueDetector, IssueDetectorNamePool, IssueSeverity};
use aderyn_core::engine::{collect_results, execute, trigger_events, DetectionStatus, DetectorOutcome, Issue};
use aderyn_core::instances::Instance;
use aderyn_core::registry::{
    get_all_detectors_names, get_all_issue_detectors, get_issue_detector_by_name, BuiltinDetector,
};
use aderyn_core::report::aggregate;

fn node(id: u64, kind: NodeKind, name: &str, line: usize, children: Vec<AstNode>) -> AstNode {
    AstNode {
        id,
        kind,
        name: name.to_string(),
        src: SourceLocation { offset: line * 10, length: 5, line },
        children,
    }
}

fn sample_units() -> Vec<AstNode> {
    vec![
        node(
            1,
            NodeKind::SourceUnit,
            "a.sol",
            1,
            vec![node(
                2,
                NodeKind::ContractDefinition,
                "A",
                3,
                vec![
                    node(3, NodeKind::InheritanceSpecifier, "Ownable", 3, vec![]),
                    node(
                        4,
                        NodeKind::ForStatement,
                        "",
                        5,
                        vec![node(5, NodeKind::MemberAccess, "delegatecall", 6, vec![])],
                    ),
                ],
            )],
        ),
        node(
            10,
            NodeKind::SourceUnit,
            "b.sol",
            1,
            vec![
                node(11, NodeKind::ImportDirective, "x.sol", 2, vec![]),
                node(12, NodeKind::Identifier, "foo", 4, vec![]),
            ],
        ),
    ]
}

#[test]
fn build_indexes_every_node_once_in_preorder() {
    let context = WorkspaceContext::build(&sample_units());
    let ids: Vec<u64> = context.nodes.iter().map(|n| n.id).collect();
    assert_eq!(ids, vec![1, 2, 3, 4, 5, 10, 11, 12]);
    assert_eq!(context.source_units, vec![0, 5]);
    assert_eq!(context.contract_definitions, vec![1]);
    assert_eq!(context.inheritance_specifiers, vec![2]);
    assert_eq!(context.for_statements, vec![3]);
    assert_eq!(context.member_accesses, vec![4]);
    assert_eq!(context.import_directives, vec![6]);
    assert_eq!(context.identifiers, vec![7]);
    assert!(context.while_statements.is_empty());
    assert!(context.modifier_invocations.is_empty());
}

#[test]
fn parents_enclose_their_children() {
    let context = WorkspaceContext::build(&sample_units());
    let parents: Vec<Option<usize>> = (0..context.nodes.len()).map(|p| context.parent_of(p)).collect();
    assert_eq!(parents, vec![None, Some(0), Some(1), Some(1), Some(3), None, Some(5), Some(5)]);
    for (j, n) in context.nodes.iter().enumerate() {
        if let Some(p) = n.parent {
            assert!(p < j && j < context.nodes[p].end);
        }
    }
    let ends: Vec<usize> = context.nodes.iter().map(|n| n.end).collect();
    assert_eq!(ends, vec![5, 5, 3, 5, 5, 8, 7, 8]);
    assert_eq!(context.file_of(4), "a.sol");
    assert_eq!(context.file_of(7), "b.sol");
}

#[test]
fn building_twice_gives_the_same_indices() {
    let a = WorkspaceContext::build(&sample_units());
    let b = WorkspaceContext::build(&sample_units());
    let ids = |c: &WorkspaceContext| c.nodes.iter().map(|n| n.id).collect::<Vec<u64>>();
    assert_eq!(ids(&a), ids(&b));
    assert_eq!(a.identifiers, b.identifiers);
    assert_eq!(a.member_accesses, b.member_accesses);
    assert_eq!(a.inheritance_specifiers, b.inheritance_specifiers);
}

#[test]
fn subtree_extraction_stays_inside_the_root() {
    let context = WorkspaceContext::build(&sample_units());
    assert_eq!(context.extract_of_kind(1, NodeKind::MemberAccess), vec![4]);
    assert_eq!(context.extract_of_kind(0, NodeKind::Identifier), Vec::<usize>::new());
    assert_eq!(context.extract_of_kind(5, NodeKind::Identifier), vec![7]);
}

#[test]
fn empty_workspace_builds_empty_context() {
    let context = WorkspaceContext::build(&vec![]);
    assert!(context.nodes.is_empty());
    assert!(context.source_units.is_empty());
}

#[test]
fn registry_lists_detectors_by_name() {
    assert_eq!(
        get_all_detectors_names(),
        vec!["delegate-call-in-loop".to_string(), "centralization-risk".to_string()]
    );
    let all = get_all_issue_detectors();
    assert_eq!(all.len(), 2);
    assert_eq!(all[1].name(), "centralization-risk");
    let d = get_issue_detector_by_name("centralization-risk");
    assert_eq!(d.severity(), IssueSeverity::Medium);
    let d = get_issue_detector_by_name("delegate-call-in-loop");
    assert_eq!(d.severity(), IssueSeverity::High);
}

#[test]
fn name_pool_reads_its_own_names_only() {
    assert_eq!(IssueDetectorNamePool::parse("centralization-risk"), Some(IssueDetectorNamePool::CentralizationRisk));
    assert_eq!(IssueDetectorNamePool::parse("undecided"), Some(IssueDetectorNamePool::Undecided));
    assert_eq!(IssueDetectorNamePool::parse("Centralization-Risk"), None);
    assert_eq!(IssueDetectorNamePool::DelegateCallInLoop.as_string(), "delegate-call-in-loop");
}

/// A detector that stands in for one whose pass raises an error.
enum Probe {
    Builtin(BuiltinDetector),
    Broken,
}

impl IssueDetector for Probe {
    fn detect(&mut self, context: &WorkspaceContext) -> Result<bool, String> {
        match self {
            Probe::Builtin(d) => d.detect(context),
            Probe::Broken => Err("pass failed".to_string()),
        }
    }
    fn severity(&self) -> IssueSeverity {
        match self {
            Probe::Builtin(d) => d.severity(),
            Probe::Broken => IssueSeverity::Low,
        }
    }
    fn title(&self) -> String {
        match self {
            Probe::Builtin(d) => d.title(),
            Probe::Broken => "Broken".to_string(),
        }
    }
    fn description(&self) -> String {
        match self {
            Probe::Builtin(d) => d.description(),
            Probe::Broken => "Always fails".to_string(),
        }
    }
    fn name(&self) -> String {
        match self {
            Probe::Builtin(d) => d.name(),
            Probe::Broken => "broken".to_string(),
        }
    }
    fn instances(&self) -> Vec<Instance> {
        match self {
            Probe::Builtin(d) => d.instances(),
            Probe::Broken => vec![],
        }
    }
}

#[test]
fn one_failing_detector_does_not_stop_the_others() {
    let context = WorkspaceContext::build(&sample_units());
    let mut detectors = vec![
        Probe::Builtin(get_issue_detector_by_name("delegate-call-in-loop")),
        Probe::Broken,
        Probe::Builtin(get_issue_detector_by_name("centralization-risk")),
    ];
    let out = execute(&context, &mut detectors);
    let names: Vec<String> = out.results.iter().map(|r| r.detector_name.clone()).collect();
    assert_eq!(names, vec!["delegate-call-in-loop".to_string(), "centralization-risk".to_string()]);
    assert_eq!(out.results[0].instances.len(), 1);
    assert_eq!(out.results[1].instances.len(), 1);
    assert_eq!(out.failures.len(), 1);
    assert_eq!(out.failures[0].detector_name, "broken");
    assert_eq!(out.failures[0].message, "pass failed");
}

#[test]
fn quiet_detectors_yield_no_result() {
    let unit = node(1, NodeKind::SourceUnit, "q.sol", 1, vec![]);
    let context = WorkspaceContext::build(&vec![unit]);
    let mut detectors = get_all_issue_detectors();
    let out = execute(&context, &mut detectors);
    assert!(out.results.is_empty());
    assert!(out.failures.is_empty());
}

fn issue(name: &str, severity: IssueSeverity) -> Issue {
    Issue {
        detector_name: name.to_string(),
        title: format!("{} title", name),
        description: String::new(),
        severity,
        instances: vec![Instance { file: "a.sol".to_string(), line: 1, node: 1 }],
    }
}

#[test]
fn aggregation_buckets_by_severity_in_order() {
    let results = vec![
        issue("m1", IssueSeverity::Medium),
        issue("h1", IssueSeverity::High),
        issue("m2", IssueSeverity::Medium),
        issue("c1", IssueSeverity::Critical),
        issue("n1", IssueSeverity::NC),
    ];
    let report = aggregate(results);
    let names = |v: &Vec<Issue>| v.iter().map(|i| i.detector_name.clone()).collect::<Vec<String>>();
    assert_eq!(names(&report.mediums), vec!["m1".to_string(), "m2".to_string()]);
    assert_eq!(names(&report.highs), vec!["h1".to_string()]);
    assert_eq!(names(&report.criticals), vec!["c1".to_string()]);
    assert_eq!(names(&report.ncs), vec!["n1".to_string()]);
    assert!(report.lows.is_empty());
    let count = report.issue_count();
    assert_eq!((count.critical, count.high, count.medium, count.low, count.nc), (1, 1, 2, 0, 1));
}

#[test]
fn collect_results_keeps_found_and_failed_only() {
    let outcome = |name: &str, status: DetectionStatus| DetectorOutcome {
        name: name.to_string(),
        severity: IssueSeverity::Low,
        title: String::new(),
        description: String::new(),
        instances: vec![],
        status,
    };
    let out = collect_results(vec![
        outcome("a", DetectionStatus::Found),
        outcome("b", DetectionStatus::NotFound),
        outcome("c", DetectionStatus::Failed("boom".to_string())),
        outcome("d", DetectionStatus::Found),
    ]);
    let names: Vec<String> = out.results.iter().map(|r| r.detector_name.clone()).collect();
    assert_eq!(names, vec!["a".to_string(), "d".to_string()]);
    assert_eq!(out.failures.len(), 1);
    assert_eq!(out.failures[0].detector_name, "c");
}

#[test]
fn report_counts_survive_a_json_round_trip() {
    let report = aggregate(vec![
        issue("h1", IssueSeverity::High),
        issue("h2", IssueSeverity::High),
        issue("l1", IssueSeverity::Low),
    ]);
    let count = report.issue_count();
    let mut object = serde_json::Map::new();
    object.insert("critical".to_string(), serde_json::Value::from(count.critical as u64));
    object.insert("high".to_string(), serde_json::Value::from(count.high as u64));
    object.insert("medium".to_string(), serde_json::Value::from(count.medium as u64));
    object.insert("low".to_string(), serde_json::Value::from(count.low as u64));
    object.insert("nc".to_string(), serde_json::Value::from(count.nc as u64));
    let text = serde_json::to_string(&serde_json::Value::Object(object)).unwrap();
    let back: serde_json::Value = serde_json::from_str(&text).unwrap();
    assert_eq!(back["critical"].as_u64(), Some(0));
    assert_eq!(back["high"].as_u64(), Some(2));
    assert_eq!(back["medium"].as_u64(), Some(0));
    assert_eq!(back["low"].as_u64(), Some(1));
    assert_eq!(back["nc"].as_u64(), Some(0));
}

#[test]
fn parent_chain_finds_the_closest_ancestor_of_a_kind() {
    let context = WorkspaceContext::build(&sample_units());
    assert_eq!(context.closest_ancestor_of_kind(4, NodeKind::ContractDefinition), Some(1));
    assert_eq!(context.closest_ancestor_of_kind(4, NodeKind::SourceUnit), Some(0));
    assert_eq!(context.closest_ancestor_of_kind(4, NodeKind::ForStatement), Some(3));
    assert_eq!(context.closest_ancestor_of_kind(7, NodeKind::ContractDefinition), None);
    assert_eq!(context.closest_ancestor_of_kind(0, NodeKind::SourceUnit), None);
}

#[test]
fn each_outcome_gives_one_trigger_event() {
    let outcome = |name: &str, status: DetectionStatus| DetectorOutcome {
        name: name.to_string(),
        severity: IssueSeverity::High,
        title: String::new(),
        description: String::new(),
        instances: vec![],
        status,
    };
    let events = trigger_events(&vec![
        outcome("a", DetectionStatus::Found),
        outcome("b", DetectionStatus::NotFound),
        outcome("c", DetectionStatus::Failed("x".to_string())),
    ]);
    let got: Vec<(String, bool)> = events.into_iter().map(|e| (e.detector_name, e.triggered)).collect();
    assert_eq!(got, vec![("a".to_string(), true), ("b".to_string(), false), ("c".to_string(), false)]);
}
