use aderyn_core::ast::{AstNode, NodeKind, SourceLocation};
use aderyn_core::centralization_risk::CentralizationRiskDetector;
use aderyn_core::context::WorkspaceContext;
use aderyn_core::delegate_call_in_loop::DelegateCallInLoopDetector;
use aderyn_core::detector::{IssueDetector, IssueSeverity};
use aderyn_core::weird_erc20_not_handled::WeirdErc20NotHandledDetector;

fn node(id: u64, kind: NodeKind, name: &str, line: usize, children: Vec<AstNode>) -> AstNode {
    AstNode {
        id,
        kind,
        name: name.to_string(),
        src: SourceLocation { offset: line * 10, length: 5, line },
        children,
    }
}

fn admin_contract() -> WorkspaceContext {
    let unit = node(
        1,
        NodeKind::SourceUnit,
        "src/AdminContract.sol",
        1,
        vec![
            node(2, NodeKind::ImportDirective, "@openzeppelin/contracts/access/Ownable.sol", 3, vec![]),
            node(
                3,
                NodeKind::ContractDefinition,
                "AdminContract",
                6,
                vec![
                    node(4, NodeKind::InheritanceSpecifier, "Ownable", 6, vec![]),
                    node(
                        5,
                        NodeKind::FunctionDefinition,
                        "setOwner",
                        10,
                        vec![node(6, NodeKind::ModifierInvocation, "onlyOwner", 10, vec![])],
                    ),
                    node(
                        7,
                        NodeKind::FunctionDefinition,
                        "someOtherImportantThing",
                        14,
                        vec![node(8, NodeKind::ModifierInvocation, "onlyOwner", 14, vec![])],
                    ),
                    node(9, NodeKind::FunctionDefinition, "harmless", 18, vec![]),
                ],
            ),
        ],
    );
    WorkspaceContext::build(&vec![unit])
}

fn extended_inheritance() -> WorkspaceContext {
    let unit = node(
        100,
        NodeKind::SourceUnit,
        "src/inheritance/ExtendedInheritance.sol",
        1,
        vec![node(
            101,
            NodeKind::ContractDefinition,
            "ExtendedInheritance",
            6,
            vec![node(
                102,
                NodeKind::FunctionDefinition,
                "doSomethingElse",
                12,
                vec![
                    node(
                        103,
                        NodeKind::ForStatement,
                        "",
                        13,
                        vec![node(
                            104,
                            NodeKind::MemberAccess,
                            "delegatecall",
                            14,
                            vec![node(105, NodeKind::Identifier, "target", 14, vec![])],
                        )],
                    ),
                    node(106, NodeKind::MemberAccess, "delegatecall", 16, vec![]),
                ],
            )],
        )],
    );
    WorkspaceContext::build(&vec![unit])
}

#[test]
fn test_centralization_risk_detector() {
    let context = admin_contract();
    let mut detector = CentralizationRiskDetector::new();
    let found = detector.detect(&context).unwrap();
    // assert that the detector found a centralization risk
    assert!(found);
    // assert that the number of instances found is 3
    assert_eq!(detector.instances().len(), 3);
    // assert that the severity is medium
    assert_eq!(detector.severity(), IssueSeverity::Medium);
    // assert that the title is correct
    assert_eq!(detector.title(), String::from("Centralization Risk for trusted owners"));
    // assert that the description is correct
    assert_eq!(
        detector.description(),
        String::from(
            "Contracts have owners with privileged rights to perform admin tasks and need to be trusted to not perform malicious updates or drain funds."
        )
    );
}

#[test]
fn test_delegate_call_in_loop_detector() {
    let context = extended_inheritance();
    let mut detector = DelegateCallInLoopDetector::new();
    let found = detector.detect(&context).unwrap();
    // assert that the detector found a delegate call in a loop
    assert!(found);
    // assert that the detector found the correct number of instances (1)
    assert_eq!(detector.instances().len(), 1);
    // assert the severity is high
    assert_eq!(detector.severity(), IssueSeverity::High);
    // assert the title is correct
    assert_eq!(detector.title(), String::from("Using `delegatecall` in loop"));
    // assert the description is correct
    assert_eq!(
        detector.description(),
        String::from(
            "When calling `delegatecall` the same `msg.value` amount will be accredited multiple times."
        )
    );
}

#[test]
fn centralization_instances_are_located_and_ordered() {
    let context = admin_contract();
    let mut detector = CentralizationRiskDetector::new();
    detector.detect(&context).unwrap();
    let found: Vec<(String, usize, u64)> =
        detector.instances().into_iter().map(|i| (i.file, i.line, i.node)).collect();
    assert_eq!(
        found,
        vec![
            ("src/AdminContract.sol".to_string(), 6, 4),
            ("src/AdminContract.sol".to_string(), 10, 6),
            ("src/AdminContract.sol".to_string(), 14, 8),
        ]
    );
}

#[test]
fn role_modifiers_and_auth_count_as_privileged() {
    let unit = node(
        1,
        NodeKind::SourceUnit,
        "a.sol",
        1,
        vec![
            node(2, NodeKind::ModifierInvocation, "onlyRoleAdmin", 4, vec![]),
            node(3, NodeKind::ModifierInvocation, "requiresAuth", 5, vec![]),
            node(4, NodeKind::ModifierInvocation, "nonReentrant", 6, vec![]),
            node(5, NodeKind::InheritanceSpecifier, "ERC20", 2, vec![]),
        ],
    );
    let context = WorkspaceContext::build(&vec![unit]);
    let mut detector = CentralizationRiskDetector::new();
    assert!(detector.detect(&context).unwrap());
    let lines: Vec<usize> = detector.instances().iter().map(|i| i.line).collect();
    assert_eq!(lines, vec![4, 5]);
}

#[test]
fn no_privileged_code_means_not_found() {
    let unit = node(1, NodeKind::SourceUnit, "a.sol", 1, vec![node(2, NodeKind::ModifierInvocation, "nonReentrant", 3, vec![])]);
    let context = WorkspaceContext::build(&vec![unit]);
    let mut detector = CentralizationRiskDetector::new();
    assert!(!detector.detect(&context).unwrap());
    assert!(detector.instances().is_empty());
}

#[test]
fn same_line_captures_keep_the_last_node() {
    let unit = node(
        1,
        NodeKind::SourceUnit,
        "a.sol",
        1,
        vec![node(
            2,
            NodeKind::WhileStatement,
            "",
            3,
            vec![
                node(3, NodeKind::MemberAccess, "delegatecall", 4, vec![]),
                node(4, NodeKind::MemberAccess, "delegatecall", 4, vec![]),
                node(5, NodeKind::MemberAccess, "call", 5, vec![]),
            ],
        )],
    );
    let context = WorkspaceContext::build(&vec![unit]);
    let mut detector = DelegateCallInLoopDetector::new();
    assert!(detector.detect(&context).unwrap());
    let found: Vec<(usize, u64)> = detector.instances().iter().map(|i| (i.line, i.node)).collect();
    assert_eq!(found, vec![(4, 4)]);
}

#[test]
fn instances_order_by_file_then_line() {
    let unit_b = node(
        10,
        NodeKind::SourceUnit,
        "b.sol",
        1,
        vec![node(11, NodeKind::ForStatement, "", 2, vec![node(12, NodeKind::MemberAccess, "delegatecall", 2, vec![])])],
    );
    let unit_a = node(
        20,
        NodeKind::SourceUnit,
        "a.sol",
        1,
        vec![node(
            21,
            NodeKind::ForStatement,
            "",
            3,
            vec![
                node(22, NodeKind::MemberAccess, "delegatecall", 9, vec![]),
                node(23, NodeKind::MemberAccess, "delegatecall", 4, vec![]),
            ],
        )],
    );
    let context = WorkspaceContext::build(&vec![unit_b, unit_a]);
    let mut detector = DelegateCallInLoopDetector::new();
    detector.detect(&context).unwrap();
    let found: Vec<(String, usize)> = detector.instances().into_iter().map(|i| (i.file, i.line)).collect();
    assert_eq!(
        found,
        vec![("a.sol".to_string(), 4), ("a.sol".to_string(), 9), ("b.sol".to_string(), 2)]
    );
}

#[test]
fn detect_twice_gives_the_same_instances() {
    let context = admin_contract();
    let mut detector = CentralizationRiskDetector::new();
    detector.detect(&context).unwrap();
    let first: Vec<(String, usize, u64)> =
        detector.instances().into_iter().map(|i| (i.file, i.line, i.node)).collect();
    detector.detect(&context).unwrap();
    let second: Vec<(String, usize, u64)> =
        detector.instances().into_iter().map(|i| (i.file, i.line, i.node)).collect();
    assert_eq!(first, second);
}

#[test]
fn weird_erc20_flags_mint_only_under_openzeppelin_import() {
    let with_import = node(
        1,
        NodeKind::SourceUnit,
        "token.sol",
        1,
        vec![
            node(2, NodeKind::ImportDirective, "lib/openzeppelin-contracts/token/ERC20.sol", 2, vec![]),
            node(3, NodeKind::Identifier, "_mint", 8, vec![]),
            node(4, NodeKind::Identifier, "_burn", 9, vec![]),
        ],
    );
    let without_import = node(
        5,
        NodeKind::SourceUnit,
        "other.sol",
        1,
        vec![node(6, NodeKind::Identifier, "_mint", 4, vec![])],
    );
    let context = WorkspaceContext::build(&vec![with_import, without_import]);
    let mut detector = WeirdErc20NotHandledDetector::new();
    assert!(detector.detect(&context).unwrap());
    let found: Vec<(String, usize, u64)> =
        detector.instances().into_iter().map(|i| (i.file, i.line, i.node)).collect();
    assert_eq!(found, vec![("token.sol".to_string(), 8, 3)]);
    assert_eq!(detector.severity(), IssueSeverity::NC);
    assert_eq!(detector.name(), "WeirdErc20NotHandledDetector");
}

#[test]
fn severity_labels() {
    assert_eq!(IssueSeverity::NC.label(), "NC (Non Critical)");
    assert_eq!(IssueSeverity::Low.label(), "Low");
    assert_eq!(IssueSeverity::Medium.label(), "Medium");
    assert_eq!(IssueSeverity::High.label(), "High");
    assert_eq!(IssueSeverity::Critical.label(), "Critical");
    assert_eq!(IssueSeverity::COUNT, 5);
}
