use consensus_sim::proof_of_authority;
use consensus_sim::quorum;
use consensus_sim::registry::{Authority, Node, ValidatorRegistry};
use consensus_sim::strategy::ConsensusError;

fn health(flags: &[(&str, bool)]) -> ValidatorRegistry {
    let mut registry = ValidatorRegistry::new();
    for (name, is_faulty) in flags {
        registry.register(Node::with_health(name, *is_faulty));
    }
    registry
}

#[test]
fn first_approved_authority_is_selected() {
    let mut registry = ValidatorRegistry::new();
    registry.register(Node::new("Zed", 99));
    registry.register(Authority { name: String::from("Eve"), approved: false }.into_node());
    registry.register(Authority::new("Alice").into_node());
    registry.register(Authority::new("Bob").into_node());
    assert_eq!(proof_of_authority::first_authority(&registry), Some(2));
    assert_eq!(proof_of_authority::select_producer(&registry), Ok(String::from("Alice")));
}

#[test]
fn no_approved_authority() {
    let mut registry = ValidatorRegistry::new();
    assert_eq!(
        proof_of_authority::select_producer(&registry),
        Err(ConsensusError::NoApprovedAuthority)
    );
    registry.register(Node::new("Zed", 99));
    registry.register(Authority { name: String::from("Eve"), approved: false }.into_node());
    assert_eq!(proof_of_authority::first_authority(&registry), None);
    assert_eq!(
        proof_of_authority::select_producer(&registry),
        Err(ConsensusError::NoApprovedAuthority)
    );
}

#[test]
fn authority_lost_on_registering_again() {
    let mut registry = ValidatorRegistry::new();
    registry.register(Authority::new("Alice").into_node());
    registry.register(Authority::new("Bob").into_node());
    registry.register(Node::new("Alice", 10));
    assert_eq!(proof_of_authority::select_producer(&registry), Ok(String::from("Bob")));
}

#[test]
fn three_healthy_and_one_faulty_admit() {
    let registry =
        health(&[("Alice", false), ("Bob", false), ("Charlie", true), ("David", false)]);
    assert_eq!(quorum::count_healthy(&registry), 3);
    assert!(quorum::validate("Alice -> Bob: 10 coins", &registry));
}

#[test]
fn one_healthy_and_three_faulty_reject() {
    let registry = health(&[("Alice", false), ("Bob", true), ("Charlie", true), ("David", true)]);
    assert_eq!(quorum::count_healthy(&registry), 1);
    assert!(!quorum::validate("Alice -> Bob: 10 coins", &registry));
}

#[test]
fn half_healthy_is_no_majority() {
    assert!(!quorum::validate("tx", &health(&[("A", false), ("B", true)])));
    let two_of_four = health(&[("A", false), ("B", true), ("C", true), ("D", false)]);
    assert!(!quorum::validate("tx", &two_of_four));
    assert!(quorum::validate("tx", &health(&[("A", false), ("B", true), ("C", false)])));
    assert!(quorum::validate("tx", &health(&[("A", false)])));
}

#[test]
fn empty_registry_has_no_quorum() {
    assert!(!quorum::validate("tx", &ValidatorRegistry::new()));
}

#[test]
fn verdict_does_not_depend_on_the_transaction() {
    let registry = health(&[("A", false), ("B", false), ("C", true)]);
    assert_eq!(quorum::validate("", &registry), quorum::validate("anything", &registry));
}

#[test]
fn admitted_transactions_are_all_or_none() {
    let pending = vec![String::from("t1"), String::from("t2"), String::from("t3")];
    let healthy = health(&[("A", false), ("B", false), ("C", true)]);
    assert_eq!(quorum::admitted_transactions(&pending, &healthy), pending);
    let faulty = health(&[("A", true), ("B", false), ("C", true)]);
    assert!(quorum::admitted_transactions(&pending, &faulty).is_empty());
    assert!(quorum::admitted_transactions(&Vec::new(), &healthy).is_empty());
}

#[test]
fn first_healthy_participant_is_selected() {
    let registry = health(&[("Alice", true), ("Bob", false), ("Charlie", false)]);
    assert_eq!(quorum::first_healthy(&registry), Some(1));
    assert_eq!(quorum::select_producer(&registry), "Bob");
}

#[test]
fn system_produces_where_everyone_is_faulty() {
    let registry = health(&[("Alice", true), ("Bob", true)]);
    assert_eq!(quorum::first_healthy(&registry), None);
    assert_eq!(quorum::select_producer(&registry), "System");
    assert_eq!(quorum::select_producer(&ValidatorRegistry::new()), "System");
}
