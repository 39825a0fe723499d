use consensus_sim::proof_of_stake::{pick_by_stake, select_producer, total_stake_of};
use consensus_sim::random::RandomSource;
use consensus_sim::registry::{Node, ValidatorRegistry};
use consensus_sim::strategy::ConsensusError;

fn stakes(entries: &[(&str, u64)]) -> ValidatorRegistry {
    let mut registry = ValidatorRegistry::new();
    for (name, stake) in entries {
        registry.register(Node::new(name, *stake));
    }
    registry
}

#[test]
fn total_stake_is_the_sum() {
    assert_eq!(total_stake_of(&ValidatorRegistry::new()), 0);
    assert_eq!(total_stake_of(&stakes(&[("A", 50), ("B", 30), ("C", 20)])), 100);
}

#[test]
fn total_stake_does_not_overflow() {
    let registry = stakes(&[("A", u64::MAX), ("B", u64::MAX), ("C", 1)]);
    assert_eq!(total_stake_of(&registry), 2 * (u64::MAX as u128) + 1);
}

#[test]
fn pick_walks_the_entries_in_order() {
    let registry = stakes(&[("A", 50), ("B", 30), ("C", 20)]);
    assert_eq!(pick_by_stake(&registry, 0), Some(0));
    assert_eq!(pick_by_stake(&registry, 49), Some(0));
    assert_eq!(pick_by_stake(&registry, 50), Some(1));
    assert_eq!(pick_by_stake(&registry, 79), Some(1));
    assert_eq!(pick_by_stake(&registry, 80), Some(2));
    assert_eq!(pick_by_stake(&registry, 99), Some(2));
    assert_eq!(pick_by_stake(&registry, 100), None);
    assert_eq!(pick_by_stake(&registry, u128::MAX), None);
}

#[test]
fn pick_passes_over_entries_without_stake() {
    let registry = stakes(&[("A", 0), ("B", 5), ("C", 0), ("D", 1)]);
    assert_eq!(pick_by_stake(&registry, 0), Some(1));
    assert_eq!(pick_by_stake(&registry, 4), Some(1));
    assert_eq!(pick_by_stake(&registry, 5), Some(3));
    assert_eq!(pick_by_stake(&registry, 6), None);
}

#[test]
fn pick_of_an_empty_registry_is_none() {
    assert_eq!(pick_by_stake(&ValidatorRegistry::new(), 0), None);
}

#[test]
fn selection_follows_the_stakes() {
    let registry = stakes(&[("A", 50), ("B", 30), ("C", 20)]);
    let mut source = RandomSource::seeded(2024);
    let trials = 20_000;
    let mut counts = [0u32; 3];
    for _ in 0..trials {
        match select_producer(&registry, &mut source).unwrap().as_str() {
            "A" => counts[0] += 1,
            "B" => counts[1] += 1,
            "C" => counts[2] += 1,
            other => panic!("unregistered producer {other}"),
        }
    }
    let share = |count: u32| count as f64 / trials as f64;
    assert!((share(counts[0]) - 0.5).abs() < 0.02);
    assert!((share(counts[1]) - 0.3).abs() < 0.02);
    assert!((share(counts[2]) - 0.2).abs() < 0.02);
}

#[test]
fn selection_is_repeatable_for_a_seed() {
    let registry = stakes(&[("A", 50), ("B", 30), ("C", 20)]);
    let mut first = RandomSource::seeded(7);
    let mut second = RandomSource::seeded(7);
    for _ in 0..200 {
        assert_eq!(
            select_producer(&registry, &mut first),
            select_producer(&registry, &mut second)
        );
    }
}

#[test]
fn selection_never_names_an_entry_without_stake() {
    let registry = stakes(&[("A", 0), ("B", 1), ("C", 0)]);
    let mut source = RandomSource::from_entropy();
    for _ in 0..100 {
        assert_eq!(select_producer(&registry, &mut source), Ok(String::from("B")));
    }
}

#[test]
fn no_eligible_validator_when_all_stakes_are_zero() {
    let registry = stakes(&[("A", 0), ("B", 0), ("C", 0)]);
    let mut source = RandomSource::seeded(1);
    assert_eq!(select_producer(&registry, &mut source), Err(ConsensusError::NoEligibleValidator));
}

#[test]
fn no_eligible_validator_in_an_empty_registry() {
    let mut source = RandomSource::seeded(1);
    assert_eq!(
        select_producer(&ValidatorRegistry::new(), &mut source),
        Err(ConsensusError::NoEligibleValidator)
    );
}

#[test]
fn draw_is_below_the_bound() {
    let mut source = RandomSource::seeded(3);
    assert_eq!(source.draw_below(0), None);
    assert_eq!(source.draw_below(1), Some(0));
    let mut seen = [false; 5];
    for _ in 0..500 {
        let draw = source.draw_below(5).unwrap();
        assert!(draw < 5);
        seen[draw as usize] = true;
    }
    assert_eq!(seen, [true; 5]);
    let wide = (u64::MAX as u128) * 4;
    for _ in 0..100 {
        assert!(source.draw_below(wide).unwrap() < wide);
    }
}
