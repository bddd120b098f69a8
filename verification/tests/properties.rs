//! Concrete checks of the cycle laws: totality, the inverse law, cyclic
//! wraparound, the exclusion law, the override law, and default-filled
//! placeholder data.

use enum_cycling::descriptor::Direction;
use enum_cycling::descriptor::FieldShape;
use enum_cycling::descriptor::NamedField;
use enum_cycling::descriptor::NamedInit;
use enum_cycling::descriptor::Outcome;
use enum_cycling::descriptor::Payload;
use enum_cycling::descriptor::Placeholder;
use enum_cycling::descriptor::TargetData;
use enum_cycling::descriptor::TargetDescription;
use enum_cycling::descriptor::TransitionTable;
use enum_cycling::descriptor::VariantDescriptor;
use enum_cycling::emitter::derive_transitions;
use enum_cycling::emitter::placeholder_payload;
use enum_cycling::planner::eligible_variants;
use enum_cycling::planner::plan_cycle;

fn unit_variant(name: &str) -> VariantDescriptor {
    VariantDescriptor { name: name.to_string(), shape: FieldShape::Unit, excluded: false }
}

fn skipped_variant(name: &str) -> VariantDescriptor {
    VariantDescriptor { name: name.to_string(), shape: FieldShape::Unit, excluded: true }
}

fn describe(name: &str, variants: Vec<VariantDescriptor>) -> TargetDescription {
    TargetDescription {
        target_name: name.to_string(),
        generics: String::new(),
        data: TargetData::Enum(variants),
        cycle_order: None,
    }
}

fn go_name(table: &TransitionTable, from: &str) -> String {
    match table.outcome_for(&from.to_string()) {
        Some(Outcome::Go(value)) => value.name.clone(),
        _ => panic!("expected a transition from {}", from),
    }
}

/// The scenario of one excluded variant in the middle: variants `A`, `B`,
/// `C`, `D` with `C` excluded leave the eligible cycle `A`, `B`, `D`.
fn mid_skip() -> TargetDescription {
    describe(
        "MidSkip",
        vec![unit_variant("A"), unit_variant("B"), skipped_variant("C"), unit_variant("D")],
    )
}

#[test]
fn scenario_with_excluded_variant() {
    let derivation = derive_transitions(&mid_skip()).expect("derivation should succeed");
    assert_eq!(go_name(&derivation.up, "A"), "B");
    assert_eq!(go_name(&derivation.up, "B"), "D");
    assert_eq!(go_name(&derivation.up, "D"), "A");
    assert_eq!(go_name(&derivation.down, "A"), "D");
    assert_eq!(
        derivation.up.outcome_for(&"C".to_string()),
        Some(&Outcome::Reject(Direction::Up)),
    );
    assert_eq!(
        derivation.down.outcome_for(&"C".to_string()),
        Some(&Outcome::Reject(Direction::Down)),
    );
}

#[test]
fn totality_over_eligible() {
    let derivation = derive_transitions(&mid_skip()).expect("derivation should succeed");
    let declared = ["A", "B", "D"];
    for name in declared {
        let up_target = go_name(&derivation.up, name);
        let down_target = go_name(&derivation.down, name);
        assert!(declared.contains(&up_target.as_str()));
        assert!(declared.contains(&down_target.as_str()));
    }
}

#[test]
fn inverse_law_round_trip() {
    let derivation = derive_transitions(&mid_skip()).expect("derivation should succeed");
    for name in ["A", "B", "D"] {
        let up_target = go_name(&derivation.up, name);
        assert_eq!(go_name(&derivation.down, &up_target), name);
        let down_target = go_name(&derivation.down, name);
        assert_eq!(go_name(&derivation.up, &down_target), name);
    }
}

#[test]
fn wraparound_at_ends() {
    let derivation = derive_transitions(&mid_skip()).expect("derivation should succeed");
    // `D` is the last eligible variant, `A` the first
    assert_eq!(go_name(&derivation.up, "D"), "A");
    assert_eq!(go_name(&derivation.down, "A"), "D");
}

#[test]
fn excluded_never_a_target() {
    let derivation = derive_transitions(&mid_skip()).expect("derivation should succeed");
    for table in [&derivation.up, &derivation.down] {
        for arm in &table.arms {
            if let Outcome::Go(value) = &arm.outcome {
                assert_ne!(value.name, "C");
            }
        }
    }
}

#[test]
fn override_governs_adjacency() {
    // declared order `C`, `A`, `D`, `B`; cycle order `A`, `B`, `C`, `D`
    let target = TargetDescription {
        target_name: "Cyclebet".to_string(),
        generics: String::new(),
        data: TargetData::Enum(vec![
            unit_variant("C"),
            unit_variant("A"),
            unit_variant("D"),
            unit_variant("B"),
        ]),
        cycle_order: Some(vec![
            "A".to_string(),
            "B".to_string(),
            "C".to_string(),
            "D".to_string(),
        ]),
    };
    let derivation = derive_transitions(&target).expect("derivation should succeed");
    assert_eq!(go_name(&derivation.up, "A"), "B");
    assert_eq!(go_name(&derivation.up, "B"), "C");
    assert_eq!(go_name(&derivation.up, "D"), "A");
    assert_eq!(go_name(&derivation.down, "A"), "D");
}

#[test]
fn default_fill_exact_payloads() {
    assert_eq!(placeholder_payload(&FieldShape::Unit), Payload::Unit);
    assert_eq!(
        placeholder_payload(&FieldShape::Positional(vec![
            "u64".to_string(),
            "String".to_string(),
        ])),
        Payload::Positional(vec![
            Placeholder { ty: "u64".to_string() },
            Placeholder { ty: "String".to_string() },
        ]),
    );
    assert_eq!(
        placeholder_payload(&FieldShape::Named(vec![
            NamedField { name: "f1".to_string(), ty: "String".to_string() },
            NamedField { name: "f2".to_string(), ty: "u32".to_string() },
        ])),
        Payload::Named(vec![
            NamedInit {
                field: "f1".to_string(),
                value: Placeholder { ty: "String".to_string() },
            },
            NamedInit { field: "f2".to_string(), value: Placeholder { ty: "u32".to_string() } },
        ]),
    );
}

#[test]
fn eligible_filter_keeps_order() {
    let variants = vec![
        skipped_variant("A"),
        unit_variant("B"),
        skipped_variant("C"),
        unit_variant("D"),
    ];
    let eligible = eligible_variants(&variants);
    let names: Vec<&str> = eligible.iter().map(|v| v.name.as_str()).collect();
    assert_eq!(names, ["B", "D"]);
}

#[test]
fn plan_neighbours_wrap() {
    let variants = vec![unit_variant("A"), unit_variant("B"), unit_variant("C")];
    let plan = plan_cycle(&variants, &None).expect("planning should succeed");
    let successor = plan.successor(&"C".to_string()).expect("C is in the cycle");
    assert_eq!(successor.name, "A");
    let predecessor = plan.predecessor(&"A".to_string()).expect("A is in the cycle");
    assert_eq!(predecessor.name, "C");
    assert!(plan.successor(&"X".to_string()).is_none());
}

#[test]
fn identity_threaded_through() {
    let target = TargetDescription {
        target_name: "Wrapped".to_string(),
        generics: "<T: Clone>".to_string(),
        data: TargetData::Enum(vec![unit_variant("A"), unit_variant("B")]),
        cycle_order: None,
    };
    let derivation = derive_transitions(&target).expect("derivation should succeed");
    assert_eq!(derivation.target_name, "Wrapped");
    assert_eq!(derivation.generics, "<T: Clone>");
}

#[test]
fn table_holds_one_arm_per_variant() {
    let derivation = derive_transitions(&mid_skip()).expect("derivation should succeed");
    assert_eq!(derivation.up.direction, Direction::Up);
    assert_eq!(derivation.down.direction, Direction::Down);
    for table in [&derivation.up, &derivation.down] {
        let sources: Vec<&str> = table.arms.iter().map(|a| a.source.as_str()).collect();
        assert_eq!(sources, ["A", "B", "C", "D"]);
    }
    assert!(derivation.up.outcome_for(&"X".to_string()).is_none());
}
