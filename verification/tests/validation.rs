//! The validation rules: non-enumerations, too few eligible variants, and
//! override orders that are not an exact reordering of the eligible set.

use enum_cycling::descriptor::DeriveError;
use enum_cycling::descriptor::FieldShape;
use enum_cycling::descriptor::TargetData;
use enum_cycling::descriptor::TargetDescription;
use enum_cycling::descriptor::VariantDescriptor;
use enum_cycling::emitter::derive_transitions;

fn unit_variant(name: &str) -> VariantDescriptor {
    VariantDescriptor { name: name.to_string(), shape: FieldShape::Unit, excluded: false }
}

fn skipped_variant(name: &str) -> VariantDescriptor {
    VariantDescriptor { name: name.to_string(), shape: FieldShape::Unit, excluded: true }
}

fn enum_target(
    variants: Vec<VariantDescriptor>,
    cycle_order: Option<Vec<String>>,
) -> TargetDescription {
    TargetDescription {
        target_name: "Target".to_string(),
        generics: String::new(),
        data: TargetData::Enum(variants),
        cycle_order,
    }
}

fn names(list: &[&str]) -> Option<Vec<String>> {
    Some(list.iter().map(|s| s.to_string()).collect())
}

#[test]
fn struct_target_rejected() {
    let target = TargetDescription {
        target_name: "Target".to_string(),
        generics: String::new(),
        data: TargetData::Struct,
        cycle_order: None,
    };
    let error = derive_transitions(&target).expect_err("a struct must be rejected");
    assert_eq!(error, DeriveError::UnsupportedTarget);
    assert_eq!(error.message(), "This macro only supports enums.");
}

#[test]
fn union_target_rejected() {
    let target = TargetDescription {
        target_name: "Target".to_string(),
        generics: String::new(),
        data: TargetData::Union,
        cycle_order: None,
    };
    let error = derive_transitions(&target).expect_err("a union must be rejected");
    assert_eq!(error, DeriveError::UnsupportedTarget);
}

#[test]
fn single_variant_rejected() {
    let target = enum_target(vec![unit_variant("A")], None);
    let error = derive_transitions(&target).expect_err("one variant cannot cycle");
    assert_eq!(error, DeriveError::InsufficientVariants);
    assert_eq!(
        error.message(),
        "EnumCycle requires that the enum have at least 2 non-skipped variants.",
    );
}

#[test]
fn single_eligible_variant_rejected() {
    let target = enum_target(
        vec![unit_variant("A"), skipped_variant("B"), skipped_variant("C")],
        None,
    );
    let error = derive_transitions(&target).expect_err("one eligible variant cannot cycle");
    assert_eq!(error, DeriveError::InsufficientVariants);
}

#[test]
fn empty_enum_rejected() {
    let target = enum_target(Vec::new(), None);
    let error = derive_transitions(&target).expect_err("an empty enum cannot cycle");
    assert_eq!(error, DeriveError::InsufficientVariants);
}

#[test]
fn override_with_unknown_name_rejected() {
    let target = enum_target(
        vec![unit_variant("A"), unit_variant("B")],
        names(&["A", "X"]),
    );
    let error = derive_transitions(&target).expect_err("an unknown name must be rejected");
    assert_eq!(error, DeriveError::UnresolvedCycleName("X".to_string()));
    assert_eq!(error.message(), "No matching variant found for X.");
}

#[test]
fn override_with_duplicate_name_rejected() {
    let target = enum_target(
        vec![unit_variant("A"), unit_variant("B")],
        names(&["A", "B", "A"]),
    );
    let error = derive_transitions(&target).expect_err("a duplicated name must be rejected");
    assert_eq!(error, DeriveError::UnresolvedCycleName("A".to_string()));
}

#[test]
fn override_missing_a_variant_rejected() {
    // the override leaves out the eligible variant `E`
    let target = enum_target(
        vec![
            unit_variant("C"),
            unit_variant("A"),
            unit_variant("D"),
            unit_variant("B"),
            unit_variant("E"),
        ],
        names(&["A", "B", "C", "D"]),
    );
    let error = derive_transitions(&target).expect_err("a missing name must be rejected");
    assert_eq!(error, DeriveError::UnresolvedCycleName("E".to_string()));
    assert_eq!(error.message(), "No matching variant found for E.");
}

#[test]
fn override_naming_excluded_variant_rejected() {
    // a name that refers to an excluded variant counts as unknown
    let target = enum_target(
        vec![unit_variant("A"), unit_variant("B"), skipped_variant("S")],
        names(&["A", "B", "S"]),
    );
    let error = derive_transitions(&target).expect_err("an excluded variant's name is unknown");
    assert_eq!(error, DeriveError::UnresolvedCycleName("S".to_string()));
}

#[test]
fn validation_precedes_override_checks() {
    // too few eligible variants is reported even under a bad override
    let target = enum_target(
        vec![unit_variant("A"), skipped_variant("B")],
        names(&["A", "X"]),
    );
    let error = derive_transitions(&target).expect_err("one eligible variant cannot cycle");
    assert_eq!(error, DeriveError::InsufficientVariants);
}
