//! The transition emitter: turns a cycle plan into one total transition
//! table per direction. Every declared variant gets an arm: an excluded
//! variant's arm rejects the call naming the direction, an eligible
//! variant's arm constructs its neighbour in the cycle, filling the
//! target's fields with the default value of each field's type.

use vstd::prelude::*;

use crate::descriptor::Arm;
use crate::descriptor::ArmModel;
use crate::descriptor::DataModel;
use crate::descriptor::Derivation;
use crate::descriptor::DerivationModel;
use crate::descriptor::DeriveError;
use crate::descriptor::Direction;
use crate::descriptor::ErrorModel;
use crate::descriptor::FieldShape;
use crate::descriptor::NamedInit;
use crate::descriptor::Outcome;
use crate::descriptor::OutcomeModel;
use crate::descriptor::Payload;
use crate::descriptor::PayloadModel;
use crate::descriptor::Placeholder;
use crate::descriptor::ShapeModel;
use crate::descriptor::TableModel;
use crate::descriptor::TargetData;
use crate::descriptor::TargetDescription;
use crate::descriptor::TargetModel;
use crate::descriptor::TransitionTable;
use crate::descriptor::ValueModel;
use crate::descriptor::VariantDescriptor;
use crate::descriptor::VariantModel;
use crate::descriptor::VariantValue;
use crate::planner::CyclePlan;
use crate::planner::cycle_target;
use crate::planner::distinct_names;
use crate::planner::eligible_models;
use crate::planner::find_variant;
use crate::planner::holds_name;
use crate::planner::lemma_eligible_membership;
use crate::planner::lemma_eligible_props;
use crate::planner::lemma_name_index;
use crate::planner::lemma_reordered_props;
use crate::planner::name_index;
use crate::planner::offending_name;
use crate::planner::plan_accepted;
use crate::planner::plan_cycle;
use crate::planner::plan_wf;
use crate::planner::planned_order;
use crate::planner::step_index;

verus! {

// ---------------------------------------------------------------------------
// Placeholder data
// ---------------------------------------------------------------------------

/// The placeholder data built for a target of the given shape: each field is
/// filled with the default value of its declared type.
pub open spec fn placeholder_model(shape: ShapeModel) -> PayloadModel {
    match shape {
        ShapeModel::Unit => PayloadModel::Unit,
        ShapeModel::Positional(tys) => PayloadModel::Positional(tys),
        ShapeModel::Named(fields) => PayloadModel::Named(fields),
    }
}

/// Builds the placeholder data for a target of the given shape: no data for
/// a unit target, and for each declared field, positional or named, the
/// default value of the field's type.
pub fn placeholder_payload(shape: &FieldShape) -> (r: Payload)
    ensures
        r@ == placeholder_model(shape@),
{
    match shape {
        FieldShape::Unit => Payload::Unit,
        FieldShape::Positional(tys) => {
            let mut values: Vec<Placeholder> = Vec::new();
            let mut i: usize = 0;
            while i < tys.len()
                invariant
                    i <= tys.len(),
                    values.len() == i,
                    forall|j: int|
                        0 <= j < i ==> (#[trigger] values.deep_view()[j]) == tys.deep_view()[j],
                decreases tys.len() - i,
            {
                let ghost prev = values.deep_view();
                values.push(Placeholder { ty: tys[i].clone() });
                proof {
                    assert(values.deep_view() =~= prev.push(tys.deep_view()[i as int]));
                }
                i = i + 1;
            }
            proof {
                assert(values.deep_view() =~= tys.deep_view());
            }
            Payload::Positional(values)
        },
        FieldShape::Named(fields) => {
            let mut inits: Vec<NamedInit> = Vec::new();
            let mut i: usize = 0;
            while i < fields.len()
                invariant
                    i <= fields.len(),
                    inits.len() == i,
                    forall|j: int|
                        0 <= j < i ==> (#[trigger] inits.deep_view()[j]) == fields.deep_view()[j],
                decreases fields.len() - i,
            {
                let ghost prev = inits.deep_view();
                inits.push(
                    NamedInit {
                        field: fields[i].name.clone(),
                        value: Placeholder { ty: fields[i].ty.clone() },
                    },
                );
                proof {
                    assert(inits.deep_view() =~= prev.push(fields.deep_view()[i as int]));
                }
                i = i + 1;
            }
            proof {
                assert(inits.deep_view() =~= fields.deep_view());
            }
            Payload::Named(inits)
        },
    }
}

// ---------------------------------------------------------------------------
// The transition table
// ---------------------------------------------------------------------------

/// The arm a transition table holds for one declared variant: an excluded
/// variant rejects the call, an eligible one goes to its neighbour in the
/// cycle, built with placeholder data.
pub open spec fn arm_for(
    v: VariantModel,
    order: Seq<VariantModel>,
    direction: Direction,
) -> ArmModel {
    ArmModel {
        source: v.name,
        outcome: if v.excluded {
            OutcomeModel::Reject(direction)
        } else {
            let t = cycle_target(order, v.name, direction);
            OutcomeModel::Go(ValueModel { name: t.name, payload: placeholder_model(t.shape) })
        },
    }
}

/// The arms of the transition table: one per declared variant, in
/// declaration order.
pub open spec fn table_arms(
    vs: Seq<VariantModel>,
    order: Seq<VariantModel>,
    direction: Direction,
) -> Seq<ArmModel> {
    Seq::new(vs.len(), |i: int| arm_for(vs[i], order, direction))
}

/// Every eligible declared variant has a place in the cycle order.
pub open spec fn cycle_covers(vs: Seq<VariantModel>, order: Seq<VariantModel>) -> bool {
    forall|i: int|
        0 <= i < vs.len() && !(#[trigger] vs[i]).excluded ==> holds_name(order, vs[i].name)
}

/// Emits the transition table of one direction: one arm per declared
/// variant, rejection for the excluded, the cycle neighbour with
/// placeholder data for the eligible.
pub fn transition_table(
    variants: &Vec<VariantDescriptor>,
    plan: &CyclePlan,
    direction: Direction,
) -> (t: TransitionTable)
    requires
        plan_wf(plan@),
        cycle_covers(variants.deep_view(), plan@),
    ensures
        t@.direction == direction,
        t@.arms == table_arms(variants.deep_view(), plan@, direction),
{
    let ghost dvs = variants.deep_view();
    let ghost dorder = plan@;
    let n = plan.order.len();
    proof {
        assert(n == dorder.len());
    }
    let mut arms: Vec<Arm> = Vec::new();
    let mut i: usize = 0;
    while i < variants.len()
        invariant
            i <= variants.len(),
            dvs == variants.deep_view(),
            dorder == plan@,
            n == plan.order.len() == dorder.len(),
            plan_wf(dorder),
            cycle_covers(dvs, dorder),
            arms.len() == i,
            forall|j: int|
                0 <= j < i ==> (#[trigger] arms.deep_view()[j]) == arm_for(
                    dvs[j],
                    dorder,
                    direction,
                ),
        decreases variants.len() - i,
    {
        let ghost prev = arms.deep_view();
        if variants[i].excluded {
            arms.push(
                Arm { source: variants[i].name.clone(), outcome: Outcome::Reject(direction) },
            );
            proof {
                assert(arms.deep_view() =~= prev.push(
                    ArmModel { source: dvs[i as int].name, outcome: OutcomeModel::Reject(direction) },
                ));
            }
        } else {
            let pos = match find_variant(&plan.order, &variants[i].name) {
                Some(pos) => pos,
                None => {
                    proof {
                        assert(holds_name(dorder, dvs[i as int].name));
                        assert(false);
                    }
                    0
                },
            };
            proof {
                lemma_name_index(dorder, dvs[i as int].name, pos as int);
            }
            let t_idx: usize = match direction {
                Direction::Up => if pos + 1 == n {
                    0
                } else {
                    pos + 1
                },
                Direction::Down => if pos == 0 {
                    n - 1
                } else {
                    pos - 1
                },
            };
            proof {
                assert(t_idx as int == step_index(pos as int, n as int, direction));
            }
            let payload = placeholder_payload(&plan.order[t_idx].shape);
            let value = VariantValue { name: plan.order[t_idx].name.clone(), payload };
            let arm = Arm { source: variants[i].name.clone(), outcome: Outcome::Go(value) };
            proof {
                assert(plan.order.deep_view()[t_idx as int] == cycle_target(
                    dorder,
                    dvs[i as int].name,
                    direction,
                ));
                assert(arm@ == arm_for(dvs[i as int], dorder, direction));
            }
            arms.push(arm);
            proof {
                assert(arms.deep_view() =~= prev.push(arm_for(dvs[i as int], dorder, direction)));
            }
        }
        i = i + 1;
    }
    proof {
        assert(arms.deep_view() =~= table_arms(dvs, dorder, direction));
    }
    TransitionTable { direction, arms }
}

// ---------------------------------------------------------------------------
// The whole derivation
// ---------------------------------------------------------------------------

/// The names of an enumeration's variants are distinct; nothing is asked of
/// another target.
pub open spec fn target_wf(t: TargetModel) -> bool {
    match t.data {
        DataModel::Enum(vs) => distinct_names(vs),
        _ => true,
    }
}

/// Whether the derivation accepts the target: an enumeration whose planning
/// succeeds.
pub open spec fn derive_accepted(t: TargetModel) -> bool {
    match t.data {
        DataModel::Enum(vs) => plan_accepted(vs, t.cycle_order),
        _ => false,
    }
}

/// What a completed derivation holds: the target's identity threaded
/// through unchanged, and the two transition tables over the planned order.
pub open spec fn derivation_ok(t: TargetModel, d: DerivationModel) -> bool {
    match t.data {
        DataModel::Enum(vs) => {
            let order = planned_order(vs, t.cycle_order);
            &&& d.target_name == t.target_name
            &&& d.generics == t.generics
            &&& d.up == (TableModel {
                direction: Direction::Up,
                arms: table_arms(vs, order, Direction::Up),
            })
            &&& d.down == (TableModel {
                direction: Direction::Down,
                arms: table_arms(vs, order, Direction::Down),
            })
        },
        _ => false,
    }
}

/// Which rejection a refused derivation raises: `UnsupportedTarget` for a
/// non-enumeration, `InsufficientVariants` for a cycle of fewer than two,
/// and otherwise an override rejected for an offending name.
pub open spec fn derive_error_ok(t: TargetModel, e: ErrorModel) -> bool {
    match t.data {
        DataModel::Enum(vs) => if eligible_models(vs).len() < 2 {
            e == ErrorModel::InsufficientVariants
        } else {
            t.cycle_order matches Option::Some(ns) && (e matches ErrorModel::UnresolvedCycleName(x)
                && offending_name(x, ns, eligible_models(vs)))
        },
        _ => e == ErrorModel::UnsupportedTarget,
    }
}

/// Derives the whole transition pair for a target: validates it, plans the
/// cycle, and emits the two tables.
pub fn derive_transitions(target: &TargetDescription) -> (r: Result<Derivation, DeriveError>)
    requires
        target_wf(target@),
    ensures
        match r {
            Result::Ok(d) => derive_accepted(target@) && derivation_ok(target@, d@),
            Result::Err(e) => !derive_accepted(target@) && derive_error_ok(target@, e@),
        },
{
    let variants = match &target.data {
        TargetData::Enum(vs) => vs,
        TargetData::Struct => {
            return Err(DeriveError::UnsupportedTarget);
        },
        TargetData::Union => {
            return Err(DeriveError::UnsupportedTarget);
        },
    };
    match plan_cycle(variants, &target.cycle_order) {
        Err(e) => Err(e),
        Ok(plan) => {
            proof {
                lemma_plan_covers(variants.deep_view(), target@.cycle_order, plan@);
            }
            let up = transition_table(variants, &plan, Direction::Up);
            let down = transition_table(variants, &plan, Direction::Down);
            Ok(
                Derivation {
                    target_name: target.target_name.clone(),
                    generics: target.generics.clone(),
                    up,
                    down,
                },
            )
        },
    }
}

/// The planned order covers every eligible declared variant.
pub proof fn lemma_plan_covers(
    vs: Seq<VariantModel>,
    cycle_order: Option<Seq<Seq<char>>>,
    order: Seq<VariantModel>,
)
    requires
        distinct_names(vs),
        plan_accepted(vs, cycle_order),
        order == planned_order(vs, cycle_order),
    ensures
        cycle_covers(vs, order),
{
    let es = eligible_models(vs);
    lemma_eligible_props(vs);
    assert forall|i: int| 0 <= i < vs.len() && !(#[trigger] vs[i]).excluded implies holds_name(
        order,
        vs[i].name,
    ) by {
        lemma_eligible_membership(vs, i);
        let k = choose|k: int| 0 <= k < es.len() && (#[trigger] es[k]) == vs[i];
        match cycle_order {
            Option::None => {
                assert(order[k].name == vs[i].name);
            },
            Option::Some(ns) => {
                lemma_reordered_props(es, ns);
                assert(ns.contains(es[k].name));
                let m = choose|m: int| 0 <= m < ns.len() && (#[trigger] ns[m]) == es[k].name;
                assert(order[m].name == vs[i].name);
            },
        }
    }
}

// ---------------------------------------------------------------------------
// Reading a table
// ---------------------------------------------------------------------------

/// The outcome the first arm whose source carries `name` holds, searched in
/// order; `None` when no arm matches.
pub open spec fn arm_lookup(arms: Seq<ArmModel>, name: Seq<char>) -> Option<OutcomeModel>
    decreases arms.len(),
{
    if arms.len() == 0 {
        Option::None
    } else if arms[0].source == name {
        Option::Some(arms[0].outcome)
    } else {
        arm_lookup(arms.subrange(1, arms.len() as int), name)
    }
}

impl TransitionTable {
    /// The outcome this table assigns to the variant carrying `name`:
    /// `None` when the table holds no arm for it.
    pub fn outcome_for(&self, name: &String) -> (r: Option<&Outcome>)
        ensures
            match r {
                Option::Some(o) => arm_lookup(self@.arms, name@) == Option::Some(o@),
                Option::None => arm_lookup(self@.arms, name@) is None,
            },
    {
        let ghost darms = self@.arms;
        proof {
            assert(darms.skip(0) =~= darms);
        }
        let mut i: usize = 0;
        while i < self.arms.len()
            invariant
                i <= self.arms.len(),
                darms == self@.arms,
                darms.len() == self.arms.len(),
                arm_lookup(darms, name@) == arm_lookup(darms.skip(i as int), name@),
            decreases self.arms.len() - i,
        {
            proof {
                assert(darms.skip(i as int)[0] == darms[i as int]);
            }
            if self.arms[i].source == *name {
                proof {
                    assert(darms[i as int].source == name@);
                }
                return Some(&self.arms[i].outcome);
            }
            proof {
                assert(darms[i as int].source != name@);
                assert(darms.skip(i as int).subrange(1, darms.skip(i as int).len() as int)
                    =~= darms.skip(i as int + 1));
            }
            i = i + 1;
        }
        proof {
            assert(darms.skip(darms.len() as int).len() == 0);
        }
        None
    }
}

// ---------------------------------------------------------------------------
// The invocation-time failure
// ---------------------------------------------------------------------------

/// The text of the failure raised when a transition is invoked on an
/// excluded variant's value, naming the direction attempted.
pub open spec fn reject_text(direction: Direction) -> Seq<char> {
    match direction {
        Direction::Up => "Unable to call \"up\" fn on a skipped variant"@,
        Direction::Down => "Unable to call \"down\" fn on a skipped variant"@,
    }
}

/// The message of the failure raised when a transition is invoked on an
/// excluded variant's value.
pub fn reject_message(direction: Direction) -> (r: String)
    ensures
        r@ == reject_text(direction),
{
    match direction {
        Direction::Up => "Unable to call \"up\" fn on a skipped variant".to_owned(),
        Direction::Down => "Unable to call \"down\" fn on a skipped variant".to_owned(),
    }
}

} // verus!
