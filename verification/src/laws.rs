//! The laws of the derivation, stated over the planner's and the emitter's
//! models and proved once and for all: totality over the eligible variants,
//! the inverse law of the two directions, cyclic wraparound, the exclusion
//! law, and that an override order governs adjacency.

use vstd::prelude::*;

use crate::descriptor::Direction;
use crate::descriptor::OutcomeModel;
use crate::descriptor::VariantModel;
use crate::emitter::cycle_covers;
use crate::emitter::lemma_plan_covers;
use crate::emitter::table_arms;
use crate::planner::cycle_target;
use crate::planner::distinct_names;
use crate::planner::drawn_from;
use crate::planner::eligible_models;
use crate::planner::holds_name;
use crate::planner::lemma_eligible_props;
use crate::planner::lemma_name_index;
use crate::planner::lemma_override_min_len;
use crate::planner::lemma_reordered_props;
use crate::planner::name_index;
use crate::planner::plan_accepted;
use crate::planner::plan_wf;
use crate::planner::planned_order;
use crate::planner::step_index;

verus! {

/// An accepted plan's order is well formed, covers every eligible declared
/// variant, and every variant of it is one of the declared variants.
pub proof fn lemma_planned_order_wf(vs: Seq<VariantModel>, cycle_order: Option<Seq<Seq<char>>>)
    requires
        distinct_names(vs),
        plan_accepted(vs, cycle_order),
    ensures
        plan_wf(planned_order(vs, cycle_order)),
        cycle_covers(vs, planned_order(vs, cycle_order)),
        forall|k: int|
            0 <= k < planned_order(vs, cycle_order).len() ==> drawn_from(
                vs,
                #[trigger] planned_order(vs, cycle_order)[k],
            ),
{
    let es = eligible_models(vs);
    lemma_eligible_props(vs);
    let order = planned_order(vs, cycle_order);
    match cycle_order {
        Option::None => {
            assert(plan_wf(order));
        },
        Option::Some(ns) => {
            lemma_override_min_len(ns, es);
            lemma_reordered_props(es, ns);
            assert(plan_wf(order));
        },
    }
    assert forall|k: int| 0 <= k < order.len() implies drawn_from(vs, #[trigger] order[k]) by {
        match cycle_order {
            Option::None => {
                assert(drawn_from(vs, es[k]));
            },
            Option::Some(ns) => {
                assert(drawn_from(es, order[k]));
                let j = choose|j: int| 0 <= j < es.len() && (#[trigger] es[j]) == order[k];
                assert(drawn_from(vs, es[j]));
            },
        }
    }
    lemma_plan_covers(vs, cycle_order, order);
}

/// Totality and closure: the tables of an accepted derivation hold one arm
/// per declared variant, and on every eligible variant each direction goes
/// to a variant of the same type, never rejecting.
pub proof fn lemma_totality(
    vs: Seq<VariantModel>,
    cycle_order: Option<Seq<Seq<char>>>,
    direction: Direction,
)
    requires
        distinct_names(vs),
        plan_accepted(vs, cycle_order),
    ensures
        table_arms(vs, planned_order(vs, cycle_order), direction).len() == vs.len(),
        forall|i: int|
            0 <= i < vs.len() && !(#[trigger] vs[i]).excluded ==> (table_arms(
                vs,
                planned_order(vs, cycle_order),
                direction,
            )[i].outcome matches OutcomeModel::Go(t) && holds_name(vs, t.name)),
{
    let order = planned_order(vs, cycle_order);
    lemma_planned_order_wf(vs, cycle_order);
    assert forall|i: int| 0 <= i < vs.len() && !(#[trigger] vs[i]).excluded implies (table_arms(
        vs,
        order,
        direction,
    )[i].outcome matches OutcomeModel::Go(t) && holds_name(vs, t.name)) by {
        assert(holds_name(order, vs[i].name));
        let p = name_index(order, vs[i].name);
        assert(0 <= p < order.len() && order[p].name == vs[i].name);
        let s = step_index(p, order.len() as int, direction);
        assert(0 <= s < order.len());
        assert(cycle_target(order, vs[i].name, direction) == order[s]);
        assert(drawn_from(vs, order[s]));
        let w = choose|w: int| 0 <= w < vs.len() && (#[trigger] vs[w]) == order[s];
        assert(vs[w].name == order[s].name);
    }
}

/// The inverse law: stepping one direction and then the other from any
/// variant of the cycle comes back to a variant of the same identity.
pub proof fn lemma_inverse(order: Seq<VariantModel>, name: Seq<char>)
    requires
        plan_wf(order),
        holds_name(order, name),
    ensures
        cycle_target(order, cycle_target(order, name, Direction::Up).name, Direction::Down).name
            == name,
        cycle_target(order, cycle_target(order, name, Direction::Down).name, Direction::Up).name
            == name,
{
    let n = order.len() as int;
    let i = name_index(order, name);
    assert(0 <= i < n && order[i].name == name);
    let up_i = step_index(i, n, Direction::Up);
    assert(0 <= up_i < n);
    lemma_name_index(order, order[up_i].name, up_i);
    assert(step_index(up_i, n, Direction::Down) == i);
    let down_i = step_index(i, n, Direction::Down);
    assert(0 <= down_i < n);
    lemma_name_index(order, order[down_i].name, down_i);
    assert(step_index(down_i, n, Direction::Up) == i);
}

/// Cyclic wraparound: stepping up from the last variant of the cycle order
/// reaches the first, and stepping down from the first reaches the last.
pub proof fn lemma_wraparound(order: Seq<VariantModel>)
    requires
        plan_wf(order),
    ensures
        cycle_target(order, order[order.len() - 1].name, Direction::Up).name == order[0].name,
        cycle_target(order, order[0].name, Direction::Down).name == order[order.len() - 1].name,
{
    lemma_name_index(order, order[order.len() - 1].name, order.len() - 1);
    lemma_name_index(order, order[0].name, 0);
}

/// The exclusion law: an excluded variant's arm rejects the call in either
/// direction, and no transition of an eligible variant ever lands on an
/// excluded variant's identity.
pub proof fn lemma_exclusion(
    vs: Seq<VariantModel>,
    cycle_order: Option<Seq<Seq<char>>>,
    direction: Direction,
)
    requires
        distinct_names(vs),
        plan_accepted(vs, cycle_order),
    ensures
        forall|i: int|
            0 <= i < vs.len() && (#[trigger] vs[i]).excluded ==> table_arms(
                vs,
                planned_order(vs, cycle_order),
                direction,
            )[i].outcome == OutcomeModel::Reject(direction),
        forall|i: int, j: int|
            0 <= i < vs.len() && 0 <= j < vs.len() && !(#[trigger] vs[i]).excluded && (
            #[trigger] vs[j]).excluded ==> (table_arms(
                vs,
                planned_order(vs, cycle_order),
                direction,
            )[i].outcome matches OutcomeModel::Go(t) && t.name != vs[j].name),
{
    let order = planned_order(vs, cycle_order);
    lemma_planned_order_wf(vs, cycle_order);
    assert forall|i: int, j: int|
        0 <= i < vs.len() && 0 <= j < vs.len() && !(#[trigger] vs[i]).excluded && (
        #[trigger] vs[j]).excluded implies (table_arms(vs, order, direction)[i].outcome
        matches OutcomeModel::Go(t) && t.name != vs[j].name) by {
        assert(holds_name(order, vs[i].name));
        let p = name_index(order, vs[i].name);
        let s = step_index(p, order.len() as int, direction);
        assert(0 <= s < order.len());
        assert(cycle_target(order, vs[i].name, direction) == order[s]);
        assert(drawn_from(vs, order[s]));
        let w = choose|w: int| 0 <= w < vs.len() && (#[trigger] vs[w]) == order[s];
        assert(!vs[w].excluded);
        assert(w != j);
        assert(vs[w].name != vs[j].name);
    }
}

/// The override law: with a valid override order, the cycle follows the
/// override's adjacency, not declaration order: stepping up from the
/// variant the override names at one position reaches the one it names
/// next, wrapping around, and stepping down the one it names before.
pub proof fn lemma_override_order(vs: Seq<VariantModel>, ns: Seq<Seq<char>>)
    requires
        distinct_names(vs),
        plan_accepted(vs, Option::Some(ns)),
    ensures
        planned_order(vs, Option::Some(ns)).len() == ns.len(),
        forall|k: int|
            0 <= k < ns.len() ==> (#[trigger] planned_order(vs, Option::Some(ns))[k]).name
                == ns[k],
        forall|k: int|
            0 <= k < ns.len() ==> cycle_target(
                planned_order(vs, Option::Some(ns)),
                #[trigger] ns[k],
                Direction::Up,
            ).name == ns[if k == ns.len() - 1 {
                0
            } else {
                k + 1
            }],
        forall|k: int|
            0 <= k < ns.len() ==> cycle_target(
                planned_order(vs, Option::Some(ns)),
                #[trigger] ns[k],
                Direction::Down,
            ).name == ns[if k == 0 {
                ns.len() - 1
            } else {
                k - 1
            }],
{
    let es = eligible_models(vs);
    lemma_eligible_props(vs);
    lemma_override_min_len(ns, es);
    lemma_reordered_props(es, ns);
    let order = planned_order(vs, Option::Some(ns));
    lemma_planned_order_wf(vs, Option::Some(ns));
    assert forall|k: int| 0 <= k < ns.len() implies cycle_target(
        order,
        #[trigger] ns[k],
        Direction::Up,
    ).name == ns[if k == ns.len() - 1 {
        0
    } else {
        k + 1
    }] && cycle_target(order, ns[k], Direction::Down).name == ns[if k == 0 {
        ns.len() - 1
    } else {
        k - 1
    }] by {
        assert(order[k].name == ns[k]);
        lemma_name_index(order, ns[k], k);
        let up_k = step_index(k, order.len() as int, Direction::Up);
        let down_k = step_index(k, order.len() as int, Direction::Down);
        assert(cycle_target(order, ns[k], Direction::Up) == order[up_k]);
        assert(cycle_target(order, ns[k], Direction::Down) == order[down_k]);
        assert(order[up_k].name == ns[up_k]);
        assert(order[down_k].name == ns[down_k]);
    }
}

} // verus!
