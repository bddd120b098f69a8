//! The cycle planner: filters the variants that take part in the cycle,
//! validates the derivation, resolves the cycle order (declaration order, or
//! an explicit override), and answers successor and predecessor queries over
//! that order, wrapping around at either end.

use vstd::prelude::*;

use crate::descriptor::DeriveError;
use crate::descriptor::Direction;
use crate::descriptor::ErrorModel;
use crate::descriptor::VariantDescriptor;
use crate::descriptor::VariantModel;

verus! {

// ---------------------------------------------------------------------------
// The eligible variants
// ---------------------------------------------------------------------------

/// The variants that take part in the cycle: those not excluded, in
/// declaration order.
pub open spec fn eligible_models(vs: Seq<VariantModel>) -> Seq<VariantModel>
    decreases vs.len(),
{
    if vs.len() == 0 {
        Seq::empty()
    } else {
        let rest = eligible_models(vs.drop_last());
        if vs.last().excluded {
            rest
        } else {
            rest.push(vs.last())
        }
    }
}

/// No two variants carry the same name.
pub open spec fn distinct_names(vs: Seq<VariantModel>) -> bool {
    forall|i: int, j: int|
        0 <= i < vs.len() && 0 <= j < vs.len() && i != j ==> (#[trigger] vs[i].name) != (
        #[trigger] vs[j].name)
}

/// No two of the names are equal.
pub open spec fn distinct_name_list(ns: Seq<Seq<char>>) -> bool {
    forall|i: int, j: int| 0 <= i < ns.len() && 0 <= j < ns.len() && i != j ==> ns[i] != ns[j]
}

/// Some variant of `vs` carries the name.
pub open spec fn holds_name(vs: Seq<VariantModel>, name: Seq<char>) -> bool {
    exists|i: int| 0 <= i < vs.len() && (#[trigger] vs[i].name) == name
}

/// The position of the variant carrying the name.
pub open spec fn name_index(vs: Seq<VariantModel>, name: Seq<char>) -> int {
    choose|i: int| 0 <= i < vs.len() && (#[trigger] vs[i].name) == name
}

/// Whether `v` is one of the variants of `es`.
pub open spec fn drawn_from(es: Seq<VariantModel>, v: VariantModel) -> bool {
    exists|j: int| 0 <= j < es.len() && (#[trigger] es[j]) == v
}

/// Every eligible variant is one of the declared variants, is not excluded,
/// and distinct declared names stay distinct among the eligible.
pub proof fn lemma_eligible_props(vs: Seq<VariantModel>)
    ensures
        forall|i: int|
            0 <= i < eligible_models(vs).len() ==> !(#[trigger] eligible_models(vs)[i]).excluded,
        forall|i: int|
            0 <= i < eligible_models(vs).len() ==> drawn_from(
                vs,
                #[trigger] eligible_models(vs)[i],
            ),
        distinct_names(vs) ==> distinct_names(eligible_models(vs)),
        eligible_models(vs).len() <= vs.len(),
    decreases vs.len(),
{
    if vs.len() > 0 {
        let prefix = vs.drop_last();
        lemma_eligible_props(prefix);
        assert forall|i: int| 0 <= i < eligible_models(vs).len() implies drawn_from(
            vs,
            #[trigger] eligible_models(vs)[i],
        ) by {
            let rest = eligible_models(prefix);
            if i < rest.len() {
                let j = choose|j: int| 0 <= j < prefix.len() && (#[trigger] prefix[j]) == rest[i];
                assert(vs[j] == eligible_models(vs)[i]);
            } else {
                assert(vs[vs.len() - 1] == eligible_models(vs)[i]);
            }
        }
        if distinct_names(vs) {
            assert(distinct_names(prefix));
            assert forall|i: int, j: int|
                0 <= i < eligible_models(vs).len() && 0 <= j < eligible_models(vs).len() && i != j
                implies (eligible_models(vs)[i].name) != (eligible_models(vs)[j].name) by {
                let rest = eligible_models(prefix);
                let es = eligible_models(vs);
                if i < rest.len() && j < rest.len() {
                    assert(es[i] == rest[i] && es[j] == rest[j]);
                } else {
                    // one of the two is the last declared variant
                    let k = if i < rest.len() { i } else { j };
                    assert(es[k] == rest[k]);
                    assert(drawn_from(prefix, rest[k]));
                    let w = choose|w: int| 0 <= w < prefix.len() && (#[trigger] prefix[w]) == rest[k];
                    assert(vs[w] == es[k]);
                    assert(vs[w].name != vs[vs.len() - 1].name);
                }
            }
        }
    }
}

/// A declared variant that is not excluded appears among the eligible.
pub proof fn lemma_eligible_membership(vs: Seq<VariantModel>, i: int)
    requires
        0 <= i < vs.len(),
        !vs[i].excluded,
    ensures
        exists|k: int| 0 <= k < eligible_models(vs).len() && eligible_models(vs)[k] == vs[i],
    decreases vs.len(),
{
    if i == vs.len() - 1 {
        let es = eligible_models(vs);
        assert(es[es.len() - 1] == vs[i]);
    } else {
        let prefix = vs.drop_last();
        lemma_eligible_membership(prefix, i);
        let k = choose|k: int|
            0 <= k < eligible_models(prefix).len() && eligible_models(prefix)[k] == prefix[i];
        assert(eligible_models(vs)[k] == vs[i]);
    }
}

/// The unique position of a name, when the names are distinct.
pub proof fn lemma_name_index(vs: Seq<VariantModel>, name: Seq<char>, i: int)
    requires
        distinct_names(vs),
        0 <= i < vs.len(),
        vs[i].name == name,
    ensures
        holds_name(vs, name),
        name_index(vs, name) == i,
{
    assert(holds_name(vs, name));
    let j = name_index(vs, name);
    assert(0 <= j < vs.len() && vs[j].name == name);
    if i != j {
        assert(vs[i].name != vs[j].name);
    }
}

/// Filters the declared variants down to those taking part in the cycle,
/// keeping declaration order.
pub fn eligible_variants(variants: &Vec<VariantDescriptor>) -> (r: Vec<VariantDescriptor>)
    ensures
        r.deep_view() == eligible_models(variants.deep_view()),
{
    let ghost dvs = variants.deep_view();
    let mut out: Vec<VariantDescriptor> = Vec::new();
    let mut i: usize = 0;
    while i < variants.len()
        invariant
            i <= variants.len(),
            dvs == variants.deep_view(),
            out.deep_view() == eligible_models(dvs.take(i as int)),
        decreases variants.len() - i,
    {
        let ghost prev = out.deep_view();
        if !variants[i].excluded {
            out.push(variants[i].clone());
            proof {
                assert(out.deep_view() =~= prev.push(dvs[i as int]));
            }
        }
        proof {
            assert(dvs.take(i + 1 as int).drop_last() =~= dvs.take(i as int));
            assert(dvs.take(i + 1 as int).last() == dvs[i as int]);
        }
        i = i + 1;
    }
    proof {
        assert(dvs.take(dvs.len() as int) =~= dvs);
    }
    out
}

// ---------------------------------------------------------------------------
// Override resolution
// ---------------------------------------------------------------------------

/// An override order is valid when its names are distinct, each resolves to
/// an eligible variant, and every eligible variant's name appears in it: the
/// list is then an exact reordering of the eligible variants.
pub open spec fn valid_override(ns: Seq<Seq<char>>, es: Seq<VariantModel>) -> bool {
    &&& distinct_name_list(ns)
    &&& forall|k: int| 0 <= k < ns.len() ==> holds_name(es, #[trigger] ns[k])
    &&& forall|j: int| 0 <= j < es.len() ==> ns.contains(#[trigger] es[j].name)
}

/// The eligible variants in the order the override names them.
pub open spec fn reordered(es: Seq<VariantModel>, ns: Seq<Seq<char>>) -> Seq<VariantModel> {
    Seq::new(ns.len(), |k: int| es[name_index(es, ns[k])])
}

/// The names of the variants, in their order.
pub open spec fn names_of(vs: Seq<VariantModel>) -> Seq<Seq<char>> {
    vs.map_values(|v: VariantModel| v.name)
}

/// A valid override names each eligible variant exactly once, so it holds
/// exactly as many names as there are eligible variants.
pub proof fn lemma_override_exact(ns: Seq<Seq<char>>, es: Seq<VariantModel>)
    requires
        distinct_names(es),
        valid_override(ns, es),
    ensures
        ns.len() == es.len(),
{
    broadcast use vstd::seq_lib::seq_to_set_is_finite;

    let nse = names_of(es);
    assert(ns.no_duplicates());
    assert(nse.no_duplicates());
    ns.unique_seq_to_set();
    nse.unique_seq_to_set();
    assert forall|x: Seq<char>| ns.to_set().contains(x) implies nse.to_set().contains(x) by {
        let k = choose|k: int| 0 <= k < ns.len() && ns[k] == x;
        assert(holds_name(es, x));
        let i = choose|i: int| 0 <= i < es.len() && (#[trigger] es[i].name) == x;
        assert(nse[i] == x);
        assert(nse.contains(x));
    }
    assert forall|x: Seq<char>| nse.to_set().contains(x) implies ns.to_set().contains(x) by {
        let i = choose|i: int| 0 <= i < nse.len() && nse[i] == x;
        assert(es[i].name == x);
        assert(ns.contains(es[i].name));
    }
    vstd::set_lib::lemma_len_subset(ns.to_set(), nse.to_set());
    vstd::set_lib::lemma_len_subset(nse.to_set(), ns.to_set());
}

/// A name the validation rejects an override for: unknown among the
/// eligible, named twice, or an eligible variant the override misses.
pub open spec fn offending_name(x: Seq<char>, ns: Seq<Seq<char>>, es: Seq<VariantModel>) -> bool {
    ||| (ns.contains(x) && !holds_name(es, x))
    ||| exists|i: int, j: int| 0 <= i < j < ns.len() && (#[trigger] ns[i]) == x && (#[trigger] ns[j]) == x
    ||| (holds_name(es, x) && !ns.contains(x))
}

/// Whether `name` equals one of the first `upto` entries of `ns`.
fn name_in_prefix(ns: &Vec<String>, upto: usize, name: &String) -> (r: bool)
    requires
        upto <= ns.len(),
    ensures
        r == exists|j: int| 0 <= j < upto && (#[trigger] ns.deep_view()[j]) == name@,
{
    let ghost dns = ns.deep_view();
    let mut j: usize = 0;
    while j < upto
        invariant
            j <= upto <= ns.len(),
            dns == ns.deep_view(),
            forall|k: int| 0 <= k < j ==> (#[trigger] dns[k]) != name@,
        decreases upto - j,
    {
        if ns[j] == *name {
            proof {
                assert(dns[j as int] == name@);
            }
            return true;
        }
        j = j + 1;
    }
    false
}

/// The position of the variant carrying `name`, searched in order.
pub fn find_variant(vs: &Vec<VariantDescriptor>, name: &String) -> (r: Option<usize>)
    ensures
        match r {
            Option::Some(i) => i < vs.len() && vs.deep_view()[i as int].name == name@,
            Option::None => !holds_name(vs.deep_view(), name@),
        },
{
    let ghost dvs = vs.deep_view();
    let mut i: usize = 0;
    while i < vs.len()
        invariant
            i <= vs.len(),
            dvs == vs.deep_view(),
            forall|j: int| 0 <= j < i ==> (#[trigger] dvs[j].name) != name@,
        decreases vs.len() - i,
    {
        if vs[i].name == *name {
            proof {
                assert(dvs[i as int].name == name@);
            }
            return Some(i);
        }
        i = i + 1;
    }
    None
}

/// Resolves an override order against the eligible variants: checks that it
/// is an exact reordering of them and returns them in the override's order,
/// or rejects it naming the offending identifier. A name that refers to an
/// excluded variant is treated like any other unknown name.
pub fn resolve_cycle_order(names: &Vec<String>, eligible: &Vec<VariantDescriptor>) -> (r: Result<
    Vec<VariantDescriptor>,
    DeriveError,
>)
    requires
        distinct_names(eligible.deep_view()),
    ensures
        match r {
            Result::Ok(order) => valid_override(names.deep_view(), eligible.deep_view())
                && order.deep_view() == reordered(eligible.deep_view(), names.deep_view()),
            Result::Err(e) => !valid_override(names.deep_view(), eligible.deep_view()) && (e@
                matches ErrorModel::UnresolvedCycleName(x) && offending_name(
                x,
                names.deep_view(),
                eligible.deep_view(),
            )),
        },
{
    let ghost dns = names.deep_view();
    let ghost des = eligible.deep_view();
    let mut order: Vec<VariantDescriptor> = Vec::new();
    let mut k: usize = 0;
    while k < names.len()
        invariant
            k <= names.len(),
            dns == names.deep_view(),
            des == eligible.deep_view(),
            distinct_names(des),
            forall|a: int, b: int| 0 <= a < b < k ==> (#[trigger] dns[a]) != (#[trigger] dns[b]),
            forall|a: int| 0 <= a < k ==> holds_name(des, #[trigger] dns[a]),
            order.len() == k,
            forall|a: int| 0 <= a < k ==> (#[trigger] order.deep_view()[a]) == des[name_index(
                des,
                dns[a],
            )],
        decreases names.len() - k,
    {
        if name_in_prefix(names, k, &names[k]) {
            proof {
                let j = choose|j: int| 0 <= j < k && dns[j] == dns[k as int];
                assert(offending_name(dns[k as int], dns, des));
                assert(!distinct_name_list(dns));
            }
            return Err(DeriveError::UnresolvedCycleName(names[k].clone()));
        }
        match find_variant(eligible, &names[k]) {
            None => {
                proof {
                    assert(dns.contains(dns[k as int]));
                    assert(offending_name(dns[k as int], dns, des));
                }
                return Err(DeriveError::UnresolvedCycleName(names[k].clone()));
            },
            Some(i) => {
                let ghost prev = order.deep_view();
                order.push(eligible[i].clone());
                proof {
                    lemma_name_index(des, dns[k as int], i as int);
                    assert(order.deep_view() =~= prev.push(des[i as int]));
                }
            },
        }
        k = k + 1;
    }
    // every eligible variant must be named
    let mut j: usize = 0;
    while j < eligible.len()
        invariant
            j <= eligible.len(),
            dns == names.deep_view(),
            des == eligible.deep_view(),
            distinct_names(des),
            distinct_name_list(dns),
            forall|a: int| 0 <= a < dns.len() ==> holds_name(des, #[trigger] dns[a]),
            order.len() == names.len(),
            forall|a: int| 0 <= a < dns.len() ==> (#[trigger] order.deep_view()[a]) == des[
                name_index(des, dns[a])],
            forall|a: int| 0 <= a < j ==> dns.contains(#[trigger] des[a].name),
        decreases eligible.len() - j,
    {
        match find_in_names(names, &eligible[j].name) {
            Some(_) => {},
            None => {
                proof {
                    assert(holds_name(des, des[j as int].name));
                    assert(offending_name(des[j as int].name, dns, des));
                }
                return Err(DeriveError::UnresolvedCycleName(eligible[j].name.clone()));
            },
        }
        j = j + 1;
    }
    proof {
        assert(order.deep_view() =~= reordered(des, dns));
    }
    Ok(order)
}

/// The position of `name` in the list, searched in order.
fn find_in_names(ns: &Vec<String>, name: &String) -> (r: Option<usize>)
    ensures
        match r {
            Option::Some(i) => i < ns.len() && ns.deep_view()[i as int] == name@,
            Option::None => !ns.deep_view().contains(name@),
        },
{
    let ghost dns = ns.deep_view();
    let mut i: usize = 0;
    while i < ns.len()
        invariant
            i <= ns.len(),
            dns == ns.deep_view(),
            forall|j: int| 0 <= j < i ==> (#[trigger] dns[j]) != name@,
        decreases ns.len() - i,
    {
        if ns[i] == *name {
            proof {
                assert(dns[i as int] == name@);
            }
            return Some(i);
        }
        i = i + 1;
    }
    proof {
        assert forall|j: int| 0 <= j < dns.len() implies dns[j] != name@ by {}
    }
    None
}

// ---------------------------------------------------------------------------
// The plan
// ---------------------------------------------------------------------------

/// A planned cycle: the eligible variants in cycle order.
#[derive(Debug, PartialEq, Eq)]
pub struct CyclePlan {
    pub order: Vec<VariantDescriptor>,
}

impl View for CyclePlan {
    type V = Seq<VariantModel>;

    open spec fn view(&self) -> Seq<VariantModel> {
        self.order.deep_view()
    }
}

/// A well-formed cycle order: at least two variants, none excluded, all
/// names distinct.
pub open spec fn plan_wf(order: Seq<VariantModel>) -> bool {
    &&& order.len() >= 2
    &&& distinct_names(order)
    &&& forall|i: int| 0 <= i < order.len() ==> !(#[trigger] order[i]).excluded
}

/// The position one step away from `i` in a cycle of length `n`: the next
/// position for `Up`, the previous for `Down`, wrapping around.
pub open spec fn step_index(i: int, n: int, direction: Direction) -> int {
    match direction {
        Direction::Up => if i + 1 == n {
            0
        } else {
            i + 1
        },
        Direction::Down => if i == 0 {
            n - 1
        } else {
            i - 1
        },
    }
}

/// The variant one step away from the one named `name` in cycle order.
pub open spec fn cycle_target(
    order: Seq<VariantModel>,
    name: Seq<char>,
    direction: Direction,
) -> VariantModel {
    order[step_index(name_index(order, name), order.len() as int, direction)]
}

/// The cycle order a target's variants resolve to: declaration order
/// restricted to the eligible variants, or the override's order.
pub open spec fn planned_order(
    vs: Seq<VariantModel>,
    cycle_order: Option<Seq<Seq<char>>>,
) -> Seq<VariantModel> {
    match cycle_order {
        Option::None => eligible_models(vs),
        Option::Some(ns) => reordered(eligible_models(vs), ns),
    }
}

/// Whether planning succeeds: at least two eligible variants, and any
/// override an exact reordering of them.
pub open spec fn plan_accepted(vs: Seq<VariantModel>, cycle_order: Option<Seq<Seq<char>>>) -> bool {
    &&& eligible_models(vs).len() >= 2
    &&& match cycle_order {
        Option::None => true,
        Option::Some(ns) => valid_override(ns, eligible_models(vs)),
    }
}

/// A valid override of a cycle of at least two variants names at least two.
pub proof fn lemma_override_min_len(ns: Seq<Seq<char>>, es: Seq<VariantModel>)
    requires
        distinct_names(es),
        es.len() >= 2,
        valid_override(ns, es),
    ensures
        ns.len() >= 2,
{
    assert(ns.contains(es[0].name));
    assert(ns.contains(es[1].name));
    let a = choose|a: int| 0 <= a < ns.len() && ns[a] == es[0].name;
    let b = choose|b: int| 0 <= b < ns.len() && ns[b] == es[1].name;
    assert(es[0].name != es[1].name);
    assert(a != b);
}

/// An override's resolution is well formed and carries the override's names
/// in the override's order.
pub proof fn lemma_reordered_props(es: Seq<VariantModel>, ns: Seq<Seq<char>>)
    requires
        distinct_names(es),
        es.len() >= 2,
        valid_override(ns, es),
    ensures
        reordered(es, ns).len() == ns.len(),
        forall|k: int| 0 <= k < ns.len() ==> (#[trigger] reordered(es, ns)[k]).name == ns[k],
        forall|k: int| 0 <= k < ns.len() ==> drawn_from(es, #[trigger] reordered(es, ns)[k]),
        plan_wf(reordered(es, ns)) <==> (forall|i: int|
            0 <= i < es.len() ==> !(#[trigger] es[i]).excluded),
{
    lemma_override_min_len(ns, es);
    assert forall|k: int| 0 <= k < ns.len() implies (#[trigger] reordered(es, ns)[k]).name
        == ns[k] by {
        assert(holds_name(es, ns[k]));
        let i = name_index(es, ns[k]);
        assert(0 <= i < es.len() && es[i].name == ns[k]);
    }
    assert forall|k: int| 0 <= k < ns.len() implies drawn_from(
        es,
        #[trigger] reordered(es, ns)[k],
    ) by {
        assert(holds_name(es, ns[k]));
        let i = name_index(es, ns[k]);
        assert(0 <= i < es.len() && es[i] == reordered(es, ns)[k]);
    }
    if forall|i: int| 0 <= i < es.len() ==> !(#[trigger] es[i]).excluded {
        assert forall|k: int| 0 <= k < reordered(es, ns).len() implies !(#[trigger] reordered(
            es,
            ns,
        )[k]).excluded by {
            assert(drawn_from(es, reordered(es, ns)[k]));
            let j = choose|j: int| 0 <= j < es.len() && (#[trigger] es[j]) == reordered(es, ns)[k];
        }
        assert(distinct_names(reordered(es, ns)));
    } else {
        let i = choose|i: int| 0 <= i < es.len() && (#[trigger] es[i]).excluded;
        if plan_wf(reordered(es, ns)) {
            assert(ns.contains(es[i].name));
            let k = choose|k: int| 0 <= k < ns.len() && ns[k] == es[i].name;
            assert(reordered(es, ns)[k].name == es[i].name);
            assert(reordered(es, ns)[k] == es[name_index(es, ns[k])]);
            lemma_name_index(es, es[i].name, i);
            assert(reordered(es, ns)[k] == es[i]);
        }
    }
}

/// Plans the cycle for a list of declared variants and an optional override
/// order: validates the derivation and fixes the cycle order.
pub fn plan_cycle(
    variants: &Vec<VariantDescriptor>,
    cycle_order: &Option<Vec<String>>,
) -> (r: Result<CyclePlan, DeriveError>)
    requires
        distinct_names(variants.deep_view()),
    ensures
        match r {
            Result::Ok(plan) => plan_accepted(variants.deep_view(), cycle_order.deep_view())
                && plan@ == planned_order(variants.deep_view(), cycle_order.deep_view())
                && plan_wf(plan@) && plan@.len() == eligible_models(
                variants.deep_view(),
            ).len(),
            Result::Err(e) => !plan_accepted(variants.deep_view(), cycle_order.deep_view()) && (
            if eligible_models(variants.deep_view()).len() < 2 {
                e@ == ErrorModel::InsufficientVariants
            } else {
                (cycle_order.deep_view() matches Option::Some(ns) && (e@
                    matches ErrorModel::UnresolvedCycleName(x) && offending_name(
                    x,
                    ns,
                    eligible_models(variants.deep_view()),
                )))
            }),
        },
{
    let ghost dvs = variants.deep_view();
    let eligible = eligible_variants(variants);
    proof {
        lemma_eligible_props(dvs);
        assert(eligible.len() == eligible.deep_view().len());
    }
    if eligible.len() < 2 {
        return Err(DeriveError::InsufficientVariants);
    }
    match cycle_order {
        None => {
            proof {
                assert(plan_wf(eligible.deep_view()));
            }
            Ok(CyclePlan { order: eligible })
        },
        Some(names) => {
            match resolve_cycle_order(names, &eligible) {
                Ok(order) => {
                    proof {
                        lemma_reordered_props(eligible.deep_view(), names.deep_view());
                        lemma_override_exact(names.deep_view(), eligible.deep_view());
                    }
                    Ok(CyclePlan { order })
                },
                Err(e) => Err(e),
            }
        },
    }
}

impl CyclePlan {
    /// The variant one step away from the one named `name`, wrapping around:
    /// the successor for `Up`, the predecessor for `Down`. `None` when no
    /// variant of the cycle carries the name.
    pub fn neighbour(&self, name: &String, direction: Direction) -> (r: Option<VariantDescriptor>)
        requires
            plan_wf(self@),
        ensures
            match r {
                Option::Some(d) => holds_name(self@, name@) && d@ == cycle_target(
                    self@,
                    name@,
                    direction,
                ),
                Option::None => !holds_name(self@, name@),
            },
    {
        let n = self.order.len();
        proof {
            assert(n == self@.len());
        }
        match find_variant(&self.order, name) {
            None => None,
            Some(i) => {
                proof {
                    lemma_name_index(self@, name@, i as int);
                }
                let t: usize = match direction {
                    Direction::Up => if i + 1 == n {
                        0
                    } else {
                        i + 1
                    },
                    Direction::Down => if i == 0 {
                        n - 1
                    } else {
                        i - 1
                    },
                };
                Some(self.order[t].clone())
            },
        }
    }

    /// The cyclic successor of the variant named `name`.
    pub fn successor(&self, name: &String) -> (r: Option<VariantDescriptor>)
        requires
            plan_wf(self@),
        ensures
            match r {
                Option::Some(d) => holds_name(self@, name@) && d@ == cycle_target(
                    self@,
                    name@,
                    Direction::Up,
                ),
                Option::None => !holds_name(self@, name@),
            },
    {
        self.neighbour(name, Direction::Up)
    }

    /// The cyclic predecessor of the variant named `name`.
    pub fn predecessor(&self, name: &String) -> (r: Option<VariantDescriptor>)
        requires
            plan_wf(self@),
        ensures
            match r {
                Option::Some(d) => holds_name(self@, name@) && d@ == cycle_target(
                    self@,
                    name@,
                    Direction::Down,
                ),
                Option::None => !holds_name(self@, name@),
            },
    {
        self.neighbour(name, Direction::Down)
    }
}

} // verus!
