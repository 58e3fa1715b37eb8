//! Scheduling the actions of a pipeline so that every action runs after the
//! actions it depends on.
use vstd::prelude::*;
use vstd::set_lib::*;
use crate::actions::Action;
use crate::errors::{DeployerError, ErrorView};

verus! {

/// The text of the error that an unschedulable list of actions gives.
pub open spec fn cycle_message() -> Seq<char> {
    "cycle in dependencies"@
}

/// No two actions share an identifier.
pub open spec fn distinct_ids(actions: Seq<Action>) -> bool {
    forall|i: int, j: int| 0 <= i < j < actions.len() ==> actions[i].id@ != actions[j].id@
}

/// No action names the same dependency twice.
pub open spec fn distinct_dependencies(actions: Seq<Action>) -> bool {
    forall|i: int, a: int, b: int|
        0 <= i < actions.len() && 0 <= a < b < actions[i].dependencies().len()
            ==> actions[i].dependencies()[a] != actions[i].dependencies()[b]
}

/// `order` lists each of the positions `0..n` exactly once.
pub open spec fn is_arrangement(order: Seq<int>, n: nat) -> bool {
    &&& order.len() == n
    &&& forall|k: int| 0 <= k < order.len() ==> 0 <= #[trigger] order[k] < n
    &&& order.no_duplicates()
}

/// An action with identifier `id` stands in `order` before position `k`.
pub open spec fn placed_before(actions: Seq<Action>, order: Seq<int>, k: int, id: Seq<char>) -> bool {
    exists|j: int| 0 <= j < k && j < order.len() && #[trigger] actions[order[j]].id@ == id
}

/// Every dependency of the action `v` stands in `order` before position `k`.
pub open spec fn dependencies_placed(actions: Seq<Action>, order: Seq<int>, k: int, v: int) -> bool {
    forall|d: int|
        0 <= d < actions[v].dependencies().len() ==> placed_before(
            actions,
            order,
            k,
            #[trigger] actions[v].dependencies()[d],
        )
}

/// Every action stands in `order` after all of its dependencies.
pub open spec fn respects_dependencies(actions: Seq<Action>, order: Seq<int>) -> bool {
    forall|k: int| 0 <= k < order.len() ==> #[trigger] dependencies_placed(actions, order, k, order[k])
}

/// With `h` actions placed, the action `v` can be released, and with fewer
/// it cannot: `h` is the turn at which `v` is released.
pub open spec fn is_release(actions: Seq<Action>, order: Seq<int>, v: int, h: int) -> bool {
    &&& 0 <= h
    &&& dependencies_placed(actions, order, h, v)
    &&& forall|g: int| 0 <= g < h ==> !dependencies_placed(actions, order, g, v)
}

/// The actions stand in `order` first in, first out: an action that is
/// released at an earlier turn stands before one released later, and of two
/// released at one turn the one that is declared first stands first.
pub open spec fn released_in_turn(actions: Seq<Action>, order: Seq<int>) -> bool {
    forall|i: int, j: int, hi: int, hj: int|
        0 <= i < j < order.len() && #[trigger] is_release(actions, order, order[i], hi)
            && #[trigger] is_release(actions, order, order[j], hj) ==> hi < hj || (hi == hj
            && order[i] < order[j])
}

/// `order` is a schedule of `actions`: every position once, dependencies first.
pub open spec fn is_schedule(actions: Seq<Action>, order: Seq<int>) -> bool {
    &&& is_arrangement(order, actions.len())
    &&& respects_dependencies(actions, order)
}

/// The actions can be scheduled: identifiers and dependency lists hold no
/// duplicates, and some order puts every action after all its dependencies.
pub open spec fn schedulable(actions: Seq<Action>) -> bool {
    &&& distinct_ids(actions)
    &&& distinct_dependencies(actions)
    &&& exists|order: Seq<int>| is_schedule(actions, order)
}

/// The actions taken in the order that `order` gives.
pub open spec fn arranged(actions: Seq<Action>, order: Seq<int>) -> Seq<Action> {
    Seq::new(order.len(), |k: int| actions[order[k]])
}

/// Every dependency of every action is the identifier of some action.
pub open spec fn dependencies_exist(actions: Seq<Action>) -> bool {
    forall|i: int, d: int|
        0 <= i < actions.len() && 0 <= d < actions[i].dependencies().len() ==> exists|j: int|
            0 <= j < actions.len() && #[trigger] actions[j].id@ == #[trigger] actions[i].dependencies()[d]
}

/// The action `from` names the action `to` among its dependencies.
pub open spec fn depends_directly(actions: Seq<Action>, from: int, to: int) -> bool {
    exists|d: int|
        0 <= d < actions[from].dependencies().len() && #[trigger] actions[from].dependencies()[d]
            == actions[to].id@
}

/// `walk` follows dependency edges from action to action.
pub open spec fn is_dependency_walk(actions: Seq<Action>, walk: Seq<int>) -> bool {
    &&& forall|t: int| 0 <= t < walk.len() ==> 0 <= #[trigger] walk[t] < actions.len()
    &&& forall|t: int|
        0 <= t < walk.len() - 1 ==> #[trigger] depends_directly(actions, walk[t], walk[t + 1])
}

/// Some action reaches itself along one or more dependency edges.
pub open spec fn has_cycle(actions: Seq<Action>) -> bool {
    exists|walk: Seq<int>|
        walk.len() >= 2 && #[trigger] is_dependency_walk(actions, walk) && walk[0] == walk.last()
}

/// A list of positions, each taken as a mathematical integer.
pub open spec fn positions(order: Seq<usize>) -> Seq<int> {
    Seq::new(order.len(), |k: int| order[k] as int)
}

/// Positions below `n` without repetition: what a partial schedule holds.
pub open spec fn is_partial_arrangement(order: Seq<int>, n: nat) -> bool {
    &&& forall|k: int| 0 <= k < order.len() ==> 0 <= #[trigger] order[k] < n
    &&& order.no_duplicates()
}

proof fn lemma_partial_arrangement_is_short(order: Seq<int>, n: nat)
    requires
        is_partial_arrangement(order, n),
    ensures
        order.len() <= n,
{
    let range = set_int_range(0, n as int);
    lemma_int_range(0, n as int);
    order.unique_seq_to_set();
    assert(order.to_set().subset_of(range)) by {
        assert forall|x: int| order.to_set().contains(x) implies range.contains(x) by {
            let k = choose|k: int| 0 <= k < order.len() && order[k] == x;
            assert(0 <= order[k] < n);
        }
    }
    lemma_len_subset(order.to_set(), range);
}

proof fn lemma_placement_ignores_later_positions(
    actions: Seq<Action>,
    order: Seq<int>,
    longer: Seq<int>,
    k: int,
    v: int,
)
    requires
        k <= order.len() <= longer.len(),
        forall|j: int| 0 <= j < order.len() ==> order[j] == longer[j],
    ensures
        dependencies_placed(actions, longer, k, v) == dependencies_placed(actions, order, k, v),
{
    assert forall|id: Seq<char>|
        placed_before(actions, longer, k, id) == placed_before(actions, order, k, id) by {
        if placed_before(actions, longer, k, id) {
            let j = choose|j: int| 0 <= j < k && j < longer.len() && actions[longer[j]].id@ == id;
            assert(actions[order[j]].id@ == id);
        }
        if placed_before(actions, order, k, id) {
            let j = choose|j: int| 0 <= j < k && j < order.len() && actions[order[j]].id@ == id;
            assert(actions[longer[j]].id@ == id);
        }
    }
}

proof fn lemma_placement_grows(actions: Seq<Action>, order: Seq<int>, k: int, later: int, v: int)
    requires
        k <= later,
        dependencies_placed(actions, order, k, v),
    ensures
        dependencies_placed(actions, order, later, v),
{
    assert forall|d: int| 0 <= d < actions[v].dependencies().len() implies placed_before(
        actions,
        order,
        later,
        #[trigger] actions[v].dependencies()[d],
    ) by {
        let id = actions[v].dependencies()[d];
        assert(placed_before(actions, order, k, id));
        let j = choose|j: int| 0 <= j < k && j < order.len() && actions[order[j]].id@ == id;
        assert(actions[order[j]].id@ == id);
    }
}

/// Every action among the first `k` of the schedule `full` stands in `order`,
/// if `order` holds every action whose dependencies it has placed.
proof fn lemma_schedule_prefix_reached(
    actions: Seq<Action>,
    order: Seq<int>,
    full: Seq<int>,
    k: int,
)
    requires
        is_schedule(actions, full),
        0 <= k <= full.len(),
        forall|v: int|
            0 <= v < actions.len() && !order.contains(v) ==> !#[trigger] dependencies_placed(
                actions,
                order,
                order.len() as int,
                v,
            ),
    ensures
        forall|j: int| 0 <= j < k ==> order.contains(#[trigger] full[j]),
    decreases k,
{
    if k > 0 {
        lemma_schedule_prefix_reached(actions, order, full, k - 1);
        let v = full[k - 1];
        assert(0 <= v < actions.len());
        assert(dependencies_placed(actions, full, k - 1, full[k - 1]));
        assert(dependencies_placed(actions, order, order.len() as int, v)) by {
            assert forall|d: int| 0 <= d < actions[v].dependencies().len() implies placed_before(
                actions,
                order,
                order.len() as int,
                #[trigger] actions[v].dependencies()[d],
            ) by {
                let id = actions[v].dependencies()[d];
                assert(placed_before(actions, full, k - 1, id));
                let j = choose|j: int|
                    0 <= j < k - 1 && j < full.len() && actions[full[j]].id@ == id;
                assert(order.contains(full[j]));
                let p = choose|p: int| 0 <= p < order.len() && order[p] == full[j];
                assert(actions[order[p]].id@ == id);
            }
        }
        assert(order.contains(v));
    }
}

/// A partial schedule that has placed every action it could, and still lacks
/// one, shows that no schedule exists.
proof fn lemma_stuck_means_unschedulable(actions: Seq<Action>, order: Seq<int>)
    requires
        is_partial_arrangement(order, actions.len()),
        order.len() < actions.len(),
        forall|v: int|
            0 <= v < actions.len() && !order.contains(v) ==> !#[trigger] dependencies_placed(
                actions,
                order,
                order.len() as int,
                v,
            ),
    ensures
        !exists|full: Seq<int>| is_schedule(actions, full),
{
    if exists|full: Seq<int>| is_schedule(actions, full) {
        let full = choose|full: Seq<int>| is_schedule(actions, full);
        lemma_schedule_prefix_reached(actions, order, full, full.len() as int);
        full.unique_seq_to_set();
        order.unique_seq_to_set();
        assert(full.to_set().subset_of(order.to_set())) by {
            assert forall|x: int| full.to_set().contains(x) implies order.to_set().contains(x) by {
                let j = choose|j: int| 0 <= j < full.len() && full[j] == x;
                assert(order.contains(full[j]));
            }
        }
        lemma_len_subset(full.to_set(), order.to_set());
    }
}

/// In a schedule every position occurs.
proof fn lemma_schedule_holds_every_position(actions: Seq<Action>, full: Seq<int>, v: int)
    requires
        is_arrangement(full, actions.len()),
        0 <= v < actions.len(),
    ensures
        full.contains(v),
{
    let n = actions.len();
    let range = set_int_range(0, n as int);
    lemma_int_range(0, n as int);
    full.unique_seq_to_set();
    assert(full.to_set().subset_of(range)) by {
        assert forall|x: int| full.to_set().contains(x) implies range.contains(x) by {
            let k = choose|k: int| 0 <= k < full.len() && full[k] == x;
            assert(0 <= full[k] < n);
        }
    }
    lemma_subset_equality(full.to_set(), range);
    assert(range.contains(v));
    assert(full.to_set().contains(v));
}

/// Along a dependency walk the place in a schedule goes down at each step.
proof fn lemma_walk_descends(actions: Seq<Action>, full: Seq<int>, walk: Seq<int>, t: int)
    requires
        distinct_ids(actions),
        is_schedule(actions, full),
        is_dependency_walk(actions, walk),
        0 <= t < walk.len(),
    ensures
        full.contains(walk[t]),
        full.contains(walk[0]),
        full.index_of(walk[t]) + t <= full.index_of(walk[0]),
    decreases t,
{
    lemma_schedule_holds_every_position(actions, full, walk[0]);
    lemma_schedule_holds_every_position(actions, full, walk[t]);
    if t > 0 {
        lemma_walk_descends(actions, full, walk, t - 1);
        let from = walk[t - 1];
        let to = walk[t];
        lemma_schedule_holds_every_position(actions, full, from);
        let k = full.index_of(from);
        assert(depends_directly(actions, walk[t - 1], walk[t - 1 + 1]));
        let d = choose|d: int|
            0 <= d < actions[from].dependencies().len() && #[trigger] actions[from].dependencies()[d]
                == actions[to].id@;
        assert(dependencies_placed(actions, full, k, full[k]));
        assert(placed_before(actions, full, k, actions[from].dependencies()[d]));
        let j = choose|j: int|
            0 <= j < k && j < full.len() && actions[full[j]].id@ == actions[to].id@;
        assert(0 <= full[j] < actions.len());
        assert(full[j] == to);
        full.index_of_first_ensures(to);
        assert(full.index_of(to) == j) by {
            let p = full.index_of(to);
            if p != j {
                assert(full[p] == full[j]);
            }
        }
    }
}

/// Actions that depend on one another in a circle cannot be scheduled.
pub proof fn lemma_cycle_is_unschedulable(actions: Seq<Action>)
    requires
        has_cycle(actions),
    ensures
        !schedulable(actions),
{
    if schedulable(actions) {
        let full = choose|full: Seq<int>| is_schedule(actions, full);
        let walk = choose|walk: Seq<int>|
            walk.len() >= 2 && #[trigger] is_dependency_walk(actions, walk) && walk[0]
                == walk.last();
        lemma_walk_descends(actions, full, walk, walk.len() - 1);
    }
}

/// A position that `order` lacks and whose direct dependency `order` lacks too.
spec fn unplaced_dependency(actions: Seq<Action>, order: Seq<int>, v: int) -> int {
    choose|u: int|
        0 <= u < actions.len() && !order.contains(u) && depends_directly(actions, v, u)
}

/// The walk that starts at `start` and takes `steps` steps, each to an
/// unplaced dependency of the position before.
spec fn unplaced_walk(actions: Seq<Action>, order: Seq<int>, start: int, steps: nat) -> Seq<int>
    decreases steps,
{
    if steps == 0 {
        seq![start]
    } else {
        let shorter = unplaced_walk(actions, order, start, (steps - 1) as nat);
        shorter.push(unplaced_dependency(actions, order, shorter.last()))
    }
}

proof fn lemma_unplaced_has_unplaced_dependency(actions: Seq<Action>, order: Seq<int>, v: int)
    requires
        dependencies_exist(actions),
        0 <= v < actions.len(),
        !order.contains(v),
        !dependencies_placed(actions, order, order.len() as int, v),
        forall|k: int| 0 <= k < order.len() ==> 0 <= #[trigger] order[k] < actions.len(),
    ensures
        ({
            let u = unplaced_dependency(actions, order, v);
            0 <= u < actions.len() && !order.contains(u) && depends_directly(actions, v, u)
        }),
{
    let d = choose|d: int|
        0 <= d < actions[v].dependencies().len() && !placed_before(
            actions,
            order,
            order.len() as int,
            #[trigger] actions[v].dependencies()[d],
        );
    let id = actions[v].dependencies()[d];
    let u = choose|u: int| 0 <= u < actions.len() && #[trigger] actions[u].id@ == id;
    if order.contains(u) {
        let p = choose|p: int| 0 <= p < order.len() && order[p] == u;
        assert(actions[order[p]].id@ == id);
    }
    assert(depends_directly(actions, v, u));
}

proof fn lemma_unplaced_walk(actions: Seq<Action>, order: Seq<int>, start: int, steps: nat)
    requires
        dependencies_exist(actions),
        0 <= start < actions.len(),
        !order.contains(start),
        forall|k: int| 0 <= k < order.len() ==> 0 <= #[trigger] order[k] < actions.len(),
        forall|v: int|
            0 <= v < actions.len() && !order.contains(v) ==> !#[trigger] dependencies_placed(
                actions,
                order,
                order.len() as int,
                v,
            ),
    ensures
        ({
            let walk = unplaced_walk(actions, order, start, steps);
            &&& walk.len() == steps + 1
            &&& is_dependency_walk(actions, walk)
            &&& forall|t: int| 0 <= t < walk.len() ==> !order.contains(#[trigger] walk[t])
        }),
    decreases steps,
{
    if steps > 0 {
        lemma_unplaced_walk(actions, order, start, (steps - 1) as nat);
        let shorter = unplaced_walk(actions, order, start, (steps - 1) as nat);
        let walk = unplaced_walk(actions, order, start, steps);
        assert(0 <= shorter[shorter.len() - 1] < actions.len());
        assert(!order.contains(shorter[shorter.len() - 1]));
        lemma_unplaced_has_unplaced_dependency(actions, order, shorter.last());
        assert forall|t: int| 0 <= t < walk.len() - 1 implies #[trigger] depends_directly(
            actions,
            walk[t],
            walk[t + 1],
        ) by {
            if t < shorter.len() - 1 {
                assert(depends_directly(actions, shorter[t], shorter[t + 1]));
            }
        }
    } else {
        let walk = unplaced_walk(actions, order, start, steps);
        assert(walk.len() == 1);
    }
}

/// Where every action that is not yet placed still waits for another such
/// action, some action waits for itself.
proof fn lemma_stuck_has_cycle(actions: Seq<Action>, order: Seq<int>)
    requires
        dependencies_exist(actions),
        is_partial_arrangement(order, actions.len()),
        order.len() < actions.len(),
        forall|v: int|
            0 <= v < actions.len() && !order.contains(v) ==> !#[trigger] dependencies_placed(
                actions,
                order,
                order.len() as int,
                v,
            ),
    ensures
        has_cycle(actions),
{
    let n = actions.len();
    let start = choose|v: int| 0 <= v < n && !order.contains(v);
    assert(0 <= start < n && !order.contains(start)) by {
        if forall|v: int| 0 <= v < n ==> order.contains(v) {
            let all = Seq::new(n, |i: int| i);
            all.unique_seq_to_set();
            order.unique_seq_to_set();
            assert(all.to_set().subset_of(order.to_set())) by {
                assert forall|x: int| all.to_set().contains(x) implies order.to_set().contains(
                    x,
                ) by {
                    let k = choose|k: int| 0 <= k < all.len() && all[k] == x;
                    assert(order.contains(x));
                }
            }
            lemma_len_subset(all.to_set(), order.to_set());
        }
    }
    lemma_unplaced_walk(actions, order, start, n);
    let walk = unplaced_walk(actions, order, start, n);
    if walk.no_duplicates() {
        lemma_partial_arrangement_is_short(walk, n);
    }
    let (a, b) = choose|a: int, b: int|
        0 <= a < walk.len() && 0 <= b < walk.len() && a != b && walk[a] == walk[b];
    let (lo, hi) = if a < b {
        (a, b)
    } else {
        (b, a)
    };
    let circle = walk.subrange(lo, hi + 1);
    assert(is_dependency_walk(actions, circle)) by {
        assert forall|t: int| 0 <= t < circle.len() implies 0 <= #[trigger] circle[t] < n by {
            assert(circle[t] == walk[lo + t]);
        }
        assert forall|t: int| 0 <= t < circle.len() - 1 implies #[trigger] depends_directly(
            actions,
            circle[t],
            circle[t + 1],
        ) by {
            assert(depends_directly(actions, walk[lo + t], walk[lo + t + 1]));
        }
    }
    assert(circle[0] == circle.last());
}

/// Extends a partial schedule to a full one, where no action waits for itself.
proof fn lemma_partial_schedule_extends(actions: Seq<Action>, order: Seq<int>)
    requires
        dependencies_exist(actions),
        !has_cycle(actions),
        is_partial_arrangement(order, actions.len()),
        respects_dependencies(actions, order),
    ensures
        exists|full: Seq<int>| is_schedule(actions, full),
    decreases actions.len() - order.len(),
{
    lemma_partial_arrangement_is_short(order, actions.len());
    if order.len() == actions.len() {
        assert(is_schedule(actions, order));
    } else {
        if exists|v: int|
            0 <= v < actions.len() && !order.contains(v) && dependencies_placed(
                actions,
                order,
                order.len() as int,
                v,
            ) {
            let v = choose|v: int|
                0 <= v < actions.len() && !order.contains(v) && dependencies_placed(
                    actions,
                    order,
                    order.len() as int,
                    v,
                );
            let longer = order.push(v);
            assert forall|k: int| 0 <= k < longer.len() implies #[trigger] dependencies_placed(
                actions,
                longer,
                k,
                longer[k],
            ) by {
                if k < order.len() {
                    assert(dependencies_placed(actions, order, k, order[k]));
                }
                lemma_placement_ignores_later_positions(actions, order, longer, k, longer[k]);
            }
            lemma_partial_schedule_extends(actions, longer);
        } else {
            lemma_stuck_has_cycle(actions, order);
        }
    }
}

/// Actions with distinct identifiers, whose dependencies all exist and are
/// each listed once, can be scheduled if none of them depends on itself
/// through a chain of dependencies.
pub proof fn lemma_acyclic_is_schedulable(actions: Seq<Action>)
    requires
        distinct_ids(actions),
        distinct_dependencies(actions),
        dependencies_exist(actions),
        !has_cycle(actions),
    ensures
        schedulable(actions),
{
    let nothing = Seq::<int>::empty();
    assert(respects_dependencies(actions, nothing));
    lemma_partial_schedule_extends(actions, nothing);
}

/// The turns at which the actions of `order` were released, with no turn
/// later than `head`: each is the release turn of its action, and the
/// actions stand by turn, and within a turn by position of declaration.
spec fn turns_recorded(actions: Seq<Action>, order: Seq<int>, times: Seq<int>, head: int) -> bool {
    &&& times.len() == order.len()
    &&& forall|k: int|
        0 <= k < order.len() ==> 0 <= #[trigger] times[k] <= head && is_release(
            actions,
            order,
            order[k],
            times[k],
        )
    &&& forall|i: int, j: int|
        0 <= i < j < order.len() ==> #[trigger] times[i] < #[trigger] times[j] || (times[i]
            == times[j] && order[i] < order[j])
}

/// No action that `order` lacks could be released at a turn before `head`.
spec fn waiting_since(actions: Seq<Action>, order: Seq<int>, head: int) -> bool {
    forall|u: int, g: int|
        0 <= u < actions.len() && !order.contains(u) && 0 <= g < head
            ==> !#[trigger] dependencies_placed(actions, order, g, u)
}

/// The actions released at the turn `head` are declared before `v`.
spec fn scan_passed(order: Seq<int>, times: Seq<int>, head: int, v: int) -> bool {
    forall|k: int| 0 <= k < order.len() && #[trigger] times[k] == head ==> order[k] < v
}

proof fn lemma_release_is_unique(actions: Seq<Action>, order: Seq<int>, v: int, h: int, other: int)
    requires
        is_release(actions, order, v, h),
        is_release(actions, order, v, other),
    ensures
        h == other,
{
}

proof fn lemma_release_ignores_later_positions(
    actions: Seq<Action>,
    order: Seq<int>,
    longer: Seq<int>,
    v: int,
    h: int,
)
    requires
        0 <= h <= order.len() <= longer.len(),
        forall|j: int| 0 <= j < order.len() ==> order[j] == longer[j],
    ensures
        is_release(actions, longer, v, h) == is_release(actions, order, v, h),
{
    lemma_placement_ignores_later_positions(actions, order, longer, h, v);
    assert forall|g: int| 0 <= g < h implies dependencies_placed(actions, longer, g, v)
        == dependencies_placed(actions, order, g, v) by {
        lemma_placement_ignores_later_positions(actions, order, longer, g, v);
    }
}

proof fn lemma_release_keeps_turns(
    actions: Seq<Action>,
    order: Seq<int>,
    times: Seq<int>,
    head: int,
    v: int,
)
    requires
        0 <= head <= order.len(),
        0 <= v < actions.len(),
        !order.contains(v),
        turns_recorded(actions, order, times, head),
        waiting_since(actions, order, head),
        scan_passed(order, times, head, v),
        dependencies_placed(actions, order, head, v),
    ensures
        turns_recorded(actions, order.push(v), times.push(head), head),
        waiting_since(actions, order.push(v), head),
        scan_passed(order.push(v), times.push(head), head, v + 1),
{
    let longer = order.push(v);
    let turns = times.push(head);
    assert forall|k: int| 0 <= k < longer.len() implies 0 <= #[trigger] turns[k] <= head
        && is_release(actions, longer, longer[k], turns[k]) by {
        if k < order.len() {
            assert(0 <= times[k] <= head && is_release(actions, order, order[k], times[k]));
            lemma_release_ignores_later_positions(actions, order, longer, order[k], times[k]);
        } else {
            assert forall|g: int| 0 <= g < head implies !dependencies_placed(actions, order, g, v) by {
            }
            assert(is_release(actions, order, v, head));
            lemma_release_ignores_later_positions(actions, order, longer, v, head);
        }
    }
    assert forall|i: int, j: int| 0 <= i < j < longer.len() implies #[trigger] turns[i]
        < #[trigger] turns[j] || (turns[i] == turns[j] && longer[i] < longer[j]) by {
        if j < order.len() {
            assert(times[i] < times[j] || (times[i] == times[j] && order[i] < order[j]));
        } else {
            assert(0 <= times[i] <= head);
        }
    }
    assert forall|u: int, g: int|
        0 <= u < actions.len() && !longer.contains(u) && 0 <= g < head
        implies !#[trigger] dependencies_placed(actions, longer, g, u) by {
        if order.contains(u) {
            let p = choose|p: int| 0 <= p < order.len() && order[p] == u;
            assert(longer[p] == u);
        }
        assert(!dependencies_placed(actions, order, g, u));
        lemma_placement_ignores_later_positions(actions, order, longer, g, u);
    }
    assert forall|k: int| 0 <= k < longer.len() && #[trigger] turns[k] == head implies longer[k] < v
        + 1 by {
        if k < order.len() {
            assert(times[k] == head);
        }
    }
}

proof fn lemma_next_turn(actions: Seq<Action>, order: Seq<int>, times: Seq<int>, head: int)
    requires
        0 <= head,
        turns_recorded(actions, order, times, head),
        waiting_since(actions, order, head),
        forall|u: int|
            0 <= u < actions.len() && !order.contains(u) ==> !#[trigger] dependencies_placed(
                actions,
                order,
                head,
                u,
            ),
    ensures
        turns_recorded(actions, order, times, head + 1),
        waiting_since(actions, order, head + 1),
        scan_passed(order, times, head + 1, 0),
{
    assert forall|k: int| 0 <= k < order.len() implies 0 <= #[trigger] times[k] <= head + 1
        && is_release(actions, order, order[k], times[k]) by {
        assert(0 <= times[k] <= head);
    }
    assert forall|k: int| 0 <= k < order.len() && #[trigger] times[k] == head + 1 implies order[k]
        < 0 by {
        assert(times[k] <= head);
    }
}

proof fn lemma_turns_are_in_turn(actions: Seq<Action>, order: Seq<int>, times: Seq<int>, head: int)
    requires
        turns_recorded(actions, order, times, head),
    ensures
        released_in_turn(actions, order),
{
    assert forall|i: int, j: int, hi: int, hj: int|
        0 <= i < j < order.len() && #[trigger] is_release(actions, order, order[i], hi)
            && #[trigger] is_release(actions, order, order[j], hj) implies hi < hj || (hi == hj
        && order[i] < order[j]) by {
        assert(is_release(actions, order, order[i], times[i]));
        assert(is_release(actions, order, order[j], times[j]));
        lemma_release_is_unique(actions, order, order[i], hi, times[i]);
        lemma_release_is_unique(actions, order, order[j], hj, times[j]);
        assert(times[i] < times[j] || (times[i] == times[j] && order[i] < order[j]));
    }
}

/// An action whose dependencies are placed before `k` has a release turn,
/// and none later than `k`.
proof fn lemma_release_exists(actions: Seq<Action>, order: Seq<int>, v: int, k: int)
    requires
        0 <= k,
        dependencies_placed(actions, order, k, v),
    ensures
        exists|h: int| 0 <= h <= k && is_release(actions, order, v, h),
    decreases k,
{
    if k > 0 && dependencies_placed(actions, order, k - 1, v) {
        lemma_release_exists(actions, order, v, k - 1);
        let h = choose|h: int| 0 <= h <= k - 1 && is_release(actions, order, v, h);
        assert(0 <= h <= k && is_release(actions, order, v, h));
    } else {
        assert forall|g: int| 0 <= g < k implies !dependencies_placed(actions, order, g, v) by {
            if dependencies_placed(actions, order, g, v) {
                lemma_placement_grows(actions, order, g, k - 1, v);
            }
        }
        assert(is_release(actions, order, v, k));
    }
}

/// Two schedules in which the actions stand first in, first out agree on
/// their first `k` positions.
proof fn lemma_schedules_agree(actions: Seq<Action>, first: Seq<int>, second: Seq<int>, k: int)
    requires
        is_schedule(actions, first),
        is_schedule(actions, second),
        released_in_turn(actions, first),
        released_in_turn(actions, second),
        0 <= k <= actions.len(),
    ensures
        forall|i: int| 0 <= i < k ==> first[i] == second[i],
    decreases k,
{
    if k > 0 {
        lemma_schedules_agree(actions, first, second, k - 1);
        let at = k - 1;
        let v = first[at];
        let w = second[at];
        if v != w {
            let start = first.subrange(0, at);
            assert(start =~= second.subrange(0, at));
            assert(dependencies_placed(actions, first, at, first[at]));
            assert(dependencies_placed(actions, second, at, second[at]));
            lemma_release_exists(actions, first, v, at);
            let h = choose|h: int| 0 <= h <= at && is_release(actions, first, v, h);
            lemma_release_exists(actions, second, w, at);
            let g = choose|g: int| 0 <= g <= at && is_release(actions, second, w, g);
            lemma_release_ignores_later_positions(actions, start, first, v, h);
            lemma_release_ignores_later_positions(actions, start, second, v, h);
            lemma_release_ignores_later_positions(actions, start, first, w, g);
            lemma_release_ignores_later_positions(actions, start, second, w, g);
            assert(0 <= v < actions.len());
            assert(0 <= w < actions.len());
            lemma_schedule_holds_every_position(actions, second, v);
            lemma_schedule_holds_every_position(actions, first, w);
            let p = choose|p: int| 0 <= p < second.len() && second[p] == v;
            let q = choose|q: int| 0 <= q < first.len() && first[q] == w;
            if p < at {
                assert(first[p] == second[p]);
                assert(first[p] == first[at]);
            }
            if q < at {
                assert(second[q] == first[q]);
                assert(second[q] == second[at]);
            }
            assert(at < p && at < q);
            assert(is_release(actions, second, second[at], g));
            assert(is_release(actions, second, second[p], h));
            assert(g < h || (g == h && w < v));
            assert(is_release(actions, first, first[at], h));
            assert(is_release(actions, first, first[q], g));
            assert(h < g || (h == g && v < w));
        }
    }
}

/// The schedule in which the actions stand first in, first out is the only
/// one: two such schedules are equal.
pub proof fn lemma_schedule_is_unique(actions: Seq<Action>, first: Seq<int>, second: Seq<int>)
    requires
        is_schedule(actions, first),
        is_schedule(actions, second),
        released_in_turn(actions, first),
        released_in_turn(actions, second),
    ensures
        first == second,
{
    lemma_schedules_agree(actions, first, second, actions.len() as int);
    assert(first =~= second);
}

fn has_duplicate_ids(actions: &Vec<Action>) -> (found: bool)
    ensures
        found == !distinct_ids(actions@),
{
    let n = actions.len();
    let mut j: usize = 0;
    while j < n
        invariant
            j <= n,
            n == actions@.len(),
            forall|a: int, b: int| 0 <= a < b < j ==> actions@[a].id@ != actions@[b].id@,
        decreases n - j,
    {
        let mut i: usize = 0;
        while i < j
            invariant
                i <= j < n,
                n == actions@.len(),
                forall|a: int| 0 <= a < i ==> actions@[a].id@ != actions@[j as int].id@,
            decreases j - i,
        {
            if actions[i].id == actions[j].id {
                return true;
            }
            i += 1;
        }
        j += 1;
    }
    false
}

fn list_has_duplicates(list: &Vec<String>) -> (found: bool)
    ensures
        found == exists|a: int, b: int| 0 <= a < b < list@.len() && list@[a]@ == list@[b]@,
{
    let n = list.len();
    let mut j: usize = 0;
    while j < n
        invariant
            j <= n,
            n == list@.len(),
            forall|a: int, b: int| 0 <= a < b < j ==> list@[a]@ != list@[b]@,
        decreases n - j,
    {
        let mut i: usize = 0;
        while i < j
            invariant
                i <= j < n,
                n == list@.len(),
                forall|a: int| 0 <= a < i ==> list@[a]@ != list@[j as int]@,
            decreases j - i,
        {
            if list[i] == list[j] {
                return true;
            }
            i += 1;
        }
        j += 1;
    }
    false
}

fn has_duplicate_dependencies(actions: &Vec<Action>) -> (found: bool)
    ensures
        found == !distinct_dependencies(actions@),
{
    let n = actions.len();
    let mut i: usize = 0;
    while i < n
        invariant
            i <= n,
            n == actions@.len(),
            forall|v: int, a: int, b: int|
                0 <= v < i && 0 <= a < b < actions@[v].dependencies().len()
                    ==> actions@[v].dependencies()[a] != actions@[v].dependencies()[b],
        decreases n - i,
    {
        match &actions[i].depends_on {
            Some(list) => {
                if list_has_duplicates(list) {
                    proof {
                        let (a, b) = choose|a: int, b: int|
                            0 <= a < b < list@.len() && list@[a]@ == list@[b]@;
                        assert(actions@[i as int].dependencies()[a] == actions@[i as int].dependencies()[b]);
                    }
                    return true;
                }
                assert forall|a: int, b: int|
                    0 <= a < b < actions@[i as int].dependencies().len()
                    implies actions@[i as int].dependencies()[a] != actions@[i as int].dependencies()[b] by {
                    assert(list@[a]@ != list@[b]@);
                }
            },
            None => {},
        }
        i += 1;
    }
    false
}

/// Tells whether an action with identifier `id` is among the first `head`
/// entries of `order`.
fn is_placed_before(actions: &Vec<Action>, order: &Vec<usize>, head: usize, id: &String) -> (found:
    bool)
    requires
        head <= order@.len(),
        forall|k: int| 0 <= k < order@.len() ==> order@[k] < actions@.len(),
    ensures
        found == placed_before(actions@, positions(order@), head as int, id@),
{
    let mut j: usize = 0;
    while j < head
        invariant
            j <= head <= order@.len(),
            forall|k: int| 0 <= k < order@.len() ==> order@[k] < actions@.len(),
            forall|k: int| 0 <= k < j ==> actions@[positions(order@)[k]].id@ != id@,
        decreases head - j,
    {
        if actions[order[j]].id == *id {
            assert(actions@[positions(order@)[j as int]].id@ == id@);
            return true;
        }
        j += 1;
    }
    false
}

/// Tells whether all dependencies of action `v` are among the first `head`
/// entries of `order`.
fn dependencies_ready(actions: &Vec<Action>, order: &Vec<usize>, head: usize, v: usize) -> (ready:
    bool)
    requires
        v < actions@.len(),
        head <= order@.len(),
        forall|k: int| 0 <= k < order@.len() ==> order@[k] < actions@.len(),
    ensures
        ready == dependencies_placed(actions@, positions(order@), head as int, v as int),
{
    match &actions[v].depends_on {
        None => true,
        Some(list) => {
            let m = list.len();
            let mut d: usize = 0;
            while d < m
                invariant
                    d <= m,
                    m == list@.len(),
                    v < actions@.len(),
                    actions@[v as int].depends_on == Some(*list),
                    head <= order@.len(),
                    forall|k: int| 0 <= k < order@.len() ==> order@[k] < actions@.len(),
                    forall|e: int|
                        0 <= e < d ==> placed_before(
                            actions@,
                            positions(order@),
                            head as int,
                            #[trigger] actions@[v as int].dependencies()[e],
                        ),
                decreases m - d,
            {
                if !is_placed_before(actions, order, head, &list[d]) {
                    assert(actions@[v as int].dependencies()[d as int] == list@[d as int]@);
                    return false;
                }
                assert(actions@[v as int].dependencies()[d as int] == list@[d as int]@);
                d += 1;
            }
            true
        },
    }
}

/// Computes the order in which a first-in, first-out worklist releases the
/// positions `0..n`: a position enters the list as soon as every one of its
/// dependencies has left it.
fn release_order(actions: &Vec<Action>) -> (order: Vec<usize>)
    ensures
        is_partial_arrangement(positions(order@), actions@.len()),
        respects_dependencies(actions@, positions(order@)),
        released_in_turn(actions@, positions(order@)),
        forall|v: int|
            0 <= v < actions@.len() && !positions(order@).contains(v) ==> !#[trigger] dependencies_placed(
                actions@,
                positions(order@),
                order@.len() as int,
                v,
            ),
{
    let n = actions.len();
    let mut order: Vec<usize> = Vec::new();
    let mut queued: Vec<bool> = Vec::new();
    let mut i: usize = 0;
    while i < n
        invariant
            i <= n,
            queued@.len() == i,
            forall|v: int| 0 <= v < i ==> !queued@[v],
        decreases n - i,
    {
        queued.push(false);
        i += 1;
    }
    let mut head: usize = 0;
    let ghost mut times: Seq<int> = Seq::empty();
    loop
        invariant_except_break
            scan_passed(positions(order@), times, head as int, 0),
        invariant
            n == actions@.len(),
            queued@.len() == n,
            head <= order@.len(),
            is_partial_arrangement(positions(order@), n as nat),
            respects_dependencies(actions@, positions(order@)),
            forall|v: int| 0 <= v < n ==> (#[trigger] queued@[v] <==> positions(order@).contains(v)),
            turns_recorded(actions@, positions(order@), times, head as int),
            waiting_since(actions@, positions(order@), head as int),
        ensures
            head == order@.len(),
            is_partial_arrangement(positions(order@), n as nat),
            respects_dependencies(actions@, positions(order@)),
            turns_recorded(actions@, positions(order@), times, head as int),
            forall|v: int|
                0 <= v < n && !positions(order@).contains(v) ==> !#[trigger] dependencies_placed(
                    actions@,
                    positions(order@),
                    head as int,
                    v,
                ),
        decreases n - head,
    {
        let mut v: usize = 0;
        while v < n
            invariant
                v <= n,
                n == actions@.len(),
                queued@.len() == n,
                head <= order@.len(),
                is_partial_arrangement(positions(order@), n as nat),
                respects_dependencies(actions@, positions(order@)),
                forall|u: int|
                    0 <= u < n ==> (#[trigger] queued@[u] <==> positions(order@).contains(u)),
                forall|u: int|
                    0 <= u < v && !positions(order@).contains(u) ==> !#[trigger] dependencies_placed(
                        actions@,
                        positions(order@),
                        head as int,
                        u,
                    ),
                turns_recorded(actions@, positions(order@), times, head as int),
                waiting_since(actions@, positions(order@), head as int),
                scan_passed(positions(order@), times, head as int, v as int),
            decreases n - v,
        {
            let ghost before = positions(order@);
            assert forall|k: int| 0 <= k < order@.len() implies order@[k] < actions@.len() by {
                assert(0 <= before[k] < n);
            }
            let ready = !queued[v] && dependencies_ready(actions, &order, head, v);
            if ready {
                proof {
                    lemma_release_keeps_turns(actions@, before, times, head as int, v as int);
                    times = times.push(head as int);
                }
                queued.set(v, true);
                order.push(v);
                proof {
                    let after = positions(order@);
                    assert(after =~= before.push(v as int));
                    assert(after.no_duplicates());
                    assert forall|k: int| 0 <= k < after.len() implies #[trigger] dependencies_placed(
                        actions@,
                        after,
                        k,
                        after[k],
                    ) by {
                        if k < before.len() {
                            assert(dependencies_placed(actions@, before, k, before[k]));
                            lemma_placement_ignores_later_positions(actions@, before, after, k, after[k]);
                        } else {
                            lemma_placement_grows(actions@, before, head as int, k, v as int);
                            lemma_placement_ignores_later_positions(actions@, before, after, k, v as int);
                        }
                    }
                    assert forall|u: int| 0 <= u < n implies (#[trigger] queued@[u]
                        <==> after.contains(u)) by {
                        if u == v {
                            assert(after[before.len() as int] == v);
                        } else {
                            if before.contains(u) {
                                let p = choose|p: int| 0 <= p < before.len() && before[p] == u;
                                assert(after[p] == u);
                            }
                            if after.contains(u) {
                                let p = choose|p: int| 0 <= p < after.len() && after[p] == u;
                                assert(before[p] == u);
                            }
                        }
                    }
                }
            }
            proof {
                let after = positions(order@);
                assert(ready ==> after =~= before.push(v as int));
                assert(!ready ==> after =~= before);
                assert forall|u: int|
                    0 <= u < v + 1 && !after.contains(u) implies !#[trigger] dependencies_placed(
                    actions@,
                    after,
                    head as int,
                    u,
                ) by {
                    if before.contains(u) {
                        let p = choose|p: int| 0 <= p < before.len() && before[p] == u;
                        assert(after[p] == u);
                    } else {
                        lemma_placement_ignores_later_positions(actions@, before, after, head as int, u);
                        if u == v && ready {
                            assert(after[before.len() as int] == v);
                        }
                    }
                }
            }
            v += 1;
        }
        if head == order.len() {
            break;
        }
        proof {
            lemma_partial_arrangement_is_short(positions(order@), n as nat);
            lemma_next_turn(actions@, positions(order@), times, head as int);
        }
        head += 1;
    }
    proof {
        lemma_turns_are_in_turn(actions@, positions(order@), times, head as int);
    }
    order
}

/// Orders the actions so that each one runs after all the actions it depends
/// on. Actions whose dependencies are met are released first in, first out,
/// starting from those without dependencies in the order given; actions that
/// are released together keep the order in which they are declared.
///
/// Fails with `Config("cycle in dependencies")` exactly when no such order
/// exists: on a dependency cycle, on a dependency that names no action or
/// that is listed twice, and on two actions with one identifier.
pub fn topological_sort(actions: Vec<Action>) -> (result: Result<Vec<Action>, DeployerError>)
    ensures
        match result {
            Ok(sorted) => schedulable(actions@) && exists|order: Seq<int>|
                is_schedule(actions@, order) && released_in_turn(actions@, order) && sorted@
                    == arranged(actions@, order),
            Err(e) => !schedulable(actions@) && e@ == ErrorView::Config(cycle_message()),
        },
        has_cycle(actions@) ==> result is Err,
        distinct_ids(actions@) && distinct_dependencies(actions@) && dependencies_exist(actions@)
            && !has_cycle(actions@) ==> result is Ok,
{
    proof {
        if has_cycle(actions@) {
            lemma_cycle_is_unschedulable(actions@);
        }
        if distinct_ids(actions@) && distinct_dependencies(actions@) && dependencies_exist(
            actions@,
        ) && !has_cycle(actions@) {
            lemma_acyclic_is_schedulable(actions@);
        }
    }
    let n = actions.len();
    if has_duplicate_ids(&actions) || has_duplicate_dependencies(&actions) {
        return Err(DeployerError::Config(String::from_str("cycle in dependencies")));
    }
    let order = release_order(&actions);
    if order.len() != n {
        proof {
            lemma_partial_arrangement_is_short(positions(order@), n as nat);
            lemma_stuck_means_unschedulable(actions@, positions(order@));
        }
        return Err(DeployerError::Config(String::from_str("cycle in dependencies")));
    }
    let ghost given = actions@;
    let ghost plan = positions(order@);
    assert(is_schedule(given, plan));
    let mut slots: Vec<Option<Action>> = Vec::new();
    let mut rest = actions;
    while rest.len() > 0
        invariant
            rest@.len() + slots@.len() == n,
            n == given.len(),
            forall|i: int| 0 <= i < rest@.len() ==> rest@[i] == given[i],
            forall|i: int|
                0 <= i < slots@.len() ==> slots@[i] == Some(given[n - 1 - i]),
        decreases rest@.len(),
    {
        let last = rest.pop();
        slots.push(last);
    }
    let mut sorted: Vec<Action> = Vec::new();
    let mut k: usize = 0;
    while k < n
        invariant
            k <= n,
            n == given.len(),
            order@.len() == n,
            slots@.len() == n,
            plan == positions(order@),
            is_schedule(given, plan),
            sorted@.len() == k,
            forall|j: int| 0 <= j < k ==> sorted@[j] == given[plan[j]],
            forall|i: int|
                0 <= i < n && !plan.subrange(0, k as int).contains(i) ==> slots@[n - 1 - i] == Some(
                    given[i],
                ),
        decreases n - k,
    {
        let position = order[k];
        assert(plan[k as int] == position);
        assert(0 <= plan[k as int] < n);
        assert(!plan.subrange(0, k as int).contains(position as int)) by {
            if plan.subrange(0, k as int).contains(position as int) {
                let j = choose|j: int|
                    0 <= j < k && plan.subrange(0, k as int)[j] == position as int;
                assert(plan[j] == plan[k as int]);
            }
        }
        let taken = slots[n - 1 - position].take();
        match taken {
            Some(action) => {
                sorted.push(action);
            },
            None => {
                assert(false);
            },
        }
        proof {
            assert forall|i: int|
                0 <= i < n && !plan.subrange(0, k + 1).contains(i) implies slots@[n - 1 - i] == Some(
                given[i],
            ) by {
                if plan.subrange(0, k as int).contains(i) {
                    let j = choose|j: int| 0 <= j < k && plan.subrange(0, k as int)[j] == i;
                    assert(plan.subrange(0, k + 1)[j] == i);
                }
                if i == position {
                    assert(plan.subrange(0, k + 1)[k as int] == i);
                }
            }
        }
        k += 1;
    }
    assert(sorted@ =~= arranged(given, plan));
    Ok(sorted)
}

} // verus!
