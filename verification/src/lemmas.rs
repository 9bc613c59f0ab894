//! Why evaluation comes to rest, and what its passes keep.

use crate::eval::{
    hint_answer, hint_witnessed, hints_witnessed, passes, resolve, resolved_count, settled, sweep,
    visit, wrapping_product, wrapping_sum, Store,
};
use crate::node::HintFn;
use crate::operation::Operation;
use vstd::map_lib::lemma_submap_of_trans;
use vstd::prelude::*;

verus! {

/// The value of node `id` in `store` is the one its operation gives from the
/// values of its operands in `store`. Of a hint this asks nothing.
pub open spec fn derived(graph: Seq<Operation>, store: Store, id: usize) -> bool {
    match graph[id as int] {
        Operation::Input => false,
        Operation::Constant(value) => store[id] == value,
        Operation::Add(a, b) => store.contains_key(a) && store.contains_key(b) && store[id]
            == wrapping_sum(store[a], store[b]),
        Operation::Multiply(a, b) => store.contains_key(a) && store.contains_key(b) && store[id]
            == wrapping_product(store[a], store[b]),
        Operation::Hint(_) => true,
    }
}

/// `store` has grown from `start` by resolving nodes of the graph: it holds
/// what `start` held, and every other entry is a node with a derived value.
pub open spec fn grown_from(graph: Seq<Operation>, start: Store, store: Store) -> bool {
    &&& start.submap_of(store)
    &&& forall|id: usize|
        #[trigger] store.contains_key(id) && !start.contains_key(id) ==> id < graph.len() && derived(
            graph,
            store,
            id,
        )
}

/// No more nodes are counted than there are.
pub proof fn lemma_resolved_count_bound(store: Store, upto: nat)
    ensures
        resolved_count(store, upto) <= upto,
    decreases upto,
{
    if upto > 0 {
        lemma_resolved_count_bound(store, (upto - 1) as nat);
    }
}

/// A node that enters the store is counted once, if it is among those counted.
pub proof fn lemma_resolved_count_insert(store: Store, upto: nat, id: usize, value: u32)
    requires
        !store.contains_key(id),
        upto <= usize::MAX + 1,
    ensures
        resolved_count(store.insert(id, value), upto) == resolved_count(store, upto) + if id
            < upto {
            1nat
        } else {
            0nat
        },
    decreases upto,
{
    if upto > 0 {
        lemma_resolved_count_insert(store, (upto - 1) as nat, id, value);
    }
}

/// The answer that a hint gave on `store` is its answer on `store`.
pub proof fn lemma_hint_answer<H: HintFn + ?Sized>(f: &H, store: Store, answer: Option<u32>)
    requires
        f.yields(store, answer),
        forall|other: Option<u32>| f.yields(store, other) ==> other == answer,
    ensures
        hint_answer(f, store) == answer,
{
}

/// A settled store stays as it is, however many passes follow.
pub proof fn lemma_settled_stays(graph: Seq<Operation>, store: Store, count: nat)
    requires
        settled(graph, store),
    ensures
        passes(graph, store, count) == store,
    decreases count,
{
    if count > 0 {
        lemma_settled_stays(graph, store, (count - 1) as nat);
    }
}

/// Passes add up.
pub proof fn lemma_passes_add(graph: Seq<Operation>, store: Store, first: nat, then: nat)
    ensures
        passes(graph, store, first + then) == passes(graph, passes(graph, store, first), then),
    decreases then,
{
    if then > 0 {
        lemma_passes_add(graph, store, first, (then - 1) as nat);
    }
}

/// A store that gains a node keeps the witnesses it had.
pub proof fn lemma_witnesses_kept(
    graph: Seq<Operation>,
    bound: Store,
    store: Store,
    id: usize,
    value: u32,
)
    requires
        graph.len() <= usize::MAX,
        hints_witnessed(graph, bound, store),
        !store.contains_key(id),
        id < graph.len(),
        graph[id as int] matches Operation::Hint(f) ==> f.yields(store, Some(value)),
    ensures
        hints_witnessed(graph, bound, store.insert(id, value)),
{
    let grown = store.insert(id, value);
    assert forall|i: int| 0 <= i < graph.len() implies (#[trigger] graph[i] matches Operation::Hint(
        f,
    ) ==> hint_witnessed(&*f, i as usize, bound, grown)) by {
        if let Operation::Hint(f) = graph[i] {
            if grown.contains_key(i as usize) && !bound.contains_key(i as usize) {
                if i == id {
                    assert(store.submap_of(grown));
                    assert(f.yields(store, Some(grown[i as usize])));
                } else {
                    assert(hint_witnessed(&*f, i as usize, bound, store));
                    let seen = choose|seen: Store|
                        #[trigger] seen.submap_of(store) && f.yields(seen, Some(store[i as usize]));
                    assert(seen.submap_of(grown));
                    assert(f.yields(seen, Some(grown[i as usize])));
                }
            }
        }
    }
}

/// A sweep resolves nodes and forgets none: the count does not fall, and it
/// rises where the sweep changes the store.
pub proof fn lemma_sweep_count(graph: Seq<Operation>, store: Store, upto: nat, n: nat)
    requires
        upto <= n <= usize::MAX,
    ensures
        resolved_count(sweep(graph, store, upto), n) >= resolved_count(store, n),
        sweep(graph, store, upto) != store ==> resolved_count(sweep(graph, store, upto), n)
            > resolved_count(store, n),
    decreases upto,
{
    if upto > 0 {
        let id = (upto - 1) as usize;
        let earlier = sweep(graph, store, (upto - 1) as nat);
        lemma_sweep_count(graph, store, (upto - 1) as nat, n);
        if visit(graph, earlier, id) != earlier {
            let value = resolve(graph[id as int], id, earlier)->Some_0;
            lemma_resolved_count_insert(earlier, n, id, value);
        }
    }
}

/// After as many passes as there are nodes that are not resolved, the store
/// is settled.
pub proof fn lemma_passes_settle(graph: Seq<Operation>, store: Store, count: nat)
    requires
        graph.len() <= usize::MAX,
        count + resolved_count(store, graph.len()) >= graph.len(),
    ensures
        settled(graph, passes(graph, store, count)),
    decreases count,
{
    let n = graph.len();
    let next = sweep(graph, store, n);
    lemma_sweep_count(graph, store, n, n);
    lemma_resolved_count_bound(next, n);
    if next == store {
        lemma_settled_stays(graph, store, count);
    } else {
        assert(count > 0);
        lemma_passes_settle(graph, next, (count - 1) as nat);
        assert(passes(graph, store, 1) == next) by {
            assert(passes(graph, store, 0) == store);
        }
        lemma_passes_add(graph, store, 1, (count - 1) as nat);
    }
}

/// Two runs of passes from one store that are both settled hold the same.
pub proof fn lemma_passes_meet(graph: Seq<Operation>, store: Store, one: nat, other: nat)
    requires
        settled(graph, passes(graph, store, one)),
        settled(graph, passes(graph, store, other)),
    ensures
        passes(graph, store, one) == passes(graph, store, other),
{
    if one <= other {
        lemma_passes_add(graph, store, one, (other - one) as nat);
        lemma_settled_stays(graph, passes(graph, store, one), (other - one) as nat);
    } else {
        lemma_passes_add(graph, store, other, (one - other) as nat);
        lemma_settled_stays(graph, passes(graph, store, other), (one - other) as nat);
    }
}

/// A node's turn keeps what the store held and adds at most that node, with
/// a derived value.
pub proof fn lemma_visit_grows(graph: Seq<Operation>, start: Store, store: Store, id: usize)
    requires
        grown_from(graph, start, store),
        id < graph.len(),
    ensures
        grown_from(graph, start, visit(graph, store, id)),
        store.submap_of(visit(graph, store, id)),
{
    let next = visit(graph, store, id);
    if next != store {
        assert forall|other: usize|
            #[trigger] next.contains_key(other) && !start.contains_key(other) implies other < graph.len()
            && derived(graph, next, other) by {
            if other != id {
                assert(store.contains_key(other));
                assert(derived(graph, store, other));
            }
        }
    }
}

/// A sweep keeps what the store held and adds only derived values.
pub proof fn lemma_sweep_grows(graph: Seq<Operation>, start: Store, store: Store, upto: nat)
    requires
        grown_from(graph, start, store),
        upto <= graph.len() <= usize::MAX,
    ensures
        grown_from(graph, start, sweep(graph, store, upto)),
        store.submap_of(sweep(graph, store, upto)),
    decreases upto,
{
    if upto > 0 {
        lemma_sweep_grows(graph, start, store, (upto - 1) as nat);
        let earlier = sweep(graph, store, (upto - 1) as nat);
        lemma_visit_grows(graph, start, earlier, (upto - 1) as usize);
        lemma_submap_of_trans(store, earlier, visit(graph, earlier, (upto - 1) as usize));
    }
}

/// However many passes are made, the store holds what it started with, and
/// beside that only derived values.
pub proof fn lemma_passes_grow(graph: Seq<Operation>, start: Store, count: nat)
    requires
        graph.len() <= usize::MAX,
    ensures
        grown_from(graph, start, passes(graph, start, count)),
    decreases count,
{
    if count > 0 {
        lemma_passes_grow(graph, start, (count - 1) as nat);
        lemma_sweep_grows(graph, start, passes(graph, start, (count - 1) as nat), graph.len());
    }
}

/// In a settled store no node's turn changes anything.
pub proof fn lemma_settled_visit(graph: Seq<Operation>, store: Store, id: usize)
    requires
        settled(graph, store),
        id < graph.len() <= usize::MAX,
    ensures
        visit(graph, store, id) == store,
{
    let n = graph.len();
    lemma_sweep_rests(graph, store, id as nat, n);
    lemma_sweep_rests(graph, store, (id + 1) as nat, n);
}

/// A sweep that leaves the store as it was has left it so at every node.
pub proof fn lemma_sweep_rests(graph: Seq<Operation>, store: Store, upto: nat, n: nat)
    requires
        sweep(graph, store, n) == store,
        upto <= n <= usize::MAX,
    ensures
        sweep(graph, store, upto) == store,
    decreases n - upto,
{
    if upto < n {
        lemma_sweep_rests(graph, store, upto + 1, n);
        let earlier = sweep(graph, store, upto);
        lemma_sweep_count(graph, store, upto, n);
        if visit(graph, earlier, upto as usize) != earlier {
            let value = resolve(graph[upto as int], upto as usize, earlier)->Some_0;
            lemma_resolved_count_insert(earlier, n, upto as usize, value);
        }
    }
}

} // verus!
