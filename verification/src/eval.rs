//! What evaluation means: the value store that belongs to a graph and a list
//! of input bindings.

use crate::node::HintFn;
use crate::operation::Operation;
use vstd::prelude::*;

verus! {

/// A value store: the nodes that are resolved, each with its value.
pub type Store = Map<usize, u32>;

/// The value that `store` holds for `id`, if it holds one.
pub open spec fn lookup(store: Store, id: usize) -> Option<u32> {
    if store.contains_key(id) {
        Some(store[id])
    } else {
        None
    }
}

/// The sum of two values, modulo 2^32.
pub open spec fn wrapping_sum(x: u32, y: u32) -> u32 {
    ((x + y) % 0x1_0000_0000) as u32
}

/// The product of two values, modulo 2^32.
pub open spec fn wrapping_product(x: u32, y: u32) -> u32 {
    ((x * y) % 0x1_0000_0000) as u32
}

/// The answer of a hint on `store`.
pub open spec fn hint_answer<H: HintFn + ?Sized>(f: &H, store: Store) -> Option<u32> {
    choose|answer: Option<u32>| f.yields(store, answer)
}

/// The value that `op`, standing at position `id`, takes when the nodes in
/// `store` are known; `None` while it cannot be told.
pub open spec fn resolve(op: Operation, id: usize, store: Store) -> Option<u32> {
    match op {
        Operation::Input => lookup(store, id),
        Operation::Constant(value) => Some(value),
        Operation::Add(a, b) => if store.contains_key(a) && store.contains_key(b) {
            Some(wrapping_sum(store[a], store[b]))
        } else {
            None
        },
        Operation::Multiply(a, b) => if store.contains_key(a) && store.contains_key(b) {
            Some(wrapping_product(store[a], store[b]))
        } else {
            None
        },
        Operation::Hint(f) => hint_answer(&*f, store),
    }
}

/// A graph that can be evaluated: it fits in memory, and each operation may
/// stand where it stands.
pub open spec fn valid_graph(graph: Seq<Operation>) -> bool {
    &&& graph.len() <= usize::MAX
    &&& forall|i: int| 0 <= i < graph.len() ==> (#[trigger] graph[i]).valid_at(i)
}

/// The store after node `id` has had its turn: a node that is not resolved
/// yet, and can be now, enters with its value. Nothing else changes.
pub open spec fn visit(graph: Seq<Operation>, store: Store, id: usize) -> Store {
    if store.contains_key(id) {
        store
    } else {
        match resolve(graph[id as int], id, store) {
            Some(value) => store.insert(id, value),
            None => store,
        }
    }
}

/// The store after the nodes before `upto` have had their turn, in the order
/// of their creation.
pub open spec fn sweep(graph: Seq<Operation>, store: Store, upto: nat) -> Store
    decreases upto,
{
    if upto == 0 {
        store
    } else {
        visit(graph, sweep(graph, store, (upto - 1) as nat), (upto - 1) as usize)
    }
}

/// The store after `count` passes over the whole graph.
pub open spec fn passes(graph: Seq<Operation>, store: Store, count: nat) -> Store
    decreases count,
{
    if count == 0 {
        store
    } else {
        sweep(graph, passes(graph, store, (count - 1) as nat), graph.len())
    }
}

/// The store that holds the bindings of `inputs`; of two bindings of one node
/// the later one stands.
pub open spec fn bind_inputs(inputs: Seq<(usize, u32)>) -> Store
    decreases inputs.len(),
{
    if inputs.len() == 0 {
        Map::empty()
    } else {
        bind_inputs(inputs.drop_last()).insert(inputs.last().0, inputs.last().1)
    }
}

/// `store`, with each constant among the nodes before `upto` set to its
/// value, whatever `store` held for it.
pub open spec fn set_constants(graph: Seq<Operation>, store: Store, upto: int) -> Store {
    Map::new(
        |id: usize| store.contains_key(id) || (id < upto && graph[id as int] is Constant),
        |id: usize|
            if id < upto && graph[id as int] is Constant {
                graph[id as int]->Constant_0
            } else {
                store[id]
            },
    )
}

/// The store from which the passes start.
pub open spec fn seed(graph: Seq<Operation>, inputs: Seq<(usize, u32)>) -> Store {
    set_constants(graph, bind_inputs(inputs), graph.len() as int)
}

/// No node of the graph can be added to `store`: a pass leaves it as it is.
pub open spec fn settled(graph: Seq<Operation>, store: Store) -> bool {
    sweep(graph, store, graph.len()) == store
}

/// The value store of `graph` under `inputs`. A graph of `n` nodes is settled
/// after `n` passes at the latest, since each pass that changes the store
/// resolves a node.
pub open spec fn evaluate(graph: Seq<Operation>, inputs: Seq<(usize, u32)>) -> Store {
    passes(graph, seed(graph, inputs), graph.len())
}

/// How many of the nodes before `upto` are resolved in `store`. Evaluation
/// ends because this number rises with every pass that changes the store.
pub open spec fn resolved_count(store: Store, upto: nat) -> nat
    decreases upto,
{
    if upto == 0 {
        0
    } else {
        resolved_count(store, (upto - 1) as nat) + if store.contains_key((upto - 1) as usize) {
            1nat
        } else {
            0nat
        }
    }
}

/// A hint that is resolved in `store` without being bound in `bound` gave its
/// value on values that `store` holds.
pub open spec fn hint_witnessed<H: HintFn + ?Sized>(
    f: &H,
    id: usize,
    bound: Store,
    store: Store,
) -> bool {
    store.contains_key(id) && !bound.contains_key(id) ==> exists|seen: Store|
        #[trigger] seen.submap_of(store) && f.yields(seen, Some(store[id]))
}

/// A hint that is not resolved in `store` answers `None` on `store`.
pub open spec fn hint_declined<H: HintFn + ?Sized>(f: &H, id: usize, store: Store) -> bool {
    !store.contains_key(id) ==> f.yields(store, None)
}

/// Every hint of the graph that is resolved in `store` without being bound in
/// `bound` gave its value on values that `store` holds.
pub open spec fn hints_witnessed(graph: Seq<Operation>, bound: Store, store: Store) -> bool {
    forall|i: int|
        0 <= i < graph.len() ==> (#[trigger] graph[i] matches Operation::Hint(f)
            ==> hint_witnessed(&*f, i as usize, bound, store))
}

/// Every hint among the nodes before `upto` that is not resolved in `store`
/// answers `None` on `store`.
pub open spec fn hints_declined(graph: Seq<Operation>, store: Store, upto: int) -> bool {
    forall|i: int|
        0 <= i < upto ==> (#[trigger] graph[i] matches Operation::Hint(f) ==> hint_declined(
            &*f,
            i as usize,
            store,
        ))
}

} // verus!
