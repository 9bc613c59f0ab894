//! What holds of every graph, every list of inputs and every evaluation.

use crate::builder::{all_satisfied, bindings, satisfied, Builder};
use crate::eval::{
    bind_inputs, hint_declined, hint_witnessed, lookup, seed, wrapping_product, wrapping_sum,
    Store,
};
use crate::lemmas::{lemma_passes_grow, lemma_settled_visit};
use crate::node::{accepts_every_map, returns_on, single_valued, EqualityConstraint, HintFn, Node};
use crate::operation::Operation;
use std::collections::HashMap;
use vstd::prelude::*;

verus! {

/// Some binding of `inputs` names `id`.
pub open spec fn binds(inputs: Seq<(usize, u32)>, id: usize) -> bool {
    exists|j: int| 0 <= j < inputs.len() && (#[trigger] inputs[j]).0 == id
}

/// The bindings of `inputs` are the nodes it names.
pub proof fn lemma_bound_nodes(inputs: Seq<(usize, u32)>, id: usize)
    ensures
        bind_inputs(inputs).contains_key(id) <==> binds(inputs, id),
    decreases inputs.len(),
{
    if inputs.len() > 0 {
        let front = inputs.drop_last();
        lemma_bound_nodes(front, id);
        if binds(front, id) {
            let j = choose|j: int| 0 <= j < front.len() && (#[trigger] front[j]).0 == id;
            assert(inputs[j].0 == id);
        }
        if inputs.last().0 == id {
            assert(inputs[inputs.len() - 1].0 == id);
        } else if binds(inputs, id) {
            let j = choose|j: int| 0 <= j < inputs.len() && (#[trigger] inputs[j]).0 == id;
            assert(front[j].0 == id);
        }
    }
}

/// Of the bindings of one node the last one stands.
pub proof fn lemma_bound_last(inputs: Seq<(usize, u32)>, j: int)
    requires
        0 <= j < inputs.len(),
        forall|k: int| j < k < inputs.len() ==> (#[trigger] inputs[k]).0 != inputs[j].0,
    ensures
        lookup(bind_inputs(inputs), inputs[j].0) == Some(inputs[j].1),
    decreases inputs.len(),
{
    if j < inputs.len() - 1 {
        let front = inputs.drop_last();
        assert(inputs[inputs.len() - 1].0 != inputs[j].0);
        assert forall|k: int| j < k < front.len() implies (#[trigger] front[k]).0 != front[j].0 by {
            assert(inputs[k].0 != inputs[j].0);
        }
        lemma_bound_last(front, j);
    }
}

/// A constant resolves to its value, whatever the inputs bind.
pub proof fn lemma_constant_value(
    builder: Builder,
    inputs: Seq<(Node, u32)>,
    node: Node,
    value: u32,
)
    requires
        builder.wf(),
        builder.filled_with(inputs),
        node.id() < builder.graph().len(),
        builder.graph()[node.id() as int] == Operation::Constant(value),
    ensures
        lookup(builder.values(), node.id()) == Some(value),
{
    let start = seed(builder.graph(), bindings(inputs));
    lemma_passes_grow(builder.graph(), start, builder.graph().len());
    assert(start.contains_key(node.id()));
}

/// A node that the inputs bind, and that is no constant, has the value of its
/// last binding.
pub proof fn lemma_bound_value(builder: Builder, inputs: Seq<(Node, u32)>, node: Node)
    requires
        builder.wf(),
        builder.filled_with(inputs),
        binds(bindings(inputs), node.id()),
        node.id() < builder.graph().len() ==> !(builder.graph()[node.id() as int] is Constant),
    ensures
        lookup(builder.values(), node.id()) == lookup(bind_inputs(bindings(inputs)), node.id()),
        lookup(builder.values(), node.id()) is Some,
{
    let start = seed(builder.graph(), bindings(inputs));
    lemma_bound_nodes(bindings(inputs), node.id());
    lemma_passes_grow(builder.graph(), start, builder.graph().len());
    assert(start.contains_key(node.id()));
}

/// An input node is resolved if and only if the inputs bind it, and then to
/// the value of its last binding.
pub proof fn lemma_input_value(builder: Builder, inputs: Seq<(Node, u32)>, node: Node)
    requires
        builder.wf(),
        builder.filled_with(inputs),
        node.id() < builder.graph().len(),
        builder.graph()[node.id() as int] is Input,
    ensures
        lookup(builder.values(), node.id()) == lookup(bind_inputs(bindings(inputs)), node.id()),
{
    let start = seed(builder.graph(), bindings(inputs));
    lemma_passes_grow(builder.graph(), start, builder.graph().len());
    if bind_inputs(bindings(inputs)).contains_key(node.id()) {
        assert(start.contains_key(node.id()));
    } else if builder.values().contains_key(node.id()) {
        assert(!start.contains_key(node.id()));
    }
}

/// A sum that the inputs do not bind is resolved if and only if both its
/// operands are, and its value is then their sum modulo 2^32.
pub proof fn lemma_add_value(
    builder: Builder,
    inputs: Seq<(Node, u32)>,
    a: Node,
    b: Node,
    sum: Node,
)
    requires
        builder.wf(),
        builder.filled_with(inputs),
        sum.id() < builder.graph().len(),
        builder.graph()[sum.id() as int] == Operation::Add(a.id(), b.id()),
        !binds(bindings(inputs), sum.id()),
    ensures
        ({
            let store = builder.values();
            lookup(store, sum.id()) == if store.contains_key(a.id()) && store.contains_key(b.id()) {
                Some(wrapping_sum(store[a.id()], store[b.id()]))
            } else {
                None
            }
        }),
{
    let start = seed(builder.graph(), bindings(inputs));
    lemma_bound_nodes(bindings(inputs), sum.id());
    lemma_passes_grow(builder.graph(), start, builder.graph().len());
    lemma_settled_visit(builder.graph(), builder.values(), sum.id());
}

/// A product that the inputs do not bind is resolved if and only if both its
/// operands are, and its value is then their product modulo 2^32.
pub proof fn lemma_mul_value(
    builder: Builder,
    inputs: Seq<(Node, u32)>,
    a: Node,
    b: Node,
    product: Node,
)
    requires
        builder.wf(),
        builder.filled_with(inputs),
        product.id() < builder.graph().len(),
        builder.graph()[product.id() as int] == Operation::Multiply(a.id(), b.id()),
        !binds(bindings(inputs), product.id()),
    ensures
        ({
            let store = builder.values();
            lookup(store, product.id()) == if store.contains_key(a.id()) && store.contains_key(
                b.id(),
            ) {
                Some(wrapping_product(store[a.id()], store[b.id()]))
            } else {
                None
            }
        }),
{
    let start = seed(builder.graph(), bindings(inputs));
    lemma_bound_nodes(bindings(inputs), product.id());
    lemma_passes_grow(builder.graph(), start, builder.graph().len());
    lemma_settled_visit(builder.graph(), builder.values(), product.id());
}

/// Two evaluations of one graph on the same inputs find the same values,
/// whatever each builder held before.
pub proof fn lemma_fill_repeatable(first: Builder, second: Builder, inputs: Seq<(Node, u32)>)
    requires
        first.graph() == second.graph(),
        first.filled_with(inputs),
        second.filled_with(inputs),
    ensures
        first.values() == second.values(),
{
}

/// After an evaluation, what is resolved is bound by its inputs or computed
/// by the graph, and an input node that those inputs do not bind is not
/// resolved: nothing is left of the values found before.
pub proof fn lemma_fill_forgets(builder: Builder, inputs: Seq<(Node, u32)>, id: usize)
    requires
        builder.wf(),
        builder.filled_with(inputs),
    ensures
        builder.values().contains_key(id) ==> binds(bindings(inputs), id) || (id
            < builder.graph().len() && !(builder.graph()[id as int] is Input)),
{
    let start = seed(builder.graph(), bindings(inputs));
    lemma_bound_nodes(bindings(inputs), id);
    lemma_passes_grow(builder.graph(), start, builder.graph().len());
}

/// With one more constraint, all hold if and only if the earlier ones hold
/// and the new one does.
pub proof fn lemma_constraint_added(
    store: Store,
    constraints: Seq<EqualityConstraint>,
    added: EqualityConstraint,
)
    ensures
        all_satisfied(store, constraints.push(added)) <==> all_satisfied(store, constraints)
            && satisfied(store, added),
{
    let longer = constraints.push(added);
    if all_satisfied(store, longer) {
        assert(satisfied(store, longer[constraints.len() as int]));
        assert forall|k: int| 0 <= k < constraints.len() implies satisfied(
            store,
            #[trigger] constraints[k],
        ) by {
            assert(satisfied(store, longer[k]));
        }
    }
}

/// Once `a` and `b` are asserted equal, the check succeeds if and only if the
/// constraints made before hold and `a` and `b` are resolved to one value.
pub proof fn lemma_asserted_equal(before: Builder, after: Builder, a: Node, b: Node)
    requires
        after.constraints() == before.constraints().push(EqualityConstraint::new(a.id(), b.id())),
    ensures
        after.constraints_hold() <==> all_satisfied(after.values(), before.constraints()) && lookup(
            after.values(),
            a.id(),
        ) is Some && lookup(after.values(), a.id()) == lookup(after.values(), b.id()),
{
    let added = EqualityConstraint::new(a.id(), b.id());
    EqualityConstraint::lemma_sides(a.id(), b.id());
    lemma_constraint_added(after.values(), before.constraints(), added);
}

/// A constraint on a node that is not resolved makes the check fail.
pub proof fn lemma_unresolved_fails(builder: Builder, k: int)
    requires
        0 <= k < builder.constraints().len(),
        !builder.values().contains_key(builder.constraints()[k].left())
            || !builder.values().contains_key(builder.constraints()[k].right()),
    ensures
        !builder.constraints_hold(),
{
    assert(!satisfied(builder.values(), builder.constraints()[k]));
}

/// The hint that the builder makes of a function may be asked, and yields
/// what the function can return.
pub proof fn lemma_function_hint<F>(f: F) where
    F: Fn(&HashMap<usize, u32>) -> Option<u32> + Send + 'static,

    requires
        accepts_every_map(f),
        single_valued(f),
    ensures
        Operation::hint_from(f) matches Operation::Hint(hint) && hint.inv() && forall|
            values: Store,
            answer: Option<u32>,
        | #[trigger]
            hint.yields(values, answer) == returns_on(f, values, answer),
{
}

/// A hint that answers exactly when the nodes of `needs` are known, and that
/// the inputs do not bind, is resolved if and only if those nodes are.
pub proof fn lemma_hint_resolves(
    builder: Builder,
    inputs: Seq<(Node, u32)>,
    node: Node,
    needs: Set<usize>,
)
    requires
        builder.wf(),
        builder.filled_with(inputs),
        node.id() < builder.graph().len(),
        !binds(bindings(inputs), node.id()),
        builder.graph()[node.id() as int] matches Operation::Hint(f) && forall|
            seen: Store,
            answer: Option<u32>,
        | #[trigger]
            f.yields(seen, answer) ==> (answer is Some <==> needs.subset_of(seen.dom())),
    ensures
        builder.values().contains_key(node.id()) <==> needs.subset_of(builder.values().dom()),
{
    let store = builder.values();
    let bound = bind_inputs(bindings(inputs));
    lemma_bound_nodes(bindings(inputs), node.id());
    if let Operation::Hint(f) = builder.graph()[node.id() as int] {
        assert(hint_witnessed(&*f, node.id(), bound, store));
        assert(hint_declined(&*f, node.id(), store));
        if store.contains_key(node.id()) {
            let seen = choose|seen: Store|
                #[trigger] seen.submap_of(store) && f.yields(seen, Some(store[node.id()]));
            assert(needs.subset_of(seen.dom()));
        }
    }
}

/// The value of a hint that the inputs do not bind is an answer that it gave
/// on values that were found; while it is not resolved, its answer on the
/// values found is `None`.
pub proof fn lemma_hint_value(builder: Builder, inputs: Seq<(Node, u32)>, node: Node)
    requires
        builder.wf(),
        builder.filled_with(inputs),
        node.id() < builder.graph().len(),
        !binds(bindings(inputs), node.id()),
        builder.graph()[node.id() as int] is Hint,
    ensures
        ({
            let store = builder.values();
            let f = builder.graph()[node.id() as int]->Hint_0;
            match lookup(store, node.id()) {
                Some(value) => exists|seen: Store|
                    #[trigger] seen.submap_of(store) && f.yields(seen, Some(value)),
                None => f.yields(store, None),
            }
        }),
{
    let store = builder.values();
    let bound = bind_inputs(bindings(inputs));
    lemma_bound_nodes(bindings(inputs), node.id());
    if let Operation::Hint(f) = builder.graph()[node.id() as int] {
        assert(hint_witnessed(&*f, node.id(), bound, store));
        assert(hint_declined(&*f, node.id(), store));
    }
}

} // verus!
