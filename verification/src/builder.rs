//! The builder: it records a graph and its constraints, evaluates the graph on
//! input bindings, and checks the constraints against the values found.

use crate::eval::{
    bind_inputs, evaluate, hints_declined, hints_witnessed, lookup, passes, resolve,
    resolved_count, seed, set_constants, settled, sweep, valid_graph, visit, wrapping_product,
    wrapping_sum, Store,
};
use crate::lemmas::{
    lemma_hint_answer, lemma_passes_meet, lemma_passes_settle, lemma_resolved_count_bound,
    lemma_resolved_count_insert, lemma_sweep_count, lemma_witnesses_kept,
};
use crate::node::{accepts_every_map, single_valued, EqualityConstraint, HintFn, Node};
use crate::operation::Operation;
use std::collections::HashMap;
use vstd::prelude::*;

verus! {

broadcast use vstd::std_specs::hash::group_hash_axioms;

/// Both sides of `constraint` are resolved in `store`, to one value.
pub open spec fn satisfied(store: Store, constraint: EqualityConstraint) -> bool {
    &&& store.contains_key(constraint.left())
    &&& store.contains_key(constraint.right())
    &&& store[constraint.left()] == store[constraint.right()]
}

/// Every constraint of `constraints` is satisfied in `store`.
pub open spec fn all_satisfied(store: Store, constraints: Seq<EqualityConstraint>) -> bool {
    forall|k: int| 0 <= k < constraints.len() ==> satisfied(store, #[trigger] constraints[k])
}

/// The bindings that `inputs` makes, each node taken by its position.
pub open spec fn bindings(inputs: Seq<(Node, u32)>) -> Seq<(usize, u32)> {
    inputs.map_values(|binding: (Node, u32)| (binding.0.id(), binding.1))
}

/// A builder that will be used to create a computational graph.
pub struct Builder {
    nodes: Vec<Operation>,
    constraints: Vec<EqualityConstraint>,
    values: HashMap<usize, u32>,
}

impl Builder {
    /// The operations recorded so far, in the order of their creation. The
    /// handle of a node is its index here.
    pub closed spec fn graph(&self) -> Seq<Operation> {
        self.nodes@
    }

    /// The constraints recorded so far.
    pub closed spec fn constraints(&self) -> Seq<EqualityConstraint> {
        self.constraints@
    }

    /// The values found by the last evaluation.
    pub closed spec fn values(&self) -> Store {
        self.values@
    }

    /// The graph can be evaluated, and the constraints speak of its nodes.
    pub open spec fn wf(&self) -> bool {
        &&& valid_graph(self.graph())
        &&& forall|k: int|
            0 <= k < self.constraints().len() ==> {
                &&& (#[trigger] self.constraints()[k]).left() < self.graph().len()
                &&& self.constraints()[k].right() < self.graph().len()
            }
    }

    /// Every constraint is satisfied by the values found.
    pub open spec fn constraints_hold(&self) -> bool {
        all_satisfied(self.values(), self.constraints())
    }

    /// The values found are those of the graph under `inputs`: the store that
    /// evaluation reaches, at rest, with each hint accounted for.
    pub open spec fn filled_with(&self, inputs: Seq<(Node, u32)>) -> bool {
        &&& self.values() == evaluate(self.graph(), bindings(inputs))
        &&& settled(self.graph(), self.values())
        &&& hints_witnessed(self.graph(), bind_inputs(bindings(inputs)), self.values())
        &&& hints_declined(self.graph(), self.values(), self.graph().len() as int)
    }

    /// Creates a new builder: no node, no constraint, no value.
    pub fn new() -> (builder: Self)
        ensures
            builder.wf(),
            builder.graph() == Seq::<Operation>::empty(),
            builder.constraints() == Seq::<EqualityConstraint>::empty(),
            builder.values() == Store::empty(),
    {
        Builder { nodes: Vec::new(), constraints: Vec::new(), values: HashMap::new() }
    }

    /// Appends `op` to the graph and hands out its handle.
    fn add_node(&mut self, op: Operation) -> (node: Node)
        requires
            old(self).wf(),
            op.valid_at(old(self).graph().len() as int),
        ensures
            final(self).wf(),
            final(self).graph() == old(self).graph().push(op),
            final(self).graph().len() == old(self).graph().len() + 1,
            final(self).graph().last() == op,
            final(self).constraints() == old(self).constraints(),
            final(self).values() == old(self).values(),
            node.id() == old(self).graph().len(),
    {
        let id = self.nodes.len();
        self.nodes.push(op);
        assert(self.nodes@.len() == self.nodes.len());
        assert forall|i: int| 0 <= i < self.graph().len() implies (#[trigger] self.graph()[i]).valid_at(
            i,
        ) by {
            if i < old(self).graph().len() {
                assert(self.graph()[i] == old(self).graph()[i]);
            }
        }
        assert(self.constraints() == old(self).constraints());
        Node::new(id)
    }

    /// Initializes a node in the graph.
    pub fn init(&mut self) -> (node: Node)
        requires
            old(self).wf(),
        ensures
            final(self).wf(),
            final(self).graph() == old(self).graph().push(Operation::Input),
            final(self).constraints() == old(self).constraints(),
            final(self).values() == old(self).values(),
            node.id() == old(self).graph().len(),
    {
        self.add_node(Operation::Input)
    }

    /// Initializes a node in a graph, set to a constant value.
    pub fn constant(&mut self, value: u32) -> (node: Node)
        requires
            old(self).wf(),
        ensures
            final(self).wf(),
            final(self).graph() == old(self).graph().push(Operation::Constant(value)),
            final(self).constraints() == old(self).constraints(),
            final(self).values() == old(self).values(),
            node.id() == old(self).graph().len(),
    {
        self.add_node(Operation::Constant(value))
    }

    /// Adds 2 nodes in the graph, returning a new node.
    pub fn add(&mut self, a: Node, b: Node) -> (node: Node)
        requires
            old(self).wf(),
            a.id() < old(self).graph().len(),
            b.id() < old(self).graph().len(),
        ensures
            final(self).wf(),
            final(self).graph() == old(self).graph().push(Operation::Add(a.id(), b.id())),
            final(self).constraints() == old(self).constraints(),
            final(self).values() == old(self).values(),
            node.id() == old(self).graph().len(),
    {
        self.add_node(Operation::Add(a.id(), b.id()))
    }

    /// Multiplies 2 nodes in the graph, returning a new node.
    pub fn mul(&mut self, a: Node, b: Node) -> (node: Node)
        requires
            old(self).wf(),
            a.id() < old(self).graph().len(),
            b.id() < old(self).graph().len(),
        ensures
            final(self).wf(),
            final(self).graph() == old(self).graph().push(Operation::Multiply(a.id(), b.id())),
            final(self).constraints() == old(self).constraints(),
            final(self).values() == old(self).values(),
            node.id() == old(self).graph().len(),
    {
        self.add_node(Operation::Multiply(a.id(), b.id()))
    }

    /// Asserts that 2 nodes are equal.
    pub fn assert_equal(&mut self, a: Node, b: Node)
        requires
            old(self).wf(),
            a.id() < old(self).graph().len(),
            b.id() < old(self).graph().len(),
        ensures
            final(self).wf(),
            final(self).graph() == old(self).graph(),
            final(self).constraints() == old(self).constraints().push(
                EqualityConstraint::new(a.id(), b.id()),
            ),
            final(self).values() == old(self).values(),
    {
        let ec = EqualityConstraint::new(a.id(), b.id());
        self.constraints.push(ec);
        assert forall|k: int| 0 <= k < self.constraints().len() implies {
            &&& (#[trigger] self.constraints()[k]).left() < self.graph().len()
            &&& self.constraints()[k].right() < self.graph().len()
        } by {
            if k < old(self).constraints().len() {
                assert(self.constraints()[k] == old(self).constraints()[k]);
            }
        }
    }

    /// An API for hinting values that allows you to perform operations
    /// like division or computing square roots.
    pub fn hint<F>(&mut self, f: F) -> (node: Node) where
        F: Fn(&HashMap<usize, u32>) -> Option<u32> + Send + 'static,

        requires
            old(self).wf(),
            accepts_every_map(f),
            single_valued(f),
        ensures
            final(self).wf(),
            final(self).graph() == old(self).graph().push(Operation::hint_from(f)),
            final(self).constraints() == old(self).constraints(),
            final(self).values() == old(self).values(),
            node.id() == old(self).graph().len(),
    {
        let boxed: Box<dyn HintFn> = Box::new(f);
        self.add_node(Operation::Hint(boxed))
    }

    /// The value that node `node_id` takes from the values found so far.
    fn evaluate_node(&self, node_id: usize) -> (value: Option<u32>)
        requires
            self.wf(),
            node_id < self.graph().len(),
        ensures
            value == resolve(self.graph()[node_id as int], node_id, self.values()),
            self.graph()[node_id as int] matches Operation::Hint(f) ==> f.yields(
                self.values(),
                value,
            ),
    {
        match &self.nodes[node_id] {
            Operation::Input => match self.values.get(&node_id) {
                Some(value) => Some(*value),
                None => None,
            },
            Operation::Constant(value) => Some(*value),
            Operation::Add(a, b) => {
                let a_val = self.values.get(a)?;
                let b_val = self.values.get(b)?;
                assert(a_val.wrapping_add(*b_val) == wrapping_sum(*a_val, *b_val));
                Some(a_val.wrapping_add(*b_val))
            },
            Operation::Multiply(a, b) => {
                let a_val = self.values.get(a)?;
                let b_val = self.values.get(b)?;
                assert(a_val.wrapping_mul(*b_val) == wrapping_product(*a_val, *b_val));
                Some(a_val.wrapping_mul(*b_val))
            },
            Operation::Hint(f) => {
                let answer = f.compute(&self.values);
                proof {
                    lemma_hint_answer(&**f, self.values(), answer);
                }
                answer
            },
        }
    }

    /// Fills in all the nodes of the graph based on some inputs.
    pub fn fill_nodes(&mut self, inputs: &[(Node, u32)])
        requires
            old(self).wf(),
        ensures
            final(self).wf(),
            final(self).graph() == old(self).graph(),
            final(self).constraints() == old(self).constraints(),
            final(self).filled_with(inputs@),
    {
        let ghost graph = self.graph();
        let ghost given = bindings(inputs@);
        let n = self.nodes.len();
        self.values.clear();

        let mut i: usize = 0;
        while i < inputs.len()
            invariant
                i <= inputs.len(),
                given == bindings(inputs@),
                self.graph() == old(self).graph(),
                self.constraints() == old(self).constraints(),
                self.values@ == bind_inputs(given.take(i as int)),
            decreases inputs.len() - i,
        {
            let node = inputs[i].0;
            let value = inputs[i].1;
            self.values.insert(node.id(), value);
            proof {
                assert(given.take(i + 1).drop_last() == given.take(i as int));
            }
            i += 1;
        }
        assert(given.take(i as int) == given);
        let ghost bound = bind_inputs(given);

        let mut id: usize = 0;
        while id < n
            invariant
                id <= n,
                n == self.nodes.len(),
                graph == self.nodes@,
                self.graph() == old(self).graph(),
                self.constraints() == old(self).constraints(),
                self.values@ == set_constants(graph, bound, id as int),
            decreases n - id,
        {
            if let Operation::Constant(value) = &self.nodes[id] {
                self.values.insert(id, *value);
            }
            assert(self.values@ == set_constants(graph, bound, id + 1));
            id += 1;
        }
        let ghost start = seed(graph, given);
        assert(self.values@ == start);
        assert(hints_witnessed(graph, bound, start));

        let ghost mut rounds: nat = 0;
        let mut changed = true;
        while changed
            invariant
                old(self).wf(),
                n == self.nodes.len(),
                graph == self.nodes@,
                self.graph() == old(self).graph(),
                self.constraints() == old(self).constraints(),
                self.values@ == passes(graph, start, rounds),
                hints_witnessed(graph, bound, self.values@),
                !changed ==> settled(graph, self.values@),
                !changed ==> hints_declined(graph, self.values@, n as int),
            decreases n - resolved_count(self.values@, n as nat) + if changed { 1int } else { 0int },
        {
            changed = false;
            let ghost before = self.values@;
            let mut node_id: usize = 0;
            while node_id < n
                invariant
                    old(self).wf(),
                    node_id <= n,
                    n == self.nodes.len(),
                    graph == self.nodes@,
                    self.graph() == old(self).graph(),
                    self.constraints() == old(self).constraints(),
                    self.values@ == sweep(graph, before, node_id as nat),
                    hints_witnessed(graph, bound, self.values@),
                    !changed ==> self.values@ == before,
                    !changed ==> hints_declined(graph, self.values@, node_id as int),
                    changed ==> resolved_count(self.values@, n as nat) > resolved_count(before, n as nat),
                decreases n - node_id,
            {
                let ghost store = self.values@;
                if !self.values.contains_key(&node_id) {
                    if let Some(value) = self.evaluate_node(node_id) {
                        self.values.insert(node_id, value);
                        changed = true;
                        proof {
                            lemma_witnesses_kept(graph, bound, store, node_id, value);
                            lemma_resolved_count_insert(store, n as nat, node_id, value);
                            lemma_sweep_count(graph, before, node_id as nat, n as nat);
                        }
                    }
                }
                assert(self.values@ == visit(graph, store, node_id));
                node_id += 1;
            }
            proof {
                rounds = rounds + 1;
                lemma_resolved_count_bound(self.values@, n as nat);
            }
        }
        proof {
            lemma_passes_settle(graph, start, graph.len());
            lemma_resolved_count_bound(start, n as nat);
            lemma_passes_meet(graph, start, rounds, graph.len());
        }
    }

    /// Given a graph that has `fill_nodes` already called on it
    /// checks that all the constraints hold.
    pub fn check_constraints(&self) -> (ok: bool)
        ensures
            ok == self.constraints_hold(),
    {
        let mut k: usize = 0;
        while k < self.constraints.len()
            invariant
                k <= self.constraints.len(),
                forall|j: int| 0 <= j < k ==> satisfied(self.values(), #[trigger] self.constraints()[j]),
            decreases self.constraints.len() - k,
        {
            let constraint = &self.constraints[k];
            let holds = match (
                self.values.get(&constraint.left()),
                self.values.get(&constraint.right()),
            ) {
                (Some(left), Some(right)) => *left == *right,
                _ => false,
            };
            if !holds {
                assert(!satisfied(self.values(), self.constraints()[k as int]));
                return false;
            }
            k += 1;
        }
        true
    }

    /// The value found for `node`, if it is resolved.
    pub fn get_value(&self, node: &Node) -> (value: Option<u32>)
        ensures
            value == lookup(self.values(), node.id()),
    {
        let id = node.id();
        match self.values.get(&id) {
            Some(value) => Some(*value),
            None => None,
        }
    }
}

impl Default for Builder {
    fn default() -> (builder: Self)
        ensures
            builder.wf(),
            builder.graph() == Seq::<Operation>::empty(),
            builder.constraints() == Seq::<EqualityConstraint>::empty(),
            builder.values() == Store::empty(),
    {
        Builder::new()
    }
}

} // verus!
