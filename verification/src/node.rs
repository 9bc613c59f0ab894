//! Node handles, equality constraints and the hint interface.

use std::collections::HashMap;
use vstd::prelude::*;

verus! {

/// A handle naming one position of a graph.
#[derive(Debug, Copy, Clone)]
pub struct Node {
    id: usize,
}

impl Node {
    /// The position this handle names.
    pub closed spec fn spec_id(&self) -> usize {
        self.id
    }

    /// The handle of position `id`.
    pub fn new(id: usize) -> (node: Self)
        ensures
            node.id() == id,
    {
        Node { id }
    }

    /// The position this handle names.
    #[verifier::when_used_as_spec(spec_id)]
    pub fn id(&self) -> (id: usize)
        ensures
            id == self.id(),
    {
        self.id
    }
}

/// A demand that two positions of a graph carry the same value.
#[derive(Debug)]
pub struct EqualityConstraint {
    left: usize,
    right: usize,
}

impl EqualityConstraint {
    /// The first of the two positions.
    pub closed spec fn spec_left(&self) -> usize {
        self.left
    }

    /// The second of the two positions.
    pub closed spec fn spec_right(&self) -> usize {
        self.right
    }

    /// The constraint that positions `left` and `right` carry one value.
    pub closed spec fn spec_new(left: usize, right: usize) -> Self {
        Self { left, right }
    }

    /// The constraint that positions `left` and `right` carry one value.
    #[verifier::when_used_as_spec(spec_new)]
    pub fn new(left: usize, right: usize) -> (constraint: Self)
        ensures
            constraint == EqualityConstraint::new(left, right),
            constraint.left() == left,
            constraint.right() == right,
    {
        Self { left, right }
    }

    /// A constraint is the two positions it names.
    pub proof fn lemma_sides(left: usize, right: usize)
        ensures
            (#[trigger] EqualityConstraint::new(left, right)).left() == left,
            EqualityConstraint::new(left, right).right() == right,
    {
    }

    /// The first of the two positions.
    #[verifier::when_used_as_spec(spec_left)]
    pub fn left(&self) -> (left: usize)
        ensures
            left == self.left(),
    {
        self.left
    }

    /// The second of the two positions.
    #[verifier::when_used_as_spec(spec_right)]
    pub fn right(&self) -> (right: usize)
        ensures
            right == self.right(),
    {
        self.right
    }
}

/// A computation that proposes the value of a node from the values known so
/// far. `None` means that it cannot tell yet.
pub trait HintFn: Send {
    /// What must hold of a hint before it may be asked.
    spec fn inv(&self) -> bool;

    /// `answer` is an answer this hint can give when it is shown `values`.
    spec fn yields(&self, values: Map<usize, u32>, answer: Option<u32>) -> bool;

    /// Asks the hint. Its answer is the only one it can give on these values:
    /// a hint is a function of the values it is shown.
    fn compute(&self, values: &HashMap<usize, u32>) -> (answer: Option<u32>)
        requires
            self.inv(),
        ensures
            self.yields(values@, answer),
            forall|other: Option<u32>| self.yields(values@, other) ==> other == answer,
    ;
}

/// Every map may be handed to `f`.
pub open spec fn accepts_every_map<F: Fn(&HashMap<usize, u32>) -> Option<u32>>(f: F) -> bool {
    forall|values: &HashMap<usize, u32>| call_requires(f, (values,))
}

/// What `f` returns depends on nothing but the contents of the map.
pub open spec fn single_valued<F: Fn(&HashMap<usize, u32>) -> Option<u32>>(f: F) -> bool {
    forall|
        v1: &HashMap<usize, u32>,
        v2: &HashMap<usize, u32>,
        a1: Option<u32>,
        a2: Option<u32>,
    |
        v1@ == v2@ && call_ensures(f, (v1,), a1) && call_ensures(f, (v2,), a2) ==> a1 == a2
}

/// `f` can return `answer` on a map that holds `values`.
pub open spec fn returns_on<F: Fn(&HashMap<usize, u32>) -> Option<u32>>(
    f: F,
    values: Map<usize, u32>,
    answer: Option<u32>,
) -> bool {
    exists|v: &HashMap<usize, u32>| v@ == values && call_ensures(f, (v,), answer)
}

/// A function is a hint, provided it takes every map and looks at nothing but
/// the map's contents. It yields what it can return.
impl<F> HintFn for F where F: Fn(&HashMap<usize, u32>) -> Option<u32> + Send + 'static {
    open spec fn inv(&self) -> bool {
        accepts_every_map(*self) && single_valued(*self)
    }

    open spec fn yields(&self, values: Map<usize, u32>, answer: Option<u32>) -> bool {
        returns_on(*self, values, answer)
    }

    fn compute(&self, values: &HashMap<usize, u32>) -> (answer: Option<u32>) {
        let answer = self(values);
        assert(call_ensures(*self, (values,), answer));
        answer
    }
}

} // verus!
