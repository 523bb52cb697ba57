//! Progress frontiers: minimal antichains of timestamps.
//!
//! A timestamp is a `u64`, totally ordered, with minimum element `0`. A
//! frontier is a minimal antichain of timestamps: it is the lower bound on
//! the times at which a collection may still change. The empty frontier means
//! that no further activity will ever occur, and is the greatest frontier.
//!
//! Because the timestamps here are totally ordered, a well-formed frontier
//! holds at most one element, and its mathematical model is an
//! `Option<int>`: `None` for the empty frontier, `Some(t)` for the
//! singleton `{t}`.

use vstd::prelude::*;

verus! {

/// The order on frontier models: `a` precedes (is less or equal to) `b` when
/// every time that `b` bounds is also bounded by `a`. The empty frontier
/// (`None`) is the greatest element.
pub open spec fn frontier_le(a: Option<int>, b: Option<int>) -> bool {
    match b {
        Option::None => true,
        Option::Some(t) => match a {
            Option::None => false,
            Option::Some(s) => s <= t,
        },
    }
}

/// The least upper bound of two frontier models.
pub open spec fn frontier_join(a: Option<int>, b: Option<int>) -> Option<int> {
    match (a, b) {
        (Option::Some(s), Option::Some(t)) => Option::Some(if s <= t { t } else { s }),
        _ => Option::None,
    }
}

/// The model of inserting one time into a frontier: the minimal antichain of
/// the union with `{t}`.
pub open spec fn frontier_insert(a: Option<int>, t: int) -> Option<int> {
    match a {
        Option::None => Option::Some(t),
        Option::Some(s) => Option::Some(if s <= t { s } else { t }),
    }
}

/// A frontier: a finite set of pairwise-incomparable timestamps, kept
/// minimal by insertion.
#[derive(Debug)]
pub struct Frontier {
    elements: Vec<u64>,
}

impl View for Frontier {
    type V = Option<int>;

    closed spec fn view(&self) -> Option<int> {
        if self.elements@.len() == 0 {
            Option::None
        } else {
            Option::Some(self.elements@[0] as int)
        }
    }
}

impl Clone for Frontier {
    fn clone(&self) -> (r: Self)
        ensures
            r@ == self@,
            r.wf() == self.wf(),
    {
        let elements = self.elements.clone();
        proof {
            assert forall|i: int| 0 <= i < self.elements@.len() implies elements@[i]
                == self.elements@[i] by {
                assert(vstd::pervasive::cloned::<u64>(self.elements@[i], elements@[i]));
            }
            assert(elements@ =~= self.elements@);
        }
        Frontier { elements }
    }
}

impl Frontier {
    /// Antichain well-formedness: no element is less than or equal to
    /// another. Under a total order this bounds the set to one element.
    pub closed spec fn wf(&self) -> bool {
        forall|i: int, j: int|
            0 <= i < self.elements@.len() && 0 <= j < self.elements@.len() && i != j ==> !(
            self.elements@[i] <= self.elements@[j])
    }

    proof fn lemma_wf_len(&self)
        requires
            self.wf(),
        ensures
            self.elements@.len() <= 1,
    {
        if self.elements@.len() >= 2 {
            assert(!(self.elements@[0] <= self.elements@[1]));
            assert(!(self.elements@[1] <= self.elements@[0]));
        }
    }

    /// The empty frontier: no further activity will ever occur.
    pub fn new() -> (f: Frontier)
        ensures
            f.wf(),
            f@ == Option::<int>::None,
    {
        Frontier { elements: Vec::new() }
    }

    /// The singleton frontier `{t}`.
    pub fn from_elem(t: u64) -> (f: Frontier)
        ensures
            f.wf(),
            f@ == Option::Some(t as int),
    {
        let mut elements: Vec<u64> = Vec::new();
        elements.push(t);
        Frontier { elements }
    }

    /// The frontier holding the minimum timestamp: it retains all history.
    pub fn minimum() -> (f: Frontier)
        ensures
            f.wf(),
            f@ == Option::Some(0int),
    {
        Frontier::from_elem(0)
    }

    pub fn is_empty(&self) -> (b: bool)
        ensures
            b == (self@ == Option::<int>::None),
    {
        self.elements.len() == 0
    }

    /// The single element of a well-formed frontier, if any.
    pub fn as_option(&self) -> (r: Option<u64>)
        requires
            self.wf(),
        ensures
            match r {
                Option::None => self@ == Option::<int>::None,
                Option::Some(t) => self@ == Option::Some(t as int),
            },
    {
        if self.elements.len() == 0 {
            Option::None
        } else {
            Option::Some(self.elements[0])
        }
    }

    /// Inserts a time, keeping the set a minimal antichain: the new time is
    /// discarded when an existing element is less than or equal to it, and
    /// otherwise it displaces every element it is less than or equal to.
    /// Returns whether the time was inserted.
    pub fn insert(&mut self, t: u64) -> (inserted: bool)
        requires
            old(self).wf(),
        ensures
            final(self).wf(),
            final(self)@ == frontier_insert(old(self)@, t as int),
    {
        proof {
            self.lemma_wf_len();
        }
        let n = self.elements.len();
        let mut i: usize = 0;
        let mut dominated = false;
        while i < n
            invariant
                n == self.elements@.len(),
                i <= n,
                dominated == exists|k: int| 0 <= k < i && self.elements@[k] <= t,
            decreases n - i,
        {
            if self.elements[i] <= t {
                dominated = true;
            }
            i += 1;
        }
        if !dominated {
            // No element is less than or equal to `t`, so under the total
            // order `t` is less than or equal to every element: the retain
            // step keeps nothing.
            let mut kept: Vec<u64> = Vec::new();
            let mut j: usize = 0;
            while j < n
                invariant
                    n == self.elements@.len(),
                    j <= n,
                    forall|k: int| 0 <= k < n ==> !(self.elements@[k] <= t),
                    kept@.len() == 0,
                decreases n - j,
            {
                let e = self.elements[j];
                if !(t <= e) {
                    kept.push(e);
                }
                j += 1;
            }
            kept.push(t);
            self.elements = kept;
            true
        } else {
            false
        }
    }

    /// The least upper bound of two frontiers: progress joins forward, and
    /// the empty frontier absorbs everything.
    pub fn join(&self, other: &Frontier) -> (r: Frontier)
        requires
            self.wf(),
            other.wf(),
        ensures
            r.wf(),
            r@ == frontier_join(self@, other@),
    {
        proof {
            self.lemma_wf_len();
            other.lemma_wf_len();
        }
        if self.elements.len() == 0 || other.elements.len() == 0 {
            Frontier::new()
        } else {
            let s = self.elements[0];
            let t = other.elements[0];
            Frontier::from_elem(if s <= t {
                t
            } else {
                s
            })
        }
    }

    /// Decides `frontier_le` on the models.
    pub fn less_equal(&self, other: &Frontier) -> (b: bool)
        requires
            self.wf(),
            other.wf(),
        ensures
            b == frontier_le(self@, other@),
    {
        proof {
            self.lemma_wf_len();
            other.lemma_wf_len();
        }
        if other.elements.len() == 0 {
            true
        } else if self.elements.len() == 0 {
            false
        } else {
            self.elements[0] <= other.elements[0]
        }
    }
}

/// Joining never moves a frontier backward: the join is an upper bound of
/// both arguments.
pub proof fn lemma_join_advances(a: Option<int>, b: Option<int>)
    ensures
        frontier_le(a, frontier_join(a, b)),
        frontier_le(b, frontier_join(a, b)),
{
}

/// The frontier order is transitive, so a chain of monotone steps is
/// monotone end to end.
pub proof fn lemma_frontier_le_transitive(a: Option<int>, b: Option<int>, c: Option<int>)
    requires
        frontier_le(a, b),
        frontier_le(b, c),
    ensures
        frontier_le(a, c),
{
}

/// The frontier order is reflexive.
pub proof fn lemma_frontier_le_reflexive(a: Option<int>)
    ensures
        frontier_le(a, a),
{
}

} // verus!
