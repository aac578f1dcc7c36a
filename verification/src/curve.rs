//! A sparse step function over a signed domain, used for the jump timing
//! bonus: an ordered list of `(threshold, value)` pieces looked up by
//! "lower bound wins" — the latest piece whose threshold lies at or below
//! the query applies.

use vstd::prelude::*;

verus! {

/// A step function held as `(threshold, value)` pieces. Builders append
/// pieces with nondecreasing thresholds; a query below every threshold has
/// no value.
#[derive(Clone, Debug)]
pub struct StepCurve<V> {
    /// `(threshold, value)` pairs.
    pub pieces: Vec<(i64, V)>,
}

/// The value of the latest piece whose threshold lies at or below `x`.
pub open spec fn step_lookup<V>(pieces: Seq<(i64, V)>, x: int) -> Option<V>
    decreases pieces.len(),
{
    if pieces.len() == 0 {
        Option::None
    } else if pieces.last().0 <= x {
        Option::Some(pieces.last().1)
    } else {
        step_lookup(pieces.drop_last(), x)
    }
}

/// Whatever a lookup returns is the value of one of the pieces.
pub proof fn lemma_step_lookup_in<V>(pieces: Seq<(i64, V)>, x: int)
    ensures
        match step_lookup(pieces, x) {
            Option::Some(v) => exists|i: int| 0 <= i < pieces.len() && (#[trigger] pieces[i]).1 == v,
            Option::None => true,
        },
    decreases pieces.len(),
{
    if pieces.len() > 0 {
        if pieces.last().0 <= x {
            assert(pieces[pieces.len() - 1].1 == pieces.last().1);
        } else {
            lemma_step_lookup_in(pieces.drop_last(), x);
            match step_lookup(pieces.drop_last(), x) {
                Option::Some(v) => {
                    let i = choose|i: int|
                        0 <= i < pieces.drop_last().len() && (#[trigger] pieces.drop_last()[i]).1
                            == v;
                    assert(pieces[i].1 == v);
                },
                Option::None => {},
            }
        }
    }
}

impl<V> StepCurve<V> {
    /// An empty curve: no query has a value.
    pub fn new() -> (r: StepCurve<V>)
        ensures
            r.pieces@.len() == 0,
    {
        StepCurve { pieces: Vec::new() }
    }

    /// Look up the latest piece whose threshold lies at or below `x`.
    pub fn eval(&self, x: i64) -> (r: Option<&V>)
        ensures
            match r {
                Option::Some(v) => step_lookup(self.pieces@, x as int) == Option::Some(*v),
                Option::None => step_lookup(self.pieces@, x as int) is None,
            },
    {
        let ghost full = self.pieces@;
        let mut idx: usize = self.pieces.len();
        proof {
            assert(full.take(idx as int) =~= full);
        }
        while idx > 0
            invariant
                0 <= idx <= self.pieces@.len(),
                self.pieces@ == full,
                step_lookup(full, x as int) == step_lookup(full.take(idx as int), x as int),
            decreases idx,
        {
            let i = idx - 1;
            let piece = &self.pieces[i];
            proof {
                assert(full.take(idx as int).last() == full[i as int]);
                assert(full.take(idx as int).drop_last() =~= full.take(i as int));
            }
            if piece.0 <= x {
                return Some(&piece.1);
            }
            idx = i;
        }
        proof {
            assert(full.take(0) =~= Seq::<(i64, V)>::empty());
        }
        None
    }
}

} // verus!
