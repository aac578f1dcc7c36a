//! A loot tree: each node carries a weight ("chances"), the nodes cover
//! adjacent half-open ranges of a die, and a roll picks the node whose
//! range the random number falls in.
//!
//! With nodes of chances 5 and 2 the first covers rolls 0 through 4, the
//! second rolls 5 and 6, and the die has 7 sides.

use crate::curve::step_lookup;
use crate::curve::StepCurve;
use vstd::pervasive::cloned;
use vstd::prelude::*;

verus! {

/// One loot entry: its weight and what it yields.
#[derive(Clone, Debug)]
pub struct LootTreeNode<R> {
    pub chances: i32,
    pub result: R,
}

/// The nodes a loot tree is built from, in order.
#[derive(Clone, Debug)]
pub struct LootTreeBuilder<R> {
    pub nodes: Vec<LootTreeNode<R>>,
}

/// A built loot tree: a step function from roll to result, and the number
/// of sides of the die.
pub struct LootTree<R> {
    /// Maps a roll to the node whose range covers it.
    pub partial_func: StepCurve<R>,
    /// One past the largest meaningful roll: the sum of all chances.
    pub max: i64,
}

/// The sum of the first `i` nodes' chances.
pub open spec fn spec_chance_sum<R>(nodes: Seq<LootTreeNode<R>>, i: int) -> int
    decreases i,
{
    if i <= 0 {
        0int
    } else {
        spec_chance_sum(nodes, i - 1) + nodes[i - 1].chances
    }
}

/// Relies on rand's `thread_rng` and `Rng::gen_range`: sampling a
/// non-empty `low..high` range yields a value within it (and panics on an
/// empty range, which the precondition rules out).
#[verifier::external_body]
fn random_in_range(low: i64, high: i64) -> (r: i64)
    requires
        low < high,
    ensures
        low <= r < high,
{
    rand::Rng::gen_range(&mut rand::thread_rng(), low..high)
}

impl<R: Clone> LootTreeBuilder<R> {
    /// An empty builder.
    pub fn new() -> (r: LootTreeBuilder<R>)
        ensures
            r.nodes@.len() == 0,
    {
        LootTreeBuilder { nodes: Vec::new() }
    }

    /// Build the tree: node `i` covers the rolls from the sum of the
    /// chances before it (inclusive) up to its own sum (exclusive), and
    /// the die gets one side per point of chance.
    pub fn build(self) -> (t: LootTree<R>)
        requires
            self.nodes@.len() <= 0x7FFF_FFFF,
        ensures
            t.partial_func.pieces@.len() == self.nodes@.len(),
            forall|i: int|
                0 <= i < self.nodes@.len() ==> (#[trigger] t.partial_func.pieces@[i]).0
                    == spec_chance_sum(self.nodes@, i) && cloned(
                    self.nodes@[i].result,
                    t.partial_func.pieces@[i].1,
                ),
            t.max as int == spec_chance_sum(self.nodes@, self.nodes@.len() as int),
    {
        let ghost nodes = self.nodes@;
        let mut f: StepCurve<R> = StepCurve::new();
        let mut accum: i64 = 0;
        let mut idx: usize = 0;
        while idx < self.nodes.len()
            invariant
                0 <= idx <= nodes.len(),
                self.nodes@ == nodes,
                nodes.len() <= 0x7FFF_FFFF,
                accum as int == spec_chance_sum(nodes, idx as int),
                -(idx as int) * 0x8000_0000 <= accum as int <= (idx as int) * 0x8000_0000,
                f.pieces@.len() == idx,
                forall|i: int|
                    0 <= i < idx ==> (#[trigger] f.pieces@[i]).0 == spec_chance_sum(nodes, i)
                        && cloned(nodes[i].result, f.pieces@[i].1),
            decreases nodes.len() - idx,
        {
            proof {
                assert((idx as int) * 0x8000_0000 <= 0x7FFF_FFFF * 0x8000_0000) by (nonlinear_arith)
                    requires
                        0 <= idx as int <= 0x7FFF_FFFF,
                ;
                assert(((idx + 1) as int) * 0x8000_0000 == (idx as int) * 0x8000_0000 + 0x8000_0000)
                    by (nonlinear_arith);
            }
            let node = &self.nodes[idx];
            let value = node.result.clone();
            proof {
                assert(cloned(nodes[idx as int].result, value));
            }
            f.pieces.push((accum, value));
            accum = accum + (node.chances as i64);
            idx += 1;
        }
        LootTree { partial_func: f, max: accum }
    }
}

impl<R: Clone> LootTree<R> {
    /// Roll the die: some value of the die's range is drawn, and the node
    /// covering it yields a clone of its result. An empty or weightless
    /// tree yields nothing.
    pub fn roll(&self) -> (r: Option<R>)
        ensures
            self.max <= 0 ==> r is None,
            self.max > 0 ==> match r {
                Option::Some(v) => exists|u: int|
                    0 <= u < self.max && match #[trigger] step_lookup(
                        self.partial_func.pieces@,
                        u,
                    ) {
                        Option::Some(w) => cloned(w, v),
                        Option::None => false,
                    },
                Option::None => exists|u: int|
                    0 <= u < self.max && #[trigger] step_lookup(
                        self.partial_func.pieces@,
                        u,
                    ) is None,
            },
    {
        if self.max <= 0 {
            return Option::None;
        }
        let u = random_in_range(0, self.max);
        match self.partial_func.eval(u) {
            Option::Some(v) => {
                let out = v.clone();
                proof {
                    assert(cloned(*v, out));
                    assert(match step_lookup(self.partial_func.pieces@, u as int) {
                        Option::Some(w) => cloned(w, out),
                        Option::None => false,
                    });
                }
                Option::Some(out)
            },
            Option::None => {
                proof {
                    assert(step_lookup(self.partial_func.pieces@, u as int) is None);
                }
                Option::None
            },
        }
    }
}

} // verus!
