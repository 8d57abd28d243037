use vstd::prelude::*;

verus! {

/// An item that may be chosen for a knapsack: what it is worth and what it weighs.
///
/// Its density is `value / weight`. A weight of zero gives the largest density
/// there is, shared by every item of weight zero.
#[derive(Clone, Copy, Debug, PartialEq, Eq, Structural, PartialOrd, Ord)]
pub struct Item {
    pub value: u64,
    pub weight: u64,
}

/// The outcome of a search for the best knapsack: the indices of the chosen
/// items, their total weight and their total value.
pub type SearchResult = (Vec<usize>, usize, u64);

/// `a` is at least as dense as `b`, compared exactly as rationals
/// (`a.value / a.weight >= b.value / b.weight`, by cross multiplication).
/// Items of weight zero are denser than every other item and as dense as each other.
pub open spec fn density_ge(a: Item, b: Item) -> bool {
    if b.weight == 0 {
        a.weight == 0
    } else if a.weight == 0 {
        true
    } else {
        a.value as int * b.weight as int >= b.value as int * a.weight as int
    }
}

/// `a` and `b` have the same density.
pub open spec fn same_density(a: Item, b: Item) -> bool {
    density_ge(a, b) && density_ge(b, a)
}

/// Any two items are comparable by density.
pub proof fn lemma_density_total(a: Item, b: Item)
    ensures
        density_ge(a, b) || density_ge(b, a),
{
}

/// Comparing by density is transitive.
pub proof fn lemma_density_transitive(a: Item, b: Item, c: Item)
    requires
        density_ge(a, b),
        density_ge(b, c),
    ensures
        density_ge(a, c),
{
    if a.weight != 0 && b.weight != 0 && c.weight != 0 {
        let (av, aw, bv, bw, cv, cw) = (
            a.value as int,
            a.weight as int,
            b.value as int,
            b.weight as int,
            c.value as int,
            c.weight as int,
        );
        assert(av * bw * cw >= bv * aw * cw) by (nonlinear_arith)
            requires
                av * bw >= bv * aw,
                cw > 0,
        ;
        assert(bv * cw * aw >= cv * bw * aw) by (nonlinear_arith)
            requires
                bv * cw >= cv * bw,
                aw > 0,
        ;
        assert(av * cw >= cv * aw) by (nonlinear_arith)
            requires
                av * bw * cw >= bv * aw * cw,
                bv * cw * aw >= cv * bw * aw,
                bw > 0,
        ;
    }
}

impl Item {
    /// Whether this item is at least as dense as `other`, compared exactly.
    pub fn denser_or_equal(&self, other: &Item) -> (r: bool)
        ensures
            r == density_ge(*self, *other),
    {
        if other.weight == 0 {
            self.weight == 0
        } else if self.weight == 0 {
            true
        } else {
            let (av, aw, bv, bw) = (
                self.value as u128,
                self.weight as u128,
                other.value as u128,
                other.weight as u128,
            );
            assert(av * bw <= u64::MAX as u128 * u64::MAX as u128) by (nonlinear_arith)
                requires
                    av <= u64::MAX,
                    bw <= u64::MAX,
            ;
            assert(bv * aw <= u64::MAX as u128 * u64::MAX as u128) by (nonlinear_arith)
                requires
                    bv <= u64::MAX,
                    aw <= u64::MAX,
            ;
            av * bw >= bv * aw
        }
    }
}

} // verus!
