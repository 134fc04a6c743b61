use vstd::prelude::*;
use crate::decimal::Decimal;
use crate::pubkey::{contains_mint, has_mint, DeserializablePubkey};
use crate::range::Range;
use crate::resolved::{ResolvedConfiguration, SlippageCategory};

verus! {

/// The tolerance that applies to a swap between two assets.
#[derive(Copy, Clone, Debug, PartialEq, Eq, Structural)]
pub enum Resolution {
    /// Both assets belong to one category that has a pair range.
    PairRange(Range),
    /// One category's range applies: only one asset matched, or both matched
    /// categories with the same range.
    CategoryRange(Range),
    /// The assets first match different categories with different ranges:
    /// `first` is that of the first asset, `second` that of the second; the caller
    /// chooses how to combine them.
    CrossCategory { first: Range, second: Range },
    /// Neither asset belongs to any category.
    Fallback { range: Range, amplification_ratio: Decimal },
}

/// Whether the asset `id` belongs to the category `c`.
pub open spec fn in_category(c: SlippageCategory, id: Seq<u8>) -> bool {
    has_mint(c.mints@, id)
}

/// The first category at or after `i` that the asset `id` belongs to.
pub open spec fn first_member_from(cats: Seq<SlippageCategory>, id: Seq<u8>, i: int) -> Option<int>
    decreases cats.len() - i,
{
    if i < 0 || i >= cats.len() {
        None
    } else if in_category(cats[i], id) {
        Some(i)
    } else {
        first_member_from(cats, id, i + 1)
    }
}

/// Whether the category `c` has a pair range and holds both assets.
pub open spec fn pair_applies(c: SlippageCategory, a: Seq<u8>, b: Seq<u8>) -> bool {
    c.pair_range is Some && in_category(c, a) && in_category(c, b)
}

/// The first category at or after `i` whose pair range applies to `a` and `b`.
pub open spec fn first_pair_from(cats: Seq<SlippageCategory>, a: Seq<u8>, b: Seq<u8>, i: int) -> Option<
    int,
>
    decreases cats.len() - i,
{
    if i < 0 || i >= cats.len() {
        None
    } else if pair_applies(cats[i], a, b) {
        Some(i)
    } else {
        first_pair_from(cats, a, b, i + 1)
    }
}

/// `first_member_from` finds the first category at or after `i` holding `id`, or
/// reports that none does.
pub proof fn lemma_first_member(cats: Seq<SlippageCategory>, id: Seq<u8>, i: int)
    requires
        0 <= i,
    ensures
        match first_member_from(cats, id, i) {
            Some(k) => i <= k < cats.len() && in_category(cats[k], id) && forall|j: int|
                i <= j < k ==> !in_category(#[trigger] cats[j], id),
            None => forall|j: int| i <= j < cats.len() ==> !in_category(#[trigger] cats[j], id),
        },
    decreases cats.len() - i,
{
    if i < cats.len() && !in_category(cats[i], id) {
        lemma_first_member(cats, id, i + 1);
    }
}

/// `first_pair_from` finds the first category at or after `i` whose pair range
/// applies to `a` and `b`, or reports that none does.
pub proof fn lemma_first_pair(cats: Seq<SlippageCategory>, a: Seq<u8>, b: Seq<u8>, i: int)
    requires
        0 <= i,
    ensures
        match first_pair_from(cats, a, b, i) {
            Some(k) => i <= k < cats.len() && pair_applies(cats[k], a, b) && forall|j: int|
                i <= j < k ==> !pair_applies(#[trigger] cats[j], a, b),
            None => forall|j: int| i <= j < cats.len() ==> !pair_applies(#[trigger] cats[j], a, b),
        },
    decreases cats.len() - i,
{
    if i < cats.len() && !pair_applies(cats[i], a, b) {
        lemma_first_pair(cats, a, b, i + 1);
    }
}

/// What resolution gives for a swap between `a` and `b` under `config`.
pub open spec fn resolution(config: ResolvedConfiguration, a: Seq<u8>, b: Seq<u8>) -> Resolution {
    let cats = config.categories@;
    match first_pair_from(cats, a, b, 0) {
        Some(i) => Resolution::PairRange(cats[i].pair_range->0),
        None => match (first_member_from(cats, a, 0), first_member_from(cats, b, 0)) {
            (Some(i), Some(j)) => if cats[i].range == cats[j].range {
                Resolution::CategoryRange(cats[i].range)
            } else {
                Resolution::CrossCategory { first: cats[i].range, second: cats[j].range }
            },
            (Some(i), None) => Resolution::CategoryRange(cats[i].range),
            (None, Some(j)) => Resolution::CategoryRange(cats[j].range),
            (None, None) => Resolution::Fallback {
                range: config.default.range,
                amplification_ratio: config.default.amplification_ratio,
            },
        },
    }
}

/// The first category, in document order, that the asset `id` belongs to.
pub fn first_category(cats: &Vec<SlippageCategory>, id: &DeserializablePubkey) -> (r: Option<usize>)
    ensures
        match r {
            Some(i) => first_member_from(cats@, id@, 0) == Some(i as int),
            None => first_member_from(cats@, id@, 0) is None,
        },
{
    let mut i: usize = 0;
    while i < cats.len()
        invariant
            i <= cats.len(),
            first_member_from(cats@, id@, 0) == first_member_from(cats@, id@, i as int),
        decreases cats.len() - i,
    {
        if contains_mint(&cats[i].mints, id) {
            return Some(i);
        }
        i = i + 1;
    }
    None
}

/// The first category, in document order, that holds both assets and has a pair range.
pub fn first_pair_category(
    cats: &Vec<SlippageCategory>,
    a: &DeserializablePubkey,
    b: &DeserializablePubkey,
) -> (r: Option<usize>)
    ensures
        match r {
            Some(i) => first_pair_from(cats@, a@, b@, 0) == Some(i as int),
            None => first_pair_from(cats@, a@, b@, 0) is None,
        },
{
    let mut i: usize = 0;
    while i < cats.len()
        invariant
            i <= cats.len(),
            first_pair_from(cats@, a@, b@, 0) == first_pair_from(cats@, a@, b@, i as int),
        decreases cats.len() - i,
    {
        if cats[i].pair_range.is_some() && contains_mint(&cats[i].mints, a) && contains_mint(
            &cats[i].mints,
            b,
        ) {
            return Some(i);
        }
        i = i + 1;
    }
    None
}

impl ResolvedConfiguration {
    /// The tolerance for a swap between `a` and `b`: a pair range shared by both
    /// assets first, then the ranges of the first categories each asset belongs to,
    /// then the fallback.
    pub fn resolve(&self, a: &DeserializablePubkey, b: &DeserializablePubkey) -> (r: Resolution)
        ensures
            r == resolution(*self, a@, b@),
    {
        match first_pair_category(&self.categories, a, b) {
            Some(i) => {
                proof {
                    lemma_first_pair(self.categories@, a@, b@, 0);
                }
                let p = self.categories[i].pair_range.unwrap();
                Resolution::PairRange(p)
            },
            None => {
                let fa = first_category(&self.categories, a);
                let fb = first_category(&self.categories, b);
                proof {
                    lemma_first_member(self.categories@, a@, 0);
                    lemma_first_member(self.categories@, b@, 0);
                }
                match (fa, fb) {
                    (Some(i), Some(j)) => {
                        let ri = self.categories[i].range;
                        let rj = self.categories[j].range;
                        if ri == rj {
                            Resolution::CategoryRange(ri)
                        } else {
                            Resolution::CrossCategory { first: ri, second: rj }
                        }
                    },
                    (Some(i), None) => Resolution::CategoryRange(self.categories[i].range),
                    (None, Some(j)) => Resolution::CategoryRange(self.categories[j].range),
                    (None, None) => Resolution::Fallback {
                        range: self.default.range,
                        amplification_ratio: self.default.amplification_ratio,
                    },
                }
            },
        }
    }
}

} // verus!
