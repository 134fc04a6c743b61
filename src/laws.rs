use vstd::prelude::*;
use crate::engine::{
    first_member_from, first_pair_from, in_category, lemma_first_member, lemma_first_pair,
    pair_applies, resolution, Resolution,
};
use crate::pubkey::DeserializablePubkey;
use crate::resolved::{categories_disjoint, ResolvedConfiguration};

verus! {

/// Resolving the same pair of assets against the same configuration twice gives
/// the same result.
pub proof fn lemma_resolution_deterministic(
    c1: ResolvedConfiguration,
    c2: ResolvedConfiguration,
    a1: DeserializablePubkey,
    a2: DeserializablePubkey,
    b1: DeserializablePubkey,
    b2: DeserializablePubkey,
)
    requires
        c1 == c2,
        a1@ == a2@,
        b1@ == b2@,
    ensures
        resolution(c1, a1@, b1@) == resolution(c2, a2@, b2@),
{
}

/// In a well-formed configuration every range that resolution hands out has its
/// lower bound at or below its upper bound.
pub proof fn lemma_resolved_ranges_ordered(
    config: ResolvedConfiguration,
    a: DeserializablePubkey,
    b: DeserializablePubkey,
)
    requires
        config.wf(),
    ensures
        match resolution(config, a@, b@) {
            Resolution::PairRange(r) => r.wf(),
            Resolution::CategoryRange(r) => r.wf(),
            Resolution::CrossCategory { first, second } => first.wf() && second.wf(),
            Resolution::Fallback { range, .. } => range.wf(),
        },
{
    let cats = config.categories@;
    lemma_first_pair(cats, a@, b@, 0);
    lemma_first_member(cats, a@, 0);
    lemma_first_member(cats, b@, 0);
    if let Some(i) = first_pair_from(cats, a@, b@, 0) {
        assert(cats[i].wf());
    } else {
        if let Some(i) = first_member_from(cats, a@, 0) {
            assert(cats[i].wf());
        }
        if let Some(j) = first_member_from(cats, b@, 0) {
            assert(cats[j].wf());
        }
    }
}

/// When some category with a pair range holds both assets, the pair rule decides:
/// the result is a pair range. When no address belongs to two categories, it is
/// that category's pair range.
pub proof fn lemma_pair_rule_precedence(
    config: ResolvedConfiguration,
    a: DeserializablePubkey,
    b: DeserializablePubkey,
    i: int,
)
    requires
        0 <= i < config.categories@.len(),
        config.categories@[i].pair_range is Some,
        in_category(config.categories@[i], a@),
        in_category(config.categories@[i], b@),
    ensures
        resolution(config, a@, b@) is PairRange,
        categories_disjoint(config.categories@) ==> resolution(config, a@, b@)
            == Resolution::PairRange(config.categories@[i].pair_range->0),
{
    let cats = config.categories@;
    assert(pair_applies(cats[i], a@, b@));
    lemma_first_pair(cats, a@, b@, 0);
    if categories_disjoint(cats) {
        let k = first_pair_from(cats, a@, b@, 0)->0;
        if k < i {
            let m = choose|m: int| 0 <= m < cats[k].mints@.len() && (#[trigger] cats[k].mints@[m])@
                == a@;
            assert(crate::pubkey::share_mint(cats[k].mints@, cats[i].mints@)) by {
                assert(crate::pubkey::has_mint(cats[i].mints@, cats[k].mints@[m]@));
            }
        }
    }
}

/// When neither asset belongs to any category, resolution gives the fallback range
/// and amplification ratio.
pub proof fn lemma_unmatched_falls_back(
    config: ResolvedConfiguration,
    a: DeserializablePubkey,
    b: DeserializablePubkey,
)
    requires
        forall|i: int|
            0 <= i < config.categories@.len() ==> !in_category(
                #[trigger] config.categories@[i],
                a@,
            ) && !in_category(config.categories@[i], b@),
    ensures
        resolution(config, a@, b@) == (Resolution::Fallback {
            range: config.default.range,
            amplification_ratio: config.default.amplification_ratio,
        }),
{
    let cats = config.categories@;
    lemma_first_pair(cats, a@, b@, 0);
    lemma_first_member(cats, a@, 0);
    lemma_first_member(cats, b@, 0);
}

} // verus!
