use vstd::prelude::*;
use crate::config::{all_decode, decode_mints, decoded_from};
use crate::decimal::{is_decimal_text, mantissa_of, scale_of, Decimal};
use crate::error::ConfigError;
use crate::pubkey::{share_mint, shares_mint, DeserializablePubkey};
use crate::range::Range;

verus! {

/// The amplification ratio a document gets when it gives none: `1.5`.
pub open spec fn default_ratio() -> Decimal {
    Decimal { mantissa: 15, scale: 1 }
}

/// Whether a category's own range, and its pair range if any, are well formed.
pub open spec fn category_ranges_wf(range: Range, pair_range: Option<Range>) -> bool {
    range.wf() && (pair_range matches Some(p) ==> p.wf())
}

/// A named group of account addresses with the tolerance that applies to them.
#[derive(Debug)]
pub struct SlippageCategory {
    pub name: String,
    /// Applies when one side of a swap belongs to the category.
    pub range: Range,
    /// Applies instead of `range` when both sides belong to the category.
    pub pair_range: Option<Range>,
    pub mints: Vec<DeserializablePubkey>,
}

impl SlippageCategory {
    pub open spec fn wf(&self) -> bool {
        category_ranges_wf(self.range, self.pair_range)
    }

    /// Builds a category from its name, its ranges and the texts of its addresses.
    /// Inverted ranges are reported before undecodable addresses.
    pub fn new(name: String, range: Range, pair_range: Option<Range>, mint_texts: &Vec<String>) -> (r:
        Result<SlippageCategory, ConfigError>)
        ensures
            !category_ranges_wf(range, pair_range) ==> r == Err::<SlippageCategory, ConfigError>(
                ConfigError::InvertedRange,
            ),
            category_ranges_wf(range, pair_range) && !all_decode(mint_texts@) ==> r == Err::<
                SlippageCategory,
                ConfigError,
            >(ConfigError::MalformedIdentifier),
            category_ranges_wf(range, pair_range) && all_decode(mint_texts@) ==> r is Ok,
            r matches Ok(c) ==> c.wf() && c.name == name && c.range == range && c.pair_range
                == pair_range && decoded_from(c.mints@, mint_texts@),
    {
        if !range.is_valid() {
            return Err(ConfigError::InvertedRange);
        }
        if let Some(p) = pair_range {
            if !p.is_valid() {
                return Err(ConfigError::InvertedRange);
            }
        }
        let mints = decode_mints(mint_texts)?;
        Ok(SlippageCategory { name, range, pair_range, mints })
    }
}

/// The tolerance that applies when no category matches.
#[derive(Debug)]
pub struct DefaultConfig {
    pub range: Range,
    pub amplification_ratio: Decimal,
}

impl DefaultConfig {
    pub open spec fn wf(&self) -> bool {
        self.range.wf()
    }

    /// Builds the fallback from its range and the text of its ratio, `1.5` when the
    /// document gives none. An inverted range is reported before a bad ratio.
    pub fn new(range: Range, amplification_ratio: Option<&str>) -> (r: Result<
        DefaultConfig,
        ConfigError,
    >)
        ensures
            !range.wf() ==> r == Err::<DefaultConfig, ConfigError>(ConfigError::InvertedRange),
            range.wf() && amplification_ratio is None ==> r == Ok::<DefaultConfig, ConfigError>(
                (DefaultConfig { range, amplification_ratio: default_ratio() }),
            ),
            range.wf() && amplification_ratio is Some ==> match r {
                Ok(d) => is_decimal_text(amplification_ratio->0@) && d.range == range
                    && d.amplification_ratio.mantissa == mantissa_of(amplification_ratio->0@)
                    && d.amplification_ratio.scale == scale_of(amplification_ratio->0@),
                Err(e) => if !is_decimal_text(amplification_ratio->0@) {
                    e == ConfigError::MalformedDocument
                } else {
                    e == ConfigError::OutOfRangeNumeric && mantissa_of(amplification_ratio->0@)
                        > u64::MAX
                },
            },
            r matches Ok(d) ==> d.wf(),
    {
        if !range.is_valid() {
            return Err(ConfigError::InvertedRange);
        }
        let ratio = match amplification_ratio {
            Some(s) => Decimal::parse(s)?,
            None => Decimal { mantissa: 15, scale: 1 },
        };
        Ok(DefaultConfig { range, amplification_ratio: ratio })
    }
}

/// Whether every category of `cats` has well-formed ranges.
pub open spec fn categories_wf(cats: Seq<SlippageCategory>) -> bool {
    forall|i: int| 0 <= i < cats.len() ==> (#[trigger] cats[i]).wf()
}

/// Whether no address belongs to two different categories of `cats`.
pub open spec fn categories_disjoint(cats: Seq<SlippageCategory>) -> bool {
    forall|i: int, j: int|
        0 <= i < j < cats.len() ==> !share_mint(#[trigger] cats[i].mints@, #[trigger] cats[j].mints@)
}

/// The categories, in document order, and the fallback: all that resolution reads.
#[derive(Debug)]
pub struct ResolvedConfiguration {
    pub categories: Vec<SlippageCategory>,
    pub default: DefaultConfig,
}

impl ResolvedConfiguration {
    pub open spec fn wf(&self) -> bool {
        categories_wf(self.categories@) && self.default.wf()
    }

    /// Assembles a configuration; fails when any of its ranges is inverted.
    pub fn new(categories: Vec<SlippageCategory>, default: DefaultConfig) -> (r: Result<
        ResolvedConfiguration,
        ConfigError,
    >)
        ensures
            !(categories_wf(categories@) && default.wf()) ==> r == Err::<
                ResolvedConfiguration,
                ConfigError,
            >(ConfigError::InvertedRange),
            categories_wf(categories@) && default.wf() ==> r is Ok,
            r matches Ok(c) ==> c.wf() && c.categories@ == categories@ && c.default == default,
    {
        let mut i: usize = 0;
        while i < categories.len()
            invariant
                i <= categories.len(),
                forall|j: int| 0 <= j < i ==> (#[trigger] categories@[j]).wf(),
            decreases categories.len() - i,
        {
            let valid = categories[i].range.is_valid() && match categories[i].pair_range {
                Some(p) => p.is_valid(),
                None => true,
            };
            if !valid {
                return Err(ConfigError::InvertedRange);
            }
            i = i + 1;
        }
        if !default.range.is_valid() {
            return Err(ConfigError::InvertedRange);
        }
        Ok(ResolvedConfiguration { categories, default })
    }

    /// Whether no address belongs to more than one category.
    pub fn mints_are_disjoint(&self) -> (r: bool)
        ensures
            r == categories_disjoint(self.categories@),
    {
        let mut i: usize = 0;
        while i < self.categories.len()
            invariant
                i <= self.categories.len(),
                forall|a: int, b: int|
                    0 <= a < i && a < b < self.categories@.len() ==> !share_mint(
                        #[trigger] self.categories@[a].mints@,
                        #[trigger] self.categories@[b].mints@,
                    ),
            decreases self.categories.len() - i,
        {
            let mut j: usize = i + 1;
            while j < self.categories.len()
                invariant
                    i < self.categories.len(),
                    i + 1 <= j <= self.categories.len(),
                    forall|a: int, b: int|
                        0 <= a < i && a < b < self.categories@.len() ==> !share_mint(
                            #[trigger] self.categories@[a].mints@,
                            #[trigger] self.categories@[b].mints@,
                        ),
                    forall|b: int|
                        i < b < j ==> !share_mint(
                            self.categories@[i as int].mints@,
                            #[trigger] self.categories@[b].mints@,
                        ),
                decreases self.categories.len() - j,
            {
                if shares_mint(&self.categories[i].mints, &self.categories[j].mints) {
                    assert(share_mint(
                        self.categories@[i as int].mints@,
                        self.categories@[j as int].mints@,
                    ));
                    return false;
                }
                j = j + 1;
            }
            i = i + 1;
        }
        true
    }
}

} // verus!
