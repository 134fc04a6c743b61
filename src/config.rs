use vstd::prelude::*;
use crate::error::ConfigError;
use crate::pubkey::{base58_address, share_mint, shares_mint, DeserializablePubkey};
use crate::range::Range;

verus! {

/// Whether every text of `texts` decodes to an address.
pub open spec fn all_decode(texts: Seq<String>) -> bool {
    forall|i: int| 0 <= i < texts.len() ==> (#[trigger] base58_address(texts[i]@)) is Some
}

/// Whether `mints` holds, in order, what each text of `texts` decodes to.
pub open spec fn decoded_from(mints: Seq<DeserializablePubkey>, texts: Seq<String>) -> bool {
    &&& mints.len() == texts.len()
    &&& forall|i: int|
        0 <= i < texts.len() ==> base58_address(texts[i]@) == Some((#[trigger] mints[i])@)
}

/// Decodes each address text of a list, in order; fails on the first text that does not decode.
pub fn decode_mints(texts: &Vec<String>) -> (r: Result<Vec<DeserializablePubkey>, ConfigError>)
    ensures
        match r {
            Ok(mints) => all_decode(texts@) && decoded_from(mints@, texts@),
            Err(e) => !all_decode(texts@) && e == ConfigError::MalformedIdentifier,
        },
{
    let mut mints: Vec<DeserializablePubkey> = Vec::new();
    let mut i: usize = 0;
    while i < texts.len()
        invariant
            i <= texts.len(),
            mints@.len() == i,
            forall|j: int|
                0 <= j < i ==> base58_address(texts@[j]@) == Some((#[trigger] mints@[j])@),
        decreases texts.len() - i,
    {
        match DeserializablePubkey::parse(texts[i].as_str()) {
            Some(id) => mints.push(id),
            None => return Err(ConfigError::MalformedIdentifier),
        }
        i = i + 1;
    }
    assert(forall|j: int| 0 <= j < texts@.len() ==> base58_address(texts@[j]@) == Some(mints@[j]@));
    Ok(mints)
}

/// Character-for-character equality of two texts.
pub fn text_eq(a: &str, b: &str) -> (r: bool)
    ensures
        r == (a@ == b@),
{
    let n = a.unicode_len();
    if n != b.unicode_len() {
        return false;
    }
    let mut i: usize = 0;
    while i < n
        invariant
            n == a@.len(),
            n == b@.len(),
            i <= n,
            forall|j: int| 0 <= j < i ==> a@[j] == b@[j],
        decreases n - i,
    {
        if a.get_char(i) != b.get_char(i) {
            return false;
        }
        i = i + 1;
    }
    assert(a@ =~= b@);
    true
}

/// A named group of account addresses.
#[derive(Debug)]
pub struct Category {
    pub name: String,
    pub mints: Vec<DeserializablePubkey>,
}

impl Category {
    /// Builds a category from its name and the texts of its addresses.
    pub fn new(name: String, mint_texts: &Vec<String>) -> (r: Result<Category, ConfigError>)
        ensures
            match r {
                Ok(c) => all_decode(mint_texts@) && c.name == name && decoded_from(
                    c.mints@,
                    mint_texts@,
                ),
                Err(e) => !all_decode(mint_texts@) && e == ConfigError::MalformedIdentifier,
            },
    {
        let mints = decode_mints(mint_texts)?;
        Ok(Category { name, mints })
    }
}

/// Whether no address belongs to two different categories of `cats`.
pub open spec fn token_categories_disjoint(cats: Seq<Category>) -> bool {
    forall|i: int, j: int|
        0 <= i < j < cats.len() ==> !share_mint(#[trigger] cats[i].mints@, #[trigger] cats[j].mints@)
}

/// The categories of tokens, and the addresses never used as an intermediate hop.
#[derive(Debug)]
pub struct TokenCategories {
    pub categories: Vec<Category>,
    pub excluded_from_intermediate_hop_mints: Vec<DeserializablePubkey>,
}

impl TokenCategories {
    /// Builds the table from its categories, in document order, and the texts of the
    /// excluded addresses.
    pub fn new(categories: Vec<Category>, excluded_texts: &Vec<String>) -> (r: Result<
        TokenCategories,
        ConfigError,
    >)
        ensures
            match r {
                Ok(t) => all_decode(excluded_texts@) && t.categories@ == categories@
                    && decoded_from(t.excluded_from_intermediate_hop_mints@, excluded_texts@),
                Err(e) => !all_decode(excluded_texts@) && e == ConfigError::MalformedIdentifier,
            },
    {
        let excluded = decode_mints(excluded_texts)?;
        Ok(TokenCategories { categories, excluded_from_intermediate_hop_mints: excluded })
    }

    /// Whether no address belongs to more than one category.
    pub fn mints_are_disjoint(&self) -> (r: bool)
        ensures
            r == token_categories_disjoint(self.categories@),
    {
        let mut i: usize = 0;
        while i < self.categories.len()
            invariant
                i <= self.categories.len(),
                forall|a: int, b: int|
                    0 <= a < i && a < b < self.categories@.len() ==> !share_mint(
                        #[trigger] self.categories@[a].mints@,
                        #[trigger] self.categories@[b].mints@,
                    ),
            decreases self.categories.len() - i,
        {
            let mut j: usize = i + 1;
            while j < self.categories.len()
                invariant
                    i < self.categories.len(),
                    i + 1 <= j <= self.categories.len(),
                    forall|a: int, b: int|
                        0 <= a < i && a < b < self.categories@.len() ==> !share_mint(
                            #[trigger] self.categories@[a].mints@,
                            #[trigger] self.categories@[b].mints@,
                        ),
                    forall|b: int|
                        i < b < j ==> !share_mint(self.categories@[i as int].mints@, #[trigger] self.categories@[b].mints@),
                decreases self.categories.len() - j,
            {
                if shares_mint(&self.categories[i].mints, &self.categories[j].mints) {
                    assert(share_mint(self.categories@[i as int].mints@, self.categories@[j as int].mints@));
                    return false;
                }
                j = j + 1;
            }
            i = i + 1;
        }
        true
    }
}

/// A named entry of the flat tolerance table.
#[derive(Debug)]
pub struct SlippageRange {
    pub name: String,
    pub range: Range,
}

/// The flat tolerance table, keyed by scenario name.
#[derive(Debug)]
pub struct SlippageConfig {
    pub slippage_base_tolerance: Vec<SlippageRange>,
}

/// Whether every range of the flat table is well formed.
pub open spec fn entries_wf(entries: Seq<SlippageRange>) -> bool {
    forall|i: int| 0 <= i < entries.len() ==> (#[trigger] entries[i]).range.wf()
}

/// Whether the entry at `i` is the first one named `name`.
pub open spec fn is_first_named(entries: Seq<SlippageRange>, name: Seq<char>, i: int) -> bool {
    &&& 0 <= i < entries.len()
    &&& entries[i].name@ == name
    &&& forall|j: int| 0 <= j < i ==> (#[trigger] entries[j]).name@ != name
}

impl SlippageConfig {
    /// Builds the table from its entries, in document order; fails when a range is inverted.
    pub fn new(entries: Vec<SlippageRange>) -> (r: Result<SlippageConfig, ConfigError>)
        ensures
            match r {
                Ok(c) => entries_wf(entries@) && c.slippage_base_tolerance@ == entries@,
                Err(e) => !entries_wf(entries@) && e == ConfigError::InvertedRange,
            },
    {
        let mut i: usize = 0;
        while i < entries.len()
            invariant
                i <= entries.len(),
                forall|j: int| 0 <= j < i ==> (#[trigger] entries@[j]).range.wf(),
            decreases entries.len() - i,
        {
            if !entries[i].range.is_valid() {
                return Err(ConfigError::InvertedRange);
            }
            i = i + 1;
        }
        Ok(SlippageConfig { slippage_base_tolerance: entries })
    }

    /// The range of the first entry named `name`, or `None` when no entry has that name.
    pub fn lookup(&self, name: &str) -> (r: Option<Range>)
        ensures
            match r {
                Some(range) => exists|i: int|
                    is_first_named(self.slippage_base_tolerance@, name@, i)
                        && self.slippage_base_tolerance@[i].range == range,
                None => forall|i: int|
                    0 <= i < self.slippage_base_tolerance@.len()
                        ==> (#[trigger] self.slippage_base_tolerance@[i]).name@ != name@,
            },
    {
        let mut i: usize = 0;
        while i < self.slippage_base_tolerance.len()
            invariant
                i <= self.slippage_base_tolerance.len(),
                forall|j: int| 0 <= j < i ==> (#[trigger] self.slippage_base_tolerance@[j]).name@ != name@,
            decreases self.slippage_base_tolerance.len() - i,
        {
            if text_eq(self.slippage_base_tolerance[i].name.as_str(), name) {
                let range = self.slippage_base_tolerance[i].range;
                assert(is_first_named(self.slippage_base_tolerance@, name@, i as int) && self.slippage_base_tolerance@[i as int].range
                    == range);
                return Some(range);
            }
            i = i + 1;
        }
        None
    }
}

} // verus!
