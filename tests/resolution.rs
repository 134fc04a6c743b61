use slippage_config::config::{Category, SlippageConfig, SlippageRange, TokenCategories};
use slippage_config::decimal::Decimal;
use slippage_config::engine::Resolution;
use slippage_config::error::ConfigError;
use slippage_config::pubkey::DeserializablePubkey;
use slippage_config::range::Range;
use slippage_config::resolved::{DefaultConfig, ResolvedConfiguration, SlippageCategory};

const USDC: &str = "EPjFWdd5AufqSSqeM2qN1xzybapC8G4wEGGkZwyTDt1v";
const USDT: &str = "Es9vMFrzaCERmJfrF4H2FYD4KCoNkY11McCe8BenwNYB";
const WSOL: &str = "So11111111111111111111111111111111111111112";
const MSOL: &str = "mSoLzYCxHdYgdzU16g5QSh3i5K3z3KZK7ytfqcJm7So";
const JITOSOL: &str = "J1toso1uCk3RLmjorhTtrVwY9HJ7X8V9yYac6Y7kGCPn";
const SYSTEM: &str = "11111111111111111111111111111111";

fn texts(items: &[&str]) -> Vec<String> {
    items.iter().map(|s| s.to_string()).collect()
}

fn id(s: &str) -> DeserializablePubkey {
    DeserializablePubkey::parse(s).unwrap()
}

fn range(min: u16, max: u16) -> Range {
    Range { min, max }
}

fn category(name: &str, r: Range, pair: Option<Range>, mints: &[&str]) -> SlippageCategory {
    SlippageCategory::new(name.to_string(), r, pair, &texts(mints)).unwrap()
}

fn example_config(ratio: Option<&str>) -> ResolvedConfiguration {
    let categories = vec![
        category("stable", range(1, 10), None, &[USDC, USDT]),
        category("lst", range(5, 100), Some(range(10, 50)), &[MSOL, JITOSOL]),
        category("bluechip", range(20, 200), None, &[WSOL]),
        category("verified", range(30, 300), None, &[]),
    ];
    let default = DefaultConfig::new(range(50, 500), ratio).unwrap();
    ResolvedConfiguration::new(categories, default).unwrap()
}

#[test]
fn pair_range_takes_precedence() {
    let config = example_config(None);
    let r = config.resolve(&id(MSOL), &id(JITOSOL));
    assert_eq!(r, Resolution::PairRange(range(10, 50)));
}

#[test]
fn unmatched_assets_fall_back_with_default_ratio() {
    let config = example_config(None);
    let r = config.resolve(&id(SYSTEM), &id(SYSTEM));
    assert_eq!(
        r,
        Resolution::Fallback {
            range: range(50, 500),
            amplification_ratio: Decimal { mantissa: 15, scale: 1 },
        }
    );
}

#[test]
fn fallback_keeps_given_ratio() {
    let config = example_config(Some("2.25"));
    let r = config.resolve(&id(SYSTEM), &id(SYSTEM));
    assert_eq!(
        r,
        Resolution::Fallback {
            range: range(50, 500),
            amplification_ratio: Decimal { mantissa: 225, scale: 2 },
        }
    );
}

#[test]
fn example_dataset_keeps_order_and_pair_ranges() {
    let config = example_config(None);
    let names: Vec<&str> = config.categories.iter().map(|c| c.name.as_str()).collect();
    assert_eq!(names, vec!["stable", "lst", "bluechip", "verified"]);
    let with_pair: Vec<&str> = config
        .categories
        .iter()
        .filter(|c| c.pair_range.is_some())
        .map(|c| c.name.as_str())
        .collect();
    assert_eq!(with_pair, vec!["lst"]);
}

#[test]
fn one_sided_match_uses_category_range() {
    let config = example_config(None);
    assert_eq!(config.resolve(&id(USDC), &id(SYSTEM)), Resolution::CategoryRange(range(1, 10)));
    assert_eq!(config.resolve(&id(SYSTEM), &id(WSOL)), Resolution::CategoryRange(range(20, 200)));
}

#[test]
fn same_category_without_pair_range_uses_its_range() {
    let config = example_config(None);
    assert_eq!(config.resolve(&id(USDC), &id(USDT)), Resolution::CategoryRange(range(1, 10)));
}

#[test]
fn different_categories_expose_both_ranges() {
    let config = example_config(None);
    assert_eq!(
        config.resolve(&id(USDC), &id(MSOL)),
        Resolution::CrossCategory { first: range(1, 10), second: range(5, 100) }
    );
    assert_eq!(
        config.resolve(&id(MSOL), &id(USDC)),
        Resolution::CrossCategory { first: range(5, 100), second: range(1, 10) }
    );
}

#[test]
fn different_categories_with_equal_ranges_agree() {
    let categories = vec![
        category("a", range(3, 30), None, &[USDC]),
        category("b", range(3, 30), None, &[WSOL]),
    ];
    let default = DefaultConfig::new(range(50, 500), None).unwrap();
    let config = ResolvedConfiguration::new(categories, default).unwrap();
    assert_eq!(config.resolve(&id(USDC), &id(WSOL)), Resolution::CategoryRange(range(3, 30)));
}

#[test]
fn first_matching_category_wins() {
    let categories = vec![
        category("first", range(1, 2), None, &[USDC]),
        category("second", range(3, 4), None, &[USDC]),
    ];
    let default = DefaultConfig::new(range(50, 500), None).unwrap();
    let config = ResolvedConfiguration::new(categories, default).unwrap();
    assert_eq!(config.resolve(&id(USDC), &id(SYSTEM)), Resolution::CategoryRange(range(1, 2)));
    assert!(!config.mints_are_disjoint());
}

#[test]
fn pair_range_of_later_category_beats_single_sided_rule() {
    let categories = vec![
        category("stable", range(1, 10), None, &[USDC]),
        category("paired", range(5, 100), Some(range(10, 50)), &[USDC, USDT]),
    ];
    let default = DefaultConfig::new(range(50, 500), None).unwrap();
    let config = ResolvedConfiguration::new(categories, default).unwrap();
    assert_eq!(config.resolve(&id(USDC), &id(USDT)), Resolution::PairRange(range(10, 50)));
}

#[test]
fn resolution_is_repeatable() {
    let config = example_config(None);
    let first = config.resolve(&id(USDC), &id(MSOL));
    let second = config.resolve(&id(USDC), &id(MSOL));
    assert_eq!(first, second);
}

#[test]
fn example_dataset_has_disjoint_membership() {
    assert!(example_config(None).mints_are_disjoint());
}

#[test]
fn identifier_text_round_trips() {
    for s in [USDC, USDT, WSOL, MSOL, JITOSOL, SYSTEM] {
        assert_eq!(id(s).to_base58(), s);
    }
}

#[test]
fn identifier_decodes_to_its_bytes() {
    assert_eq!(id(SYSTEM), DeserializablePubkey([0u8; 32]));
    assert_eq!(DeserializablePubkey([0u8; 32]).to_base58(), SYSTEM);
    let mut one = [0u8; 32];
    one[31] = 1;
    assert_eq!(DeserializablePubkey(one).to_base58(), "11111111111111111111111111111112");
    assert!(id(USDC).same(&id(USDC)));
    assert!(!id(USDC).same(&id(USDT)));
}

#[test]
fn malformed_identifier_is_rejected() {
    assert_eq!(DeserializablePubkey::parse("not base58!"), None);
    assert_eq!(DeserializablePubkey::parse("0OIl"), None);
    assert_eq!(DeserializablePubkey::parse(""), None);
    let r = SlippageCategory::new("x".to_string(), range(1, 2), None, &texts(&[USDC, "bad0"]));
    assert_eq!(r.err(), Some(ConfigError::MalformedIdentifier));
    let c = Category::new("x".to_string(), &texts(&["I"]));
    assert_eq!(c.err(), Some(ConfigError::MalformedIdentifier));
}

#[test]
fn range_bounds_are_checked() {
    assert_eq!(Range::from_bounds(10, 50), Ok(range(10, 50)));
    assert_eq!(Range::from_bounds(7, 7), Ok(range(7, 7)));
    assert_eq!(Range::from_bounds(0, 65535), Ok(range(0, 65535)));
    assert_eq!(Range::from_bounds(0, 65536), Err(ConfigError::OutOfRangeNumeric));
    assert_eq!(Range::from_bounds(70000, 1), Err(ConfigError::OutOfRangeNumeric));
    assert_eq!(Range::from_bounds(51, 50), Err(ConfigError::InvertedRange));
    assert_eq!(Range::new(3, 2), None);
    assert_eq!(Range::new(2, 3), Some(range(2, 3)));
}

#[test]
fn inverted_ranges_are_rejected() {
    let r = SlippageCategory::new("x".to_string(), range(9, 1), None, &texts(&[USDC]));
    assert_eq!(r.err(), Some(ConfigError::InvertedRange));
    let r = SlippageCategory::new("x".to_string(), range(1, 9), Some(range(5, 4)), &texts(&["bad0"]));
    assert_eq!(r.err(), Some(ConfigError::InvertedRange));
    assert_eq!(DefaultConfig::new(range(2, 1), None).err(), Some(ConfigError::InvertedRange));
    let bad = SlippageCategory {
        name: "x".to_string(),
        range: range(1, 9),
        pair_range: Some(range(8, 2)),
        mints: vec![],
    };
    let default = DefaultConfig::new(range(1, 2), None).unwrap();
    let r = ResolvedConfiguration::new(vec![bad], default);
    assert_eq!(r.err(), Some(ConfigError::InvertedRange));
    let entries = vec![SlippageRange { name: "degen".to_string(), range: range(4, 3) }];
    assert_eq!(SlippageConfig::new(entries).err(), Some(ConfigError::InvertedRange));
}

fn flat_table() -> SlippageConfig {
    let names = ["solana", "stable", "new_token", "degen_buy", "degen_sell"];
    let entries = names
        .iter()
        .enumerate()
        .map(|(i, n)| SlippageRange { name: n.to_string(), range: range(i as u16, 10 * i as u16 + 5) })
        .collect();
    SlippageConfig::new(entries).unwrap()
}

#[test]
fn flat_table_lookup_by_name() {
    let table = flat_table();
    assert_eq!(table.lookup("new_token"), Some(range(2, 25)));
    assert_eq!(table.lookup("degen_sell"), Some(range(4, 45)));
    assert_eq!(table.lookup("solana"), Some(range(0, 5)));
}

#[test]
fn flat_table_unknown_name_is_no_match() {
    let table = flat_table();
    assert_eq!(table.lookup("pump_new_graduate"), None);
    assert_eq!(table.lookup(""), None);
    assert_eq!(table.lookup("degen"), None);
}

#[test]
fn flat_table_first_entry_wins() {
    let entries = vec![
        SlippageRange { name: "degen".to_string(), range: range(1, 2) },
        SlippageRange { name: "degen".to_string(), range: range(3, 4) },
    ];
    let table = SlippageConfig::new(entries).unwrap();
    assert_eq!(table.lookup("degen"), Some(range(1, 2)));
}

#[test]
fn token_categories_keep_order_and_detect_duplicates() {
    let cats = vec![
        Category::new("solana".to_string(), &texts(&[WSOL])).unwrap(),
        Category::new("stable".to_string(), &texts(&[USDC, USDT])).unwrap(),
        Category::new("lst".to_string(), &texts(&[MSOL, JITOSOL])).unwrap(),
        Category::new("bluechip".to_string(), &texts(&[])).unwrap(),
    ];
    let table = TokenCategories::new(cats, &texts(&[SYSTEM])).unwrap();
    let names: Vec<&str> = table.categories.iter().map(|c| c.name.as_str()).collect();
    assert_eq!(names, vec!["solana", "stable", "lst", "bluechip"]);
    assert_eq!(table.excluded_from_intermediate_hop_mints, vec![id(SYSTEM)]);
    assert!(table.mints_are_disjoint());

    let dup = vec![
        Category::new("stable".to_string(), &texts(&[USDC])).unwrap(),
        Category::new("bluechip".to_string(), &texts(&[WSOL, USDC])).unwrap(),
    ];
    let table = TokenCategories::new(dup, &texts(&[])).unwrap();
    assert!(!table.mints_are_disjoint());
    let r = TokenCategories::new(vec![], &texts(&["O"]));
    assert_eq!(r.err(), Some(ConfigError::MalformedIdentifier));
}

#[test]
fn decimal_ratio_is_read_exactly() {
    assert_eq!(Decimal::parse("1.5"), Ok(Decimal { mantissa: 15, scale: 1 }));
    assert_eq!(Decimal::parse("2.25"), Ok(Decimal { mantissa: 225, scale: 2 }));
    assert_eq!(Decimal::parse("10"), Ok(Decimal { mantissa: 10, scale: 0 }));
    assert_eq!(Decimal::parse("007.50"), Ok(Decimal { mantissa: 750, scale: 2 }));
    assert_eq!(Decimal::parse("0"), Ok(Decimal { mantissa: 0, scale: 0 }));
    assert_eq!(
        Decimal::parse("18446744073709551615"),
        Ok(Decimal { mantissa: u64::MAX, scale: 0 })
    );
}

#[test]
fn malformed_decimal_ratio_is_rejected() {
    for bad in ["", ".5", "1.", "1..5", "1.2.3", "abc", "-1", " 1", "1,5", "99999999999999999999x"] {
        assert_eq!(Decimal::parse(bad), Err(ConfigError::MalformedDocument), "{}", bad);
    }
    assert_eq!(
        DefaultConfig::new(range(1, 2), Some("1.5.")).err(),
        Some(ConfigError::MalformedDocument)
    );
}

#[test]
fn oversized_decimal_ratio_is_out_of_range() {
    assert_eq!(Decimal::parse("18446744073709551616"), Err(ConfigError::OutOfRangeNumeric));
    assert_eq!(Decimal::parse("1844674407370955161.6"), Err(ConfigError::OutOfRangeNumeric));
    assert_eq!(
        DefaultConfig::new(range(1, 2), Some("99999999999999999999.9")).err(),
        Some(ConfigError::OutOfRangeNumeric)
    );
}
