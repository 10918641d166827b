use mtg_logic_core::models::ManaPool;
use mtg_logic_core::rules::Judge;

fn pool(white: u32, blue: u32, black: u32, red: u32, green: u32, colorless: u32) -> ManaPool {
    ManaPool { white, blue, black, red, green, colorless }
}

#[test]
fn parse_empty_cost_is_free() {
    let (generic, colored) = Judge::parse_mana_cost("").unwrap();
    assert_eq!(generic, 0);
    assert_eq!(colored, ManaPool::default());
}

#[test]
fn parse_generic_and_colored() {
    let (generic, colored) = Judge::parse_mana_cost("{1}{U}{U}").unwrap();
    assert_eq!(generic, 1);
    assert_eq!(colored, pool(0, 2, 0, 0, 0, 0));
}

#[test]
fn parse_variable_cost_counts_zero() {
    let (generic, colored) = Judge::parse_mana_cost("{X}{R}").unwrap();
    assert_eq!(generic, 0);
    assert_eq!(colored, pool(0, 0, 0, 1, 0, 0));
}

#[test]
fn parse_every_color_letter() {
    let (generic, colored) = Judge::parse_mana_cost("{W}{U}{B}{R}{G}{C}{3}").unwrap();
    assert_eq!(generic, 3);
    assert_eq!(colored, pool(1, 1, 1, 1, 1, 1));
}

#[test]
fn parse_sums_generic_symbols() {
    let (generic, colored) = Judge::parse_mana_cost("{2}{3}").unwrap();
    assert_eq!(generic, 5);
    assert_eq!(colored, ManaPool::default());
}

#[test]
fn parse_unknown_symbol_fails() {
    let err = Judge::parse_mana_cost("{Q}").unwrap_err();
    assert_eq!(err, "Unknown symbol 'Q'");
}

#[test]
fn parse_empty_braces_fail() {
    let err = Judge::parse_mana_cost("{}").unwrap_err();
    assert_eq!(err, "Unknown symbol ''");
}

#[test]
fn parse_reports_leftmost_bad_symbol() {
    let err = Judge::parse_mana_cost("{U}{Z}{Q}").unwrap_err();
    assert_eq!(err, "Unknown symbol 'Z'");
}

#[test]
fn parse_overlarge_symbol_fails() {
    let err = Judge::parse_mana_cost("{4294967296}").unwrap_err();
    assert_eq!(err, "Unknown symbol '4294967296'");
}

#[test]
fn parse_overlarge_sum_fails() {
    let err = Judge::parse_mana_cost("{4294967295}{4294967295}").unwrap_err();
    assert_eq!(err, "Mana cost is too large.");
}

#[test]
fn parse_accepts_plus_and_leading_zeros() {
    let (generic, _) = Judge::parse_mana_cost("{+3}").unwrap();
    assert_eq!(generic, 3);
    let (generic, _) = Judge::parse_mana_cost("{003}").unwrap();
    assert_eq!(generic, 3);
}

#[test]
fn parse_is_case_sensitive() {
    let err = Judge::parse_mana_cost("{w}").unwrap_err();
    assert_eq!(err, "Unknown symbol 'w'");
}

#[test]
fn parse_tolerates_missing_opening_brace() {
    // The parser cuts at '}' and strips leading '{'s, so a symbol whose
    // opening brace is missing is still read.
    let (generic, colored) = Judge::parse_mana_cost("U}{U}").unwrap();
    assert_eq!(generic, 0);
    assert_eq!(colored.blue, 2);
}

#[test]
fn parse_rejects_multi_letter_symbol() {
    let err = Judge::parse_mana_cost("{WU}").unwrap_err();
    assert_eq!(err, "Unknown symbol 'WU'");
}

#[test]
fn can_pay_colored_then_generic_from_same_color() {
    // Two blue pay the colored part; the remaining blue covers the generic.
    let available = pool(0, 3, 0, 0, 0, 0);
    assert!(available.can_pay(&pool(0, 2, 0, 0, 0, 0), 1));
}

#[test]
fn can_pay_fails_on_generic_shortfall() {
    let available = pool(0, 0, 0, 3, 0, 0);
    assert!(!available.can_pay(&ManaPool::default(), 4));
}

#[test]
fn can_pay_fails_on_missing_color_despite_surplus() {
    let available = pool(0, 0, 0, 10, 0, 0);
    assert!(!available.can_pay(&pool(0, 1, 0, 0, 0, 0), 0));
}

#[test]
fn can_pay_does_not_mutate() {
    let available = pool(1, 1, 1, 1, 1, 1);
    let _ = available.can_pay(&pool(1, 1, 1, 1, 1, 1), 0);
    assert_eq!(available, pool(1, 1, 1, 1, 1, 1));
}

#[test]
fn pay_deducts_colored_then_drains_generic() {
    let mut available = pool(0, 3, 0, 0, 0, 0);
    assert!(available.pay(&pool(0, 2, 0, 0, 0, 0), 1));
    assert_eq!(available, ManaPool::default());
}

#[test]
fn pay_drains_in_fixed_priority_order() {
    // Generic payment drains colorless first, then red, green, black, blue,
    // white; a generic cost of two takes the colorless and the red here.
    let mut available = pool(2, 0, 0, 1, 0, 1);
    assert!(available.pay(&ManaPool::default(), 2));
    assert_eq!(available, pool(2, 0, 0, 0, 0, 0));
}

#[test]
fn failed_pay_leaves_pool_untouched() {
    // The whole payment is checked up front: a generic shortfall discovered
    // after the colored requirement must not leave a partial deduction.
    let mut available = pool(0, 2, 0, 0, 0, 0);
    assert!(!available.pay(&pool(0, 2, 0, 0, 0, 0), 1));
    assert_eq!(available, pool(0, 2, 0, 0, 0, 0));
}

#[test]
fn total_available_sums_all_counters() {
    assert_eq!(pool(1, 2, 3, 4, 5, 6).total_available(), 21);
    assert_eq!(ManaPool::default().total_available(), 0);
}
