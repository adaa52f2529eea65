use slot_ledger::digits::parse_decimal;
use slot_ledger::pull::{apply_pull, handle_units_query, pull, SymbolTable};
use slot_ledger::store::LedgerStore;
use slot_ledger::symbol::Symbol;
use slot_ledger::tier::RewardTier;

const DECLINE: &str = "\u{274c}Unfortunately, you do not have any tickets to perform pulls.";

fn sym(s: &str) -> Symbol {
    Symbol::new(String::from(s))
}

fn table() -> SymbolTable {
    let win: Vec<Symbol> = (0..8).map(|i| sym(&format!("w{}", i))).collect();
    let react: Vec<Symbol> = (0..8).map(|i| sym(&format!("r{}", i))).collect();
    let deco: Vec<Symbol> = (0..8).map(|i| sym(&format!("d{}", i))).collect();
    SymbolTable { win, react, deco }
}

fn deco_six() -> Vec<Symbol> {
    ["B", "C", "D", "E", "F", "G"].iter().map(|s| sym(s)).collect()
}

#[test]
fn store_defaults_and_overwrites() {
    let mut s = LedgerStore::new();
    assert_eq!(s.get_or_default(1, 50), 50);
    assert_eq!(s.get(1), None);
    s.set(1, 7);
    assert_eq!(s.get_or_default(1, 50), 7);
    assert_eq!(s.get(1), Some(7));
    s.set(1, 9);
    assert_eq!(s.get(1), Some(9));
    s.set(2, 3);
    assert_eq!(s.get(1), Some(9));
    assert_eq!(s.get(2), Some(3));
    assert_eq!(s.export().len(), 2);
}

#[test]
fn declined_pull_touches_nothing() {
    let mut tickets = LedgerStore::new();
    let mut currency = LedgerStore::new();
    tickets.set(42, 0);
    currency.set(42, 900);
    let msg = apply_pull(&mut tickets, &mut currency, 42, RewardTier::Jackpot, 0, &deco_six(), &table());
    assert_eq!(msg, DECLINE);
    assert_eq!(tickets.get(42), Some(0));
    assert_eq!(currency.get(42), Some(900));
}

#[test]
fn apply_pull_debits_and_credits_exactly() {
    let mut tickets = LedgerStore::new();
    let mut currency = LedgerStore::new();
    tickets.set(7, 5);
    currency.set(7, 100);
    let msg = apply_pull(&mut tickets, &mut currency, 7, RewardTier::Rare, 1, &deco_six(), &table());
    assert_eq!(tickets.get(7), Some(4));
    assert_eq!(currency.get(7), Some(350));
    assert_eq!(msg, "|G|F|E|\n|w3|w3|w3|\n|D|C|B|\nr3, Won 250 Units!");
}

#[test]
fn apply_pull_payout_per_tier() {
    let payouts: [u64; 8] = [0, 25, 100, 250, 500, 1000, 2500, 5000];
    let all = [
        RewardTier::VeryCommon,
        RewardTier::Common,
        RewardTier::Uncommon,
        RewardTier::Rare,
        RewardTier::VeryRare,
        RewardTier::Epic,
        RewardTier::Legendary,
        RewardTier::Jackpot,
    ];
    for (t, p) in all.iter().zip(payouts.iter()) {
        let mut tickets = LedgerStore::new();
        let mut currency = LedgerStore::new();
        tickets.set(1, 10);
        apply_pull(&mut tickets, &mut currency, 1, *t, 2, &deco_six(), &table());
        assert_eq!(tickets.get(1), Some(9));
        assert_eq!(currency.get(1), Some(*p));
    }
}

#[test]
fn fresh_user_defaults_to_fifty_tickets() {
    let mut tickets = LedgerStore::new();
    let mut currency = LedgerStore::new();
    apply_pull(&mut tickets, &mut currency, 11, RewardTier::Common, 0, &deco_six(), &table());
    assert_eq!(tickets.get(11), Some(49));
    assert_eq!(currency.get(11), Some(25));
    apply_pull(&mut tickets, &mut currency, 11, RewardTier::VeryCommon, 0, &deco_six(), &table());
    assert_eq!(tickets.get(11), Some(48));
    assert_eq!(currency.get(11), Some(25));
}

#[test]
fn pull_decline_and_win_paths() {
    let t = table();
    let mut tickets = LedgerStore::new();
    let mut currency = LedgerStore::new();
    tickets.set(5, 0);
    let msg = pull(&mut tickets, &mut currency, 5, &t);
    assert_eq!(msg, DECLINE);
    assert_eq!(tickets.get(5), Some(0));
    assert_eq!(currency.get(5), None);

    let mut tickets = LedgerStore::new();
    let mut currency = LedgerStore::new();
    let payouts: [u64; 8] = [0, 25, 100, 250, 500, 1000, 2500, 5000];
    let msg = pull(&mut tickets, &mut currency, 5, &t);
    assert_ne!(msg, DECLINE);
    assert_eq!(tickets.get(5), Some(49));
    let won = currency.get(5).unwrap();
    assert!(payouts.contains(&won), "unexpected payout {}", won);
    assert!(msg.ends_with(&format!(", Won {} Units!", won)));
}

#[test]
fn pulls_for_distinct_users_are_independent() {
    let t = table();
    let mut tickets = LedgerStore::new();
    let mut currency = LedgerStore::new();
    tickets.set(1, 10);
    currency.set(1, 111);
    tickets.set(2, 20);
    currency.set(2, 222);
    pull(&mut tickets, &mut currency, 1, &t);
    assert_eq!(tickets.get(1), Some(9));
    assert_eq!(tickets.get(2), Some(20));
    assert_eq!(currency.get(2), Some(222));
    pull(&mut tickets, &mut currency, 2, &t);
    assert_eq!(tickets.get(1), Some(9));
    assert_eq!(tickets.get(2), Some(19));
}

#[test]
fn units_query_reports_balance() {
    let mut currency = LedgerStore::new();
    assert_eq!(handle_units_query(&currency, 9), "You have 0 Units.");
    currency.set(9, 5120);
    assert_eq!(handle_units_query(&currency, 9), "You have 5120 Units.");
}

#[test]
fn parse_decimal_examples() {
    assert_eq!(parse_decimal(&b"123".to_vec()), Some(123));
    assert_eq!(parse_decimal(&b"0".to_vec()), Some(0));
    assert_eq!(parse_decimal(&b"007".to_vec()), Some(7));
    assert_eq!(parse_decimal(&b"".to_vec()), None);
    assert_eq!(parse_decimal(&b"12a".to_vec()), None);
    assert_eq!(parse_decimal(&b"-5".to_vec()), None);
    assert_eq!(parse_decimal(&b"18446744073709551615".to_vec()), Some(u64::MAX));
    assert_eq!(parse_decimal(&b"18446744073709551616".to_vec()), None);
}
