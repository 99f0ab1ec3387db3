use tower_genesis::records::{AccountAddress, AccountRecord, SlowWalletInfo};
use tower_genesis::supply::{get_supply_struct, Supply, SupplyError};

fn addr(value: u64) -> AccountAddress {
    AccountAddress { value }
}

fn record(address: u64, balance: Option<u64>) -> AccountRecord {
    AccountRecord {
        address: addr(address),
        balance_amount: balance,
        slow_wallet_info: None,
        validator_config_present: false,
        community_wallet_list: None,
    }
}

fn registry_record(address: u64, list: Vec<u64>) -> AccountRecord {
    AccountRecord {
        address: addr(address),
        balance_amount: None,
        slow_wallet_info: None,
        validator_config_present: false,
        community_wallet_list: Some(list.into_iter().map(addr).collect()),
    }
}

fn slow_record(address: u64, balance: u64, unlocked: u64, validator: bool) -> AccountRecord {
    AccountRecord {
        address: addr(address),
        balance_amount: Some(balance),
        slow_wallet_info: Some(SlowWalletInfo {
            unlocked_amount: unlocked,
        }),
        validator_config_present: validator,
        community_wallet_list: None,
    }
}

fn scenario_a_records() -> Vec<AccountRecord> {
    vec![
        registry_record(0, vec![1]),
        record(1, Some(100)),
        record(2, Some(50)),
        slow_record(3, 200, 50, false),
    ]
}

#[test]
fn scenario_a() {
    let supply = get_supply_struct(&scenario_a_records()).unwrap();
    assert_eq!(supply.total, 350);
    assert_eq!(supply.donor_directed, 100);
    assert_eq!(supply.normal, 50);
    assert_eq!(supply.slow_total, 200);
    assert_eq!(supply.slow_unlocked, 200);
    assert_eq!(supply.slow_locked, 150);
    assert_eq!(supply.validator, 0);
    assert_eq!(supply.validator_locked, 0);
}

#[test]
fn scenario_b_validator_overlay() {
    let mut records = scenario_a_records();
    records[3] = slow_record(3, 200, 50, true);
    let supply = get_supply_struct(&records).unwrap();
    assert_eq!(supply.total, 350);
    assert_eq!(supply.donor_directed, 100);
    assert_eq!(supply.normal, 50);
    assert_eq!(supply.slow_total, 200);
    assert_eq!(supply.slow_unlocked, 200);
    assert_eq!(supply.slow_locked, 150);
    assert_eq!(supply.validator, 200);
    assert_eq!(supply.validator_locked, 150);
}

#[test]
fn permutation_gives_identical_supply() {
    let records = scenario_a_records();
    let forward = get_supply_struct(&records).unwrap();
    let mut reversed = records;
    reversed.reverse();
    let backward = get_supply_struct(&reversed).unwrap();
    assert_eq!(forward, backward);
}

#[test]
fn partition_and_bounds_hold() {
    let records = vec![
        registry_record(0, vec![5, 6]),
        record(5, Some(11)),
        record(6, None),
        record(7, Some(23)),
        slow_record(8, 400, 100, true),
        slow_record(9, 30, 0, false),
        slow_record(10, 60, 90, false),
    ];
    let supply = get_supply_struct(&records).unwrap();
    assert_eq!(
        supply.total,
        supply.normal + supply.slow_total + supply.donor_directed
    );
    assert!(supply.slow_locked <= supply.slow_total);
    assert!(supply.slow_unlocked <= supply.slow_total);
    assert!(supply.validator_locked <= supply.slow_locked);
    assert!(supply.validator <= supply.slow_total);
}

#[test]
fn overflow_aborts_with_no_supply() {
    let records = vec![
        registry_record(0, vec![]),
        record(1, Some(u64::MAX)),
        record(2, Some(1)),
    ];
    let result = get_supply_struct(&records);
    assert_eq!(result, Err(SupplyError::ArithmeticOverflow));
}

#[test]
fn missing_registry_record() {
    let records = vec![record(1, Some(100)), record(2, Some(50))];
    let result = get_supply_struct(&records);
    assert_eq!(result, Err(SupplyError::MissingRegistryRecord));
}

#[test]
fn zero_unlocked_counts_toward_slow_total_only() {
    let records = vec![registry_record(0, vec![]), slow_record(1, 200, 0, true)];
    let supply = get_supply_struct(&records).unwrap();
    assert_eq!(supply.total, 200);
    assert_eq!(supply.slow_total, 200);
    assert_eq!(supply.slow_unlocked, 0);
    assert_eq!(supply.slow_locked, 0);
    assert_eq!(supply.validator, 0);
    assert_eq!(supply.validator_locked, 0);
}

#[test]
fn donor_directed_wins_over_slow_wallet() {
    let records = vec![registry_record(0, vec![1]), slow_record(1, 80, 10, true)];
    let supply = get_supply_struct(&records).unwrap();
    assert_eq!(supply.donor_directed, 80);
    assert_eq!(supply.slow_total, 0);
    assert_eq!(supply.validator, 0);
    assert_eq!(supply.normal, 0);
}

#[test]
fn fully_unlocked_slow_wallet_has_no_locked_part() {
    let records = vec![registry_record(0, vec![]), slow_record(1, 100, 150, true)];
    let supply = get_supply_struct(&records).unwrap();
    assert_eq!(supply.slow_total, 100);
    assert_eq!(supply.slow_unlocked, 100);
    assert_eq!(supply.slow_locked, 0);
    assert_eq!(supply.validator, 0);
    assert_eq!(supply.validator_locked, 0);
}

#[test]
fn default_supply_is_zeroed() {
    let zero = Supply::default();
    assert_eq!(zero.total, 0);
    assert_eq!(zero.normal, 0);
    assert_eq!(zero.validator, 0);
    assert_eq!(zero.validator_locked, 0);
    assert_eq!(zero.slow_total, 0);
    assert_eq!(zero.slow_locked, 0);
    assert_eq!(zero.slow_unlocked, 0);
    assert_eq!(zero.donor_directed, 0);
}

#[test]
fn first_registry_record_wins() {
    let records = vec![
        registry_record(0, vec![1]),
        registry_record(9, vec![2]),
        record(1, Some(100)),
        record(2, Some(200)),
    ];
    let supply = get_supply_struct(&records).unwrap();
    assert_eq!(supply.donor_directed, 100);
    assert_eq!(supply.normal, 200);
}

#[test]
fn registry_record_balance_is_classified_too() {
    let mut registry = registry_record(0, vec![1]);
    registry.balance_amount = Some(40);
    let records = vec![registry, record(1, Some(100))];
    let supply = get_supply_struct(&records).unwrap();
    assert_eq!(supply.total, 140);
    assert_eq!(supply.normal, 40);
    assert_eq!(supply.donor_directed, 100);
}
