use megahack_bonding::bond::{burn_bond, init_bond, initial_state, mint_bond, Bond, BondState, Pubkey};
use megahack_bonding::curve::get_area_under_curve;
use megahack_bonding::errors::BondError;

fn sample_bond(bond_mint_decimals: u8, quote_mint_decimals: u8) -> Bond {
    let owner: Pubkey = [7u8; 32];
    let bond_mint: Pubkey = [1u8; 32];
    let quote_mint: Pubkey = [2u8; 32];
    let vault: Pubkey = [3u8; 32];
    init_bond(
        owner,
        bond_mint,
        quote_mint,
        bond_mint_decimals,
        quote_mint_decimals,
        vault,
        254,
        String::from("Sample"),
        String::from("SMP"),
    )
    .unwrap()
}

#[test]
fn engine_exact_values() {
    // decimals (0, 3) give a scale exponent of 0, so the price is the bare
    // cube difference: 3^3 - 2^3 = 19.
    assert_eq!(get_area_under_curve(2, 3, 0, 3), Ok(19));
    assert_eq!(get_area_under_curve(0, 1, 0, 3), Ok(1));
    // decimals (0, 0) divide by 10^3.
    assert_eq!(get_area_under_curve(0, 100, 0, 0), Ok(1000));
    assert_eq!(get_area_under_curve(0, 101, 0, 0), Ok(1030));
}

#[test]
fn engine_matches_closed_form() {
    // One whole token at six decimals, from zero supply: the closed form
    // is 10^18 / 10^15.
    let expected = (1_000_000u128 * 1_000_000u128 * 1_000_000u128 / 10u128.pow(15)) as u64;
    assert_eq!(get_area_under_curve(0, 1_000_000, 6, 6), Ok(expected));
    assert_eq!(expected, 1000);
}

#[test]
fn engine_empty_interval_is_zero() {
    assert_eq!(get_area_under_curve(0, 0, 6, 6), Ok(0));
    assert_eq!(get_area_under_curve(12345, 12345, 2, 5), Ok(0));
}

#[test]
fn engine_monotone_in_high() {
    let mut last: u64 = 0;
    for high in [0u64, 1, 5, 50, 100, 101, 5000, 1_000_000] {
        let price = get_area_under_curve(0, high, 0, 0).unwrap();
        assert!(price >= last);
        last = price;
    }
}

#[test]
fn engine_antitone_in_low() {
    let mut last: u64 = u64::MAX;
    for low in [0u64, 1, 5, 50, 100, 101] {
        let price = get_area_under_curve(low, 101, 0, 0).unwrap();
        assert!(price <= last);
        last = price;
    }
}

#[test]
fn engine_additive_up_to_one_floor() {
    // Floors of the two pieces lose one unit against the whole here:
    // 343/1000 + 657/1000 = 0 + 0, while 1000/1000 = 1.
    let first = get_area_under_curve(0, 7, 0, 0).unwrap();
    let second = get_area_under_curve(7, 10, 0, 0).unwrap();
    let whole = get_area_under_curve(0, 10, 0, 0).unwrap();
    assert_eq!(first, 0);
    assert_eq!(second, 0);
    assert_eq!(whole, 1);
    assert!(first + second <= whole);
    assert!(whole <= first + second + 1);

    // At a split where both floors are exact the sum matches the whole.
    let first = get_area_under_curve(0, 10, 0, 0).unwrap();
    let second = get_area_under_curve(10, 20, 0, 0).unwrap();
    let whole = get_area_under_curve(0, 20, 0, 0).unwrap();
    assert_eq!(first + second, whole);
}

#[test]
fn engine_scale_overflow_fails() {
    // 10^(3*84 + 3) does not fit 128 bits.
    assert_eq!(get_area_under_curve(0, 10, 84, 0), Err(BondError::ArithmeticOverflow));
}

#[test]
fn engine_intermediate_overflow_fails() {
    // Near the top of the 64-bit range the quadratic factor exceeds 128 bits.
    assert_eq!(
        get_area_under_curve(u64::MAX - 1, u64::MAX, 6, 6),
        Err(BondError::ArithmeticOverflow)
    );
}

#[test]
fn mint_then_burn_round_trip() {
    // The end-to-end scenario: issued and reserve decimals both 6, one whole
    // token minted at zero supply costs exactly 1000 reserve units, and
    // burning it back refunds exactly the same amount.
    let bond = sample_bond(6, 6);
    let mut state = initial_state();
    assert_eq!(state, BondState { supply: 0, reserve: 0 });

    let cost = mint_bond(&bond, &mut state, 1_000_000).unwrap();
    assert_eq!(cost, 1000);
    assert_eq!(state, BondState { supply: 1_000_000, reserve: 1000 });

    let refund = burn_bond(&bond, &mut state, 1_000_000).unwrap();
    assert_eq!(refund, cost);
    assert_eq!(state, BondState { supply: 0, reserve: 0 });
}

#[test]
fn mint_accumulates_supply_and_reserve() {
    let bond = sample_bond(0, 3);
    let mut state = initial_state();
    let first = mint_bond(&bond, &mut state, 3).unwrap();
    assert_eq!(first, 27);
    assert_eq!(state, BondState { supply: 3, reserve: 27 });
    let second = mint_bond(&bond, &mut state, 2).unwrap();
    // 5^3 - 3^3 = 98.
    assert_eq!(second, 98);
    assert_eq!(state, BondState { supply: 5, reserve: 125 });
}

#[test]
fn mint_overflowing_supply_fails_without_effect() {
    let bond = sample_bond(6, 6);
    let mut state = BondState { supply: u64::MAX - 5, reserve: 0 };
    let before = state;
    assert_eq!(mint_bond(&bond, &mut state, 10), Err(BondError::ArithmeticOverflow));
    assert_eq!(state, before);
}

#[test]
fn mint_overflowing_engine_fails_without_effect() {
    let bond = sample_bond(6, 6);
    let mut state = BondState { supply: u64::MAX - 1, reserve: 0 };
    let before = state;
    assert_eq!(mint_bond(&bond, &mut state, 1), Err(BondError::ArithmeticOverflow));
    assert_eq!(state, before);
}

#[test]
fn burn_more_than_supply_fails_without_effect() {
    let bond = sample_bond(0, 3);
    let mut state = initial_state();
    mint_bond(&bond, &mut state, 3).unwrap();
    let before = state;
    assert_eq!(burn_bond(&bond, &mut state, 4), Err(BondError::InsufficientSupply));
    assert_eq!(state, before);
}

#[test]
fn init_rejects_long_name() {
    let r = init_bond(
        [0u8; 32],
        [1u8; 32],
        [2u8; 32],
        6,
        6,
        [3u8; 32],
        255,
        String::from("elevenchars"),
        String::from("SYM"),
    );
    assert!(matches!(r, Err(BondError::NameTooLong)));
}

#[test]
fn init_rejects_long_symbol() {
    let r = init_bond(
        [0u8; 32],
        [1u8; 32],
        [2u8; 32],
        6,
        6,
        [3u8; 32],
        255,
        String::from("short"),
        String::from("LONGS"),
    );
    assert!(matches!(r, Err(BondError::SymbolTooLong)));
}

#[test]
fn init_accepts_maximal_name_and_symbol() {
    let bond = init_bond(
        [9u8; 32],
        [1u8; 32],
        [2u8; 32],
        4,
        2,
        [3u8; 32],
        251,
        String::from("exactlyten"),
        String::from("FOUR"),
    )
    .unwrap();
    assert_eq!(bond.owner, [9u8; 32]);
    assert_eq!(bond.bond_mint, [1u8; 32]);
    assert_eq!(bond.quote_mint, [2u8; 32]);
    assert_eq!(bond.bond_mint_decimals, 4);
    assert_eq!(bond.quote_mint_decimals, 2);
    assert_eq!(bond.vault, [3u8; 32]);
    assert_eq!(bond.bump, 251);
    assert_eq!(bond.name, "exactlyten");
    assert_eq!(bond.symbol, "FOUR");
}

#[test]
fn init_counts_characters_not_bytes() {
    // Ten characters that take twenty bytes still fit the name limit.
    let name = String::from("éééééééééé");
    assert_eq!(name.chars().count(), 10);
    assert!(name.len() > 10);
    let r = init_bond(
        [0u8; 32],
        [1u8; 32],
        [2u8; 32],
        6,
        6,
        [3u8; 32],
        255,
        name,
        String::from("SYM"),
    );
    assert!(r.is_ok());
}
