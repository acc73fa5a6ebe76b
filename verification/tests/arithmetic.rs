use cosmwasm_std::{Decimal, Uint128};
use marketplace::fraction::{Fraction, UNIT};
use marketplace::royalty::{member_amount, portions_add_up, seller_amount};
use marketplace::sequence::render;
use marketplace::state::UserInfo;

fn ratio(numerator: u128, denominator: u128) -> Fraction {
    Fraction::raw(Decimal::from_ratio(numerator, denominator).atomics().u128())
}

fn member(address: &str, portion: Fraction) -> UserInfo {
    UserInfo { address: address.to_string(), portion }
}

#[test]
fn unit_is_one_decimal() {
    assert_eq!(UNIT, 1_000_000_000_000_000_000);
    assert_eq!(Fraction::one().atomics, UNIT);
    assert_eq!(Fraction::one().atomics, Decimal::one().atomics().u128());
    assert_eq!(Fraction::zero().atomics, 0);
    assert_eq!(Fraction::raw(17).atomics, 17);
}

#[test]
fn proper_fractions_end_at_one() {
    assert!(Fraction::zero().proper());
    assert!(Fraction::one().proper());
    assert!(ratio(1, 3).proper());
    assert!(!Fraction::raw(UNIT + 1).proper());
    assert!(!Fraction::raw(u128::MAX).proper());
}

#[test]
fn checked_add_adds_atomic_units() {
    let sum = ratio(3, 10).checked_add(ratio(7, 10));
    assert_eq!(sum, Some(Fraction::one()));
    assert_eq!(Fraction::raw(5).checked_add(Fraction::raw(0)), Some(Fraction::raw(5)));
    assert_eq!(
        Fraction::raw(u128::MAX - 1).checked_add(Fraction::raw(1)),
        Some(Fraction::raw(u128::MAX))
    );
}

#[test]
fn checked_add_stops_at_the_limit() {
    assert_eq!(Fraction::raw(u128::MAX).checked_add(Fraction::raw(1)), None);
    assert_eq!(Fraction::raw(u128::MAX).checked_add(Fraction::raw(u128::MAX)), None);
}

#[test]
fn complement_is_what_is_left_of_one() {
    assert_eq!(ratio(5, 100).complement(), ratio(95, 100));
    assert_eq!(Fraction::zero().complement(), Fraction::one());
    assert_eq!(Fraction::one().complement(), Fraction::zero());
    assert_eq!(Fraction::raw(1).complement().atomics, UNIT - 1);
}

#[test]
fn fraction_of_an_amount_rounds_down() {
    assert_eq!(ratio(5, 100).of(1_000_000), 50_000);
    assert_eq!(ratio(1, 2).of(7), 3);
    assert_eq!(ratio(1, 3).of(7), 2);
    assert_eq!(Fraction::one().of(u128::MAX), u128::MAX);
    assert_eq!(Fraction::zero().of(u128::MAX), 0);
    assert_eq!(Fraction::raw(1).of(UNIT - 1), 0);
    assert_eq!(Fraction::raw(1).of(UNIT), 1);
    assert_eq!(ratio(99, 100).of(5), 4);
    // A fraction above one takes more than the amount, as long as the product fits.
    assert_eq!(Fraction::raw(2 * UNIT).of(5), 10);
    assert_eq!(Fraction::raw(UNIT + UNIT / 2).of(3), 4);
    assert_eq!(Fraction::raw(u128::MAX).of(UNIT), u128::MAX);
}

#[test]
fn fraction_of_agrees_with_the_decimal_product() {
    let amounts: [u128; 5] = [0, 1, 999_999, 123_456_789_012_345_678_901_234_567_890, u128::MAX];
    let fractions = [ratio(0, 1), ratio(1, 7), ratio(1, 3), ratio(999, 1000), ratio(1, 1)];
    for amount in amounts {
        for fraction in fractions {
            let expected = Uint128::new(amount) * Decimal::raw(fraction.atomics);
            assert_eq!(fraction.of(amount), expected.u128());
        }
    }
}

#[test]
fn seller_receives_the_complement_of_the_royalty() {
    assert_eq!(seller_amount(1_000_000, ratio(5, 100)), 950_000);
    assert_eq!(seller_amount(2_000_000, ratio(5, 100)), 1_900_000);
    assert_eq!(seller_amount(7, ratio(1, 3)), 4);
    assert_eq!(seller_amount(1_000, Fraction::zero()), 1_000);
    assert_eq!(seller_amount(1_000, Fraction::one()), 0);
}

#[test]
fn member_receives_its_portion_of_the_pool() {
    assert_eq!(member_amount(1_000_000, ratio(5, 100), ratio(3, 10)), 15_000);
    assert_eq!(member_amount(1_000_000, ratio(5, 100), ratio(7, 10)), 35_000);
    assert_eq!(member_amount(2_000_000, ratio(5, 100), ratio(3, 10)), 30_000);
    assert_eq!(member_amount(2_000_000, ratio(5, 100), ratio(7, 10)), 70_000);
    // The pool is rounded down before the portion is taken of it: 5% of 39 is 1, not 1.95.
    assert_eq!(member_amount(39, ratio(5, 100), Fraction::one()), 1);
    assert_eq!(member_amount(39, ratio(5, 100), ratio(1, 2)), 0);
}

#[test]
fn rounding_only_ever_loses() {
    let royalty = ratio(1, 3);
    let portions = [ratio(1, 2), ratio(1, 2)];
    for gross in [0u128, 1, 2, 3, 7, 10, 99, 1_000_001, u128::MAX] {
        let mut total = seller_amount(gross, royalty);
        for portion in portions {
            total += member_amount(gross, royalty, portion);
        }
        assert!(total <= gross);
    }
    assert_eq!(
        seller_amount(7, royalty)
            + member_amount(7, royalty, ratio(1, 2))
            + member_amount(7, royalty, ratio(1, 2)),
        6
    );
}

#[test]
fn portions_must_add_up_to_exactly_one() {
    assert!(portions_add_up(&vec![member("a", ratio(3, 10)), member("b", ratio(7, 10))]));
    assert!(portions_add_up(&vec![member("a", Fraction::one())]));
    assert!(portions_add_up(&vec![
        member("a", Fraction::zero()),
        member("b", Fraction::one()),
        member("c", Fraction::zero())
    ]));
    assert!(!portions_add_up(&vec![]));
    assert!(!portions_add_up(&vec![member("a", ratio(3, 10)), member("b", ratio(6, 10))]));
    assert!(!portions_add_up(&vec![member("a", Fraction::raw(UNIT - 1))]));
    assert!(!portions_add_up(&vec![member("a", Fraction::raw(UNIT + 1))]));
    // Three thirds are one atomic unit short of one.
    assert!(!portions_add_up(&vec![
        member("a", ratio(1, 3)),
        member("b", ratio(1, 3)),
        member("c", ratio(1, 3))
    ]));
}

#[test]
fn portions_beyond_the_limit_do_not_add_up() {
    assert!(!portions_add_up(&vec![
        member("a", Fraction::raw(u128::MAX)),
        member("b", Fraction::raw(UNIT + 1))
    ]));
    assert!(!portions_add_up(&vec![
        member("a", Fraction::raw(u128::MAX)),
        member("b", Fraction::raw(u128::MAX)),
        member("c", Fraction::raw(2 + UNIT))
    ]));
}

#[test]
fn ids_are_written_in_decimal() {
    assert_eq!(render(0), "0");
    assert_eq!(render(1), "1");
    assert_eq!(render(9), "9");
    assert_eq!(render(10), "10");
    assert_eq!(render(405), "405");
    assert_eq!(render(1_234_567_890), "1234567890");
    assert_eq!(render(u64::MAX), "18446744073709551615");
    for n in [0u64, 7, 10, 99, 100, 101, 65_535, u64::MAX - 1] {
        assert_eq!(render(n), n.to_string());
    }
}
