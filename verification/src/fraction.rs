//! Fixed-point fractions with eighteen decimal places, and the floor arithmetic on them.
//!
//! A fraction is held as its number of atomic units, `10^18` of which make one. The
//! arithmetic itself is done by `cosmwasm_std::Decimal` and `cosmwasm_std::Uint128`; the
//! functions at the end of this file state what those operations compute.
use cosmwasm_std::{Decimal, Uint128};
use vstd::prelude::*;

verus! {

/// The number of atomic units in one whole.
pub const UNIT: u128 = 1_000_000_000_000_000_000;

/// `amount * atomics / 10^18`, rounded down: what a fraction of `atomics` units takes of
/// `amount`.
pub open spec fn mul_floor(amount: nat, atomics: nat) -> nat {
    amount * atomics / (UNIT as nat)
}

/// A non-negative fixed-point number with eighteen decimal places.
#[derive(Clone, Copy, Debug, PartialEq, Eq, Structural)]
pub struct Fraction {
    pub atomics: u128,
}

impl Fraction {
    /// A proper fraction lies between zero and one, both included.
    pub open spec fn is_proper(self) -> bool {
        self.atomics <= UNIT
    }

    /// The fraction of that many atomic units.
    pub fn raw(atomics: u128) -> (r: Fraction)
        ensures
            r.atomics == atomics,
    {
        Fraction { atomics }
    }

    /// Nothing.
    pub fn zero() -> (r: Fraction)
        ensures
            r.atomics == 0,
    {
        Fraction { atomics: decimal_zero() }
    }

    /// One whole.
    pub fn one() -> (r: Fraction)
        ensures
            r.atomics == UNIT,
    {
        Fraction { atomics: decimal_one() }
    }

    /// Whether this fraction lies between zero and one.
    pub fn proper(&self) -> (r: bool)
        ensures
            r == self.is_proper(),
    {
        self.atomics <= decimal_one()
    }

    /// The sum of two fractions, or `None` where it exceeds what 128 bits hold.
    pub fn checked_add(self, other: Fraction) -> (r: Option<Fraction>)
        ensures
            r == if self.atomics + other.atomics <= u128::MAX {
                Some(Fraction { atomics: (self.atomics + other.atomics) as u128 })
            } else {
                None
            },
    {
        if other.atomics <= u128::MAX - self.atomics {
            Some(Fraction { atomics: decimal_add(self.atomics, other.atomics) })
        } else {
            None
        }
    }

    /// What is left of one whole after a proper fraction is taken from it.
    pub fn complement(self) -> (r: Fraction)
        requires
            self.is_proper(),
        ensures
            r.atomics == UNIT - self.atomics,
            r.is_proper(),
    {
        let one = decimal_one();
        Fraction { atomics: decimal_sub(one, self.atomics) }
    }

    /// This fraction of `amount`, rounded down. The product must fit in 128 bits, which
    /// that of a proper fraction always does.
    pub fn of(self, amount: u128) -> (r: u128)
        requires
            self.is_proper() || mul_floor(amount as nat, self.atomics as nat) <= u128::MAX,
        ensures
            r == mul_floor(amount as nat, self.atomics as nat),
            self.is_proper() ==> r <= amount,
    {
        proof {
            if self.is_proper() {
                lemma_mul_floor_bounded(amount as nat, self.atomics as nat);
            }
        }
        uint_mul_decimal(amount, self.atomics)
    }
}

/// A proper fraction of an amount is at most the amount.
pub proof fn lemma_mul_floor_bounded(amount: nat, atomics: nat)
    requires
        atomics <= UNIT,
    ensures
        mul_floor(amount, atomics) <= amount,
{
    let unit = UNIT as nat;
    assert(amount * atomics <= amount * unit) by (nonlinear_arith)
        requires
            atomics <= unit,
    ;
    assert(amount * atomics / unit <= amount) by (nonlinear_arith)
        requires
            amount * atomics <= amount * unit,
            unit > 0,
    ;
}

/// `Decimal::zero`: the decimal of no atomic units.
#[verifier::external_body]
fn decimal_zero() -> (r: u128)
    ensures
        r == 0,
{
    Decimal::zero().atomics().u128()
}

/// `Decimal::one`: the decimal of `10^18` atomic units.
#[verifier::external_body]
fn decimal_one() -> (r: u128)
    ensures
        r == UNIT,
{
    Decimal::one().atomics().u128()
}

/// `Decimal + Decimal`: the atomic units are added. The operator stops the program
/// where the sum exceeds 128 bits, which the precondition rules out.
#[verifier::external_body]
fn decimal_add(a: u128, b: u128) -> (r: u128)
    requires
        a + b <= u128::MAX,
    ensures
        r == a + b,
{
    (Decimal::raw(a) + Decimal::raw(b)).atomics().u128()
}

/// `Decimal - Decimal`: the atomic units are subtracted. The operator stops the program
/// where the right side is the larger one, which the precondition rules out.
#[verifier::external_body]
fn decimal_sub(a: u128, b: u128) -> (r: u128)
    requires
        b <= a,
    ensures
        r == a - b,
{
    (Decimal::raw(a) - Decimal::raw(b)).atomics().u128()
}

/// `Uint128 * Decimal`: the amount times the decimal's atomic units, divided by `10^18`
/// and rounded down, computed in 256 bits. The operator stops the program where the
/// quotient exceeds 128 bits, which the precondition rules out.
#[verifier::external_body]
fn uint_mul_decimal(amount: u128, atomics: u128) -> (r: u128)
    requires
        mul_floor(amount as nat, atomics as nat) <= u128::MAX,
    ensures
        r == mul_floor(amount as nat, atomics as nat),
{
    (Uint128::new(amount) * Decimal::raw(atomics)).u128()
}

} // verus!
