//! How the proceeds of a sale are divided between the seller and the royalty recipients.
//!
//! The collection's royalty fraction of the gross payment forms the royalty pool; each
//! member receives its portion of the pool; the seller receives the complement of the
//! royalty fraction of the gross. Every product is rounded down on its own, so the parts
//! may add up to less than the gross. What rounding takes is paid to nobody.
use crate::fraction::{mul_floor, Fraction, UNIT};
use crate::state::{members_view, UserInfo, UserInfoView};
use vstd::prelude::*;

verus! {

/// What the seller receives of a gross payment.
pub open spec fn seller_share(gross: u128, royalty: Fraction) -> nat {
    mul_floor(gross as nat, (UNIT - royalty.atomics) as nat)
}

/// What the royalty recipients have to divide between them.
pub open spec fn royalty_pool(gross: u128, royalty: Fraction) -> nat {
    mul_floor(gross as nat, royalty.atomics as nat)
}

/// What a member with the given portion receives of a gross payment.
pub open spec fn member_share(gross: u128, royalty: Fraction, portion: Fraction) -> nat {
    mul_floor(royalty_pool(gross, royalty), portion.atomics as nat)
}

/// The atomic units of all the members' portions together.
pub open spec fn portion_sum(members: Seq<UserInfoView>) -> nat
    decreases members.len(),
{
    if members.len() == 0 {
        0
    } else {
        portion_sum(members.drop_last()) + members.last().portion.atomics as nat
    }
}

/// What all the members together receive of a gross payment.
pub open spec fn member_shares_total(
    gross: u128,
    royalty: Fraction,
    members: Seq<UserInfoView>,
) -> nat
    decreases members.len(),
{
    if members.len() == 0 {
        0
    } else {
        member_shares_total(gross, royalty, members.drop_last()) + member_share(
            gross,
            royalty,
            members.last().portion,
        )
    }
}

/// A member list is accepted where its portions add up to exactly one.
pub open spec fn portions_complete(members: Seq<UserInfoView>) -> bool {
    portion_sum(members) == UNIT
}

/// The portions of the first members of a list add up to no more than those of them all.
pub proof fn lemma_portion_sum_prefix(members: Seq<UserInfoView>, n: int)
    requires
        0 <= n <= members.len(),
    ensures
        portion_sum(members.take(n)) <= portion_sum(members),
    decreases members.len() - n,
{
    if n == members.len() {
        assert(members.take(n) =~= members);
    } else {
        lemma_portion_sum_prefix(members, n + 1);
        assert(members.take(n + 1).drop_last() =~= members.take(n));
    }
}

/// No member's portion exceeds the sum of them all.
pub proof fn lemma_portion_within_sum(members: Seq<UserInfoView>, i: int)
    requires
        0 <= i < members.len(),
    ensures
        members[i].portion.atomics <= portion_sum(members),
{
    lemma_portion_sum_prefix(members, i + 1);
    assert(members.take(i + 1).last() == members[i]);
}

/// Two quotients rounded down add up to no more than the quotient of the sum.
proof fn lemma_floor_superadditive(a: nat, b: nat, d: nat)
    requires
        d > 0,
    ensures
        a / d + b / d <= (a + b) / d,
{
    assert(a / d + b / d <= (a + b) / d) by (nonlinear_arith)
        requires
            d > 0,
    ;
}

/// The members together receive no more than their portions' sum takes of the pool.
proof fn lemma_member_shares_bounded(gross: u128, royalty: Fraction, members: Seq<UserInfoView>)
    ensures
        member_shares_total(gross, royalty, members) <= mul_floor(
            royalty_pool(gross, royalty),
            portion_sum(members),
        ),
    decreases members.len(),
{
    let pool = royalty_pool(gross, royalty);
    let unit = UNIT as nat;
    if members.len() == 0 {
        assert(pool * 0 / unit == 0) by (nonlinear_arith)
            requires
                unit > 0,
        ;
    } else {
        let head = members.drop_last();
        let p = members.last().portion.atomics as nat;
        lemma_member_shares_bounded(gross, royalty, head);
        lemma_floor_superadditive(pool * portion_sum(head), pool * p, unit);
        assert(pool * portion_sum(head) + pool * p == pool * (portion_sum(head) + p))
            by (nonlinear_arith);
    }
}

/// The seller and the members together never receive more than was paid: rounding only
/// ever loses.
pub proof fn lemma_split_within_gross(gross: u128, royalty: Fraction, members: Seq<UserInfoView>)
    requires
        royalty.is_proper(),
        portions_complete(members),
    ensures
        seller_share(gross, royalty) + member_shares_total(gross, royalty, members) <= gross,
{
    let unit = UNIT as nat;
    let g = gross as nat;
    let r = royalty.atomics as nat;
    let pool = royalty_pool(gross, royalty);
    lemma_member_shares_bounded(gross, royalty, members);
    assert(pool * unit / unit == pool) by (nonlinear_arith)
        requires
            unit > 0,
    ;
    lemma_floor_superadditive(g * ((unit - r) as nat), g * r, unit);
    assert(g * ((unit - r) as nat) + g * r == g * unit) by (nonlinear_arith)
        requires
            r <= unit,
    ;
    assert(g * unit / unit == g) by (nonlinear_arith)
        requires
            unit > 0,
    ;
}

/// What the seller receives of `gross` where the collection's royalty is `royalty`.
pub fn seller_amount(gross: u128, royalty: Fraction) -> (r: u128)
    requires
        royalty.is_proper(),
    ensures
        r == seller_share(gross, royalty),
        r <= gross,
{
    royalty.complement().of(gross)
}

/// What a member with `portion` receives of `gross` where the collection's royalty is
/// `royalty`.
pub fn member_amount(gross: u128, royalty: Fraction, portion: Fraction) -> (r: u128)
    requires
        royalty.is_proper(),
        portion.is_proper(),
    ensures
        r == member_share(gross, royalty, portion),
        r <= gross,
{
    let pool = royalty.of(gross);
    portion.of(pool)
}

/// Whether the portions of a member list add up to exactly one.
pub fn portions_add_up(members: &Vec<UserInfo>) -> (r: bool)
    ensures
        r == portions_complete(members_view(members@)),
{
    let ghost all = members_view(members@);
    let mut sum = Fraction::zero();
    let mut i: usize = 0;
    while i < members.len()
        invariant
            i <= members@.len(),
            all == members_view(members@),
            sum.atomics == portion_sum(all.take(i as int)),
        decreases members@.len() - i,
    {
        proof {
            assert(all.take(i + 1).drop_last() =~= all.take(i as int));
            assert(all.take(i + 1).last() == members@[i as int]@);
            lemma_portion_sum_prefix(all, i + 1);
        }
        match sum.checked_add(members[i].portion) {
            Some(next) => {
                sum = next;
            },
            None => {
                return false;
            },
        }
        i = i + 1;
    }
    proof {
        assert(all.take(i as int) =~= all);
    }
    sum.atomics == Fraction::one().atomics
}

} // verus!
