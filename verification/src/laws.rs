//! What holds of the ledger whatever it is asked to do.
//!
//! Each law speaks of a call by what it was to do (`expected`, from the component's own
//! description of the call) and by what it did: the ledger before and after, and what the
//! call returned.
use crate::collection::{reconfigured, spec_add_collection, spec_update_collection};
use crate::contract::{admissible, spec_execute};
use crate::error::ContractError;
use crate::fraction::{lemma_mul_floor_bounded, Fraction, UNIT};
use crate::ledger::{agrees, lemma_first_at, lemma_not_found, CollectionView, LedgerView};
use crate::msg::{
    AddressCheckView, Env, ExecuteMsgView, InstructionView, MessageInfoView, Response,
};
use crate::query::{history_of, members_of, open_ids, trading_of};
use crate::registry::{listed, seed_line, spec_receive_nft, spec_withdraw};
use crate::royalty::{
    lemma_portion_within_sum, lemma_split_within_gross, member_share, member_shares_total,
    portions_complete, royalty_pool, seller_share,
};
use crate::sequence::{decimal, lemma_decimal_injective};
use crate::settlement::{
    paid_in, payment_to, payouts, settled, spec_buy_nft, spec_receive, volume_on, Rail,
};
use crate::state::{AssetView, OfferingView, SaleInfoView, StateView, UserInfoView};
use vstd::prelude::*;

verus! {

/// A member list that `add_collection` accepts has portions that add up to exactly one,
/// and it is then the collection's member list. A list whose portions do not add up to
/// one is refused, and the ledger stays as it was.
pub proof fn law_added_members_are_complete(
    pre: LedgerView,
    sender: Seq<char>,
    royalty: Fraction,
    members: Seq<UserInfoView>,
    nft_address: Seq<char>,
    check: AddressCheckView,
    post: LedgerView,
    r: Result<Response, ContractError>,
)
    requires
        agrees(
            spec_add_collection(pre, sender, royalty, members, nft_address, check),
            pre,
            post,
            r,
        ),
    ensures
        r is Ok ==> portions_complete(members) && members_of(post, nft_address) == Ok::<
            Seq<UserInfoView>,
            ContractError,
        >(members),
        !portions_complete(members) ==> r is Err && post == pre,
{
    if r is Ok {
        let keys = pre.addresses();
        keys.index_of_first_ensures(nft_address);
        match pre.collection_index(nft_address) {
            Some(i) => {
                assert(post.addresses() =~= keys);
            },
            None => {
                assert(post.addresses() =~= keys.push(nft_address));
                assert forall|k: int| 0 <= k < keys.len() implies post.addresses()[k]
                    != nft_address by {
                    assert(keys.contains(keys[k]));
                }
                lemma_first_at(post.addresses(), nft_address, keys.len() as int);
            },
        }
    }
}

/// A member list that `update_collection` accepts has portions that add up to exactly
/// one, and it is then the collection's member list. A list whose portions do not add up
/// to one is refused, and the ledger stays as it was.
pub proof fn law_updated_members_are_complete(
    pre: LedgerView,
    sender: Seq<char>,
    royalty: Fraction,
    members: Seq<UserInfoView>,
    nft_address: Seq<char>,
    check: AddressCheckView,
    post: LedgerView,
    r: Result<Response, ContractError>,
)
    requires
        agrees(
            spec_update_collection(pre, sender, royalty, members, nft_address, check),
            pre,
            post,
            r,
        ),
    ensures
        r is Ok ==> portions_complete(members) && members_of(post, nft_address) == Ok::<
            Seq<UserInfoView>,
            ContractError,
        >(members),
        !portions_complete(members) ==> r is Err && post == pre,
{
    if r is Ok {
        pre.addresses().index_of_first_ensures(nft_address);
        assert(post.addresses() =~= pre.addresses());
    }
}

/// In a well-formed ledger the portions of every collection's members add up to exactly
/// one.
pub proof fn law_stored_members_are_complete(l: LedgerView, nft_address: Seq<char>)
    requires
        l.wf(),
    ensures
        members_of(l, nft_address) matches Ok(members) ==> portions_complete(members),
{
    l.addresses().index_of_first_ensures(nft_address);
}

/// A key that stood once in a list stands nowhere after it was removed.
proof fn lemma_removed_key_absent(keys: Seq<Seq<char>>, j: int)
    requires
        keys.no_duplicates(),
        0 <= j < keys.len(),
    ensures
        !keys.remove(j).contains(keys[j]),
        keys.remove(j).index_of_first(keys[j]).is_none(),
{
    let rest = keys.remove(j);
    assert forall|a: int| 0 <= a < rest.len() implies rest[a] != keys[j] by {
        let a0 = if a < j { a } else { a + 1 };
        assert(rest[a] == keys[a0]);
    }
    lemma_not_found(rest, keys[j]);
}

/// Once offering `j` of collection `i` is settled, its id is no longer open.
proof fn lemma_settled_offering_is_gone(
    pre: LedgerView,
    i: int,
    j: int,
    rail: Rail,
    payer: Seq<char>,
    gross: u128,
    time: u64,
)
    requires
        pre.wf(),
        0 <= i < pre.collections.len(),
        0 <= j < pre.collections[i].offerings.len(),
    ensures
        ({
            let post = settled(pre, i, j, rail, payer, gross, time).0;
            let id = pre.collections[i].offerings[j].id;
            &&& post.addresses() == pre.addresses()
            &&& post.config == pre.config
            &&& post.collections[i].offering_index(id).is_none()
            &&& !post.collections[i].offering_ids().contains(id)
        }),
{
    let post = settled(pre, i, j, rail, payer, gross, time).0;
    let c = pre.collections[i];
    assert(c.wf());
    assert(post.addresses() =~= pre.addresses());
    assert(post.collections[i].offering_ids() =~= c.offering_ids().remove(j));
    lemma_removed_key_absent(c.offering_ids(), j);
}

/// An offering is settled at most once on the token rail: after a payment has settled
/// it, it is gone from the open offerings, and the same payment made again finds nothing.
pub proof fn law_token_settlement_happens_once(
    pre: LedgerView,
    sender: Seq<char>,
    payer: Seq<char>,
    amount: u128,
    offering_id: Seq<char>,
    nft_address: Seq<char>,
    time: u64,
    post: LedgerView,
    r: Result<Response, ContractError>,
)
    requires
        pre.wf(),
        agrees(
            spec_receive(pre, sender, payer, amount, offering_id, nft_address, time),
            pre,
            post,
            r,
        ),
        r is Ok,
    ensures
        !open_ids(post, nft_address).contains(offering_id),
        spec_receive(post, sender, payer, amount, offering_id, nft_address, time) == Err::<
            (LedgerView, Seq<InstructionView>),
            ContractError,
        >(ContractError::NotFound),
{
    pre.addresses().index_of_first_ensures(nft_address);
    let i = pre.collection_index(nft_address).unwrap();
    pre.collections[i].offering_ids().index_of_first_ensures(offering_id);
    let j = pre.collections[i].offering_index(offering_id).unwrap();
    lemma_settled_offering_is_gone(pre, i, j, Rail::Token, payer, amount, time);
}

/// An offering is settled at most once on the native rail: after a payment has settled
/// it, it is gone from the open offerings, and the same payment made again finds nothing.
pub proof fn law_native_settlement_happens_once(
    pre: LedgerView,
    info: MessageInfoView,
    offering_id: Seq<char>,
    nft_address: Seq<char>,
    time: u64,
    post: LedgerView,
    r: Result<Response, ContractError>,
)
    requires
        pre.wf(),
        agrees(spec_buy_nft(pre, info, offering_id, nft_address, time), pre, post, r),
        r is Ok,
    ensures
        !open_ids(post, nft_address).contains(offering_id),
        spec_buy_nft(post, info, offering_id, nft_address, time) == Err::<
            (LedgerView, Seq<InstructionView>),
            ContractError,
        >(ContractError::NotFound),
{
    pre.addresses().index_of_first_ensures(nft_address);
    let i = pre.collection_index(nft_address).unwrap();
    pre.collections[i].offering_ids().index_of_first_ensures(offering_id);
    let j = pre.collections[i].offering_index(offering_id).unwrap();
    let paid = paid_in(info.funds, pre.collections[i].offerings[j].offering.list_price.denom);
    lemma_settled_offering_is_gone(pre, i, j, Rail::Native, info.sender, paid, time);
}

/// The amount that an instruction pays; an asset transfer pays nothing.
pub open spec fn amount_of(instruction: InstructionView) -> nat {
    match instruction {
        InstructionView::TransferNft { .. } => 0,
        InstructionView::TransferToken { amount, .. } => amount as nat,
        InstructionView::SendCoin { amount, .. } => amount as nat,
    }
}

/// The amounts that a list of instructions pays, together.
pub open spec fn total_paid(list: Seq<InstructionView>) -> nat
    decreases list.len(),
{
    if list.len() == 0 {
        0
    } else {
        total_paid(list.drop_last()) + amount_of(list.last())
    }
}

/// The first `n + 2` transfers of a settlement pay the seller's share and the shares of
/// the first `n` members.
proof fn lemma_payouts_prefix(
    config: StateView,
    collection: CollectionView,
    offering: OfferingView,
    rail: Rail,
    payer: Seq<char>,
    gross: u128,
    n: int,
)
    requires
        collection.info.royalty_portion.is_proper(),
        portions_complete(collection.members),
        0 <= n <= collection.members.len(),
    ensures
        total_paid(payouts(config, collection, offering, rail, payer, gross).take(n + 2))
            == seller_share(gross, collection.info.royalty_portion) + member_shares_total(
            gross,
            collection.info.royalty_portion,
            collection.members.take(n),
        ),
    decreases n,
{
    let royalty = collection.info.royalty_portion;
    let all = payouts(config, collection, offering, rail, payer, gross);
    lemma_mul_floor_bounded(gross as nat, (UNIT - royalty.atomics) as nat);
    if n == 0 {
        let two = all.take(2);
        assert(two.drop_last().drop_last() =~= Seq::<InstructionView>::empty());
        assert(two.drop_last().last() == all[0]);
        assert(two.last() == all[1]);
        assert(total_paid(two.drop_last().drop_last()) == 0);
        assert(total_paid(two.drop_last()) == 0);
        assert(collection.members.take(0) =~= Seq::<UserInfoView>::empty());
    } else {
        lemma_payouts_prefix(config, collection, offering, rail, payer, gross, n - 1);
        let member = collection.members[n - 1];
        lemma_portion_within_sum(collection.members, n - 1);
        lemma_mul_floor_bounded(gross as nat, royalty.atomics as nat);
        lemma_mul_floor_bounded(royalty_pool(gross, royalty), member.portion.atomics as nat);
        assert(all.take(n + 2).drop_last() =~= all.take(n + 1));
        assert(all.take(n + 2).last() == all[n + 1]);
        assert(all[n + 1] == payment_to(
            rail,
            config.token_address,
            offering.list_price.denom,
            member.address,
            member_share(gross, royalty, member.portion) as u128,
        ));
        assert(collection.members.take(n).drop_last() =~= collection.members.take(n - 1));
        assert(collection.members.take(n).last() == member);
    }
}

/// The transfers of a settlement never pay out more than was paid in: the seller's share
/// and the members' shares together are at most the gross amount. What is missing was
/// lost to rounding.
pub proof fn law_payouts_within_gross(
    config: StateView,
    collection: CollectionView,
    offering: OfferingView,
    rail: Rail,
    payer: Seq<char>,
    gross: u128,
)
    requires
        collection.info.royalty_portion.is_proper(),
        portions_complete(collection.members),
    ensures
        total_paid(payouts(config, collection, offering, rail, payer, gross)) == seller_share(
            gross,
            collection.info.royalty_portion,
        ) + member_shares_total(gross, collection.info.royalty_portion, collection.members),
        total_paid(payouts(config, collection, offering, rail, payer, gross)) <= gross,
{
    let all = payouts(config, collection, offering, rail, payer, gross);
    let n = collection.members.len() as int;
    lemma_payouts_prefix(config, collection, offering, rail, payer, gross, n);
    assert(all.take(n + 2) =~= all);
    assert(collection.members.take(n) =~= collection.members);
    lemma_split_within_gross(gross, collection.info.royalty_portion, collection.members);
}

/// A withdrawal of an open offering goes through only for its seller. For anybody else
/// it is refused as unauthorized, and the offering stays open.
pub proof fn law_withdraw_only_by_seller(
    pre: LedgerView,
    sender: Seq<char>,
    offering_id: Seq<char>,
    nft_address: Seq<char>,
    post: LedgerView,
    r: Result<Response, ContractError>,
)
    requires
        open_ids(pre, nft_address).contains(offering_id),
        agrees(spec_withdraw(pre, sender, offering_id, nft_address), pre, post, r),
    ensures
        ({
            let c = pre.collections[pre.collection_index(nft_address).unwrap()];
            let seller = c.offerings[c.offering_index(offering_id).unwrap()].offering.seller;
            &&& r is Ok <==> sender == seller
            &&& sender != seller ==> r == Err::<Response, ContractError>(
                ContractError::Unauthorized,
            ) && open_ids(post, nft_address).contains(offering_id)
        }),
{
    pre.addresses().index_of_first_ensures(nft_address);
    let i = pre.collection_index(nft_address).unwrap();
    pre.collections[i].offering_ids().index_of_first_ensures(offering_id);
}

/// An offering is withdrawn at most once: after its seller has withdrawn it, it is gone
/// from the open offerings, the same withdrawal made again finds nothing, and so does a
/// payment for it on either rail.
pub proof fn law_withdrawn_offering_is_gone(
    pre: LedgerView,
    sender: Seq<char>,
    offering_id: Seq<char>,
    nft_address: Seq<char>,
    post: LedgerView,
    r: Result<Response, ContractError>,
    payer: Seq<char>,
    amount: u128,
    info: MessageInfoView,
    time: u64,
)
    requires
        pre.wf(),
        agrees(spec_withdraw(pre, sender, offering_id, nft_address), pre, post, r),
        r is Ok,
    ensures
        !open_ids(post, nft_address).contains(offering_id),
        spec_withdraw(post, sender, offering_id, nft_address) == Err::<
            (LedgerView, Seq<InstructionView>),
            ContractError,
        >(ContractError::NotFound),
        spec_buy_nft(post, info, offering_id, nft_address, time) == Err::<
            (LedgerView, Seq<InstructionView>),
            ContractError,
        >(ContractError::NotFound),
        post.config.token_address == pre.config.token_address,
        spec_receive(
            post,
            post.config.token_address,
            payer,
            amount,
            offering_id,
            nft_address,
            time,
        ) == Err::<(LedgerView, Seq<InstructionView>), ContractError>(ContractError::NotFound),
{
    pre.addresses().index_of_first_ensures(nft_address);
    let i = pre.collection_index(nft_address).unwrap();
    let c = pre.collections[i];
    assert(c.wf());
    c.offering_ids().index_of_first_ensures(offering_id);
    let j = c.offering_index(offering_id).unwrap();
    assert(post.addresses() =~= pre.addresses());
    assert(post.collections[i].offering_ids() =~= c.offering_ids().remove(j));
    lemma_removed_key_absent(c.offering_ids(), j);
}

/// The first listing of an asset gives it a history of exactly one line: the seed, which
/// names the depositor and has no amount. No sale is entered in a history before that.
pub proof fn law_first_listing_seeds_history(
    pre: LedgerView,
    sender: Seq<char>,
    depositor: Seq<char>,
    token_id: Seq<char>,
    list_price: AssetView,
    time: u64,
    post: LedgerView,
    r: Result<Response, ContractError>,
)
    requires
        agrees(
            spec_receive_nft(pre, sender, depositor, token_id, list_price, time),
            pre,
            post,
            r,
        ),
        r is Ok,
        history_of(pre, sender, token_id) is Err,
    ensures
        history_of(post, sender, token_id) == Ok::<Seq<SaleInfoView>, ContractError>(
            seq![seed_line(depositor, time)],
        ),
        seed_line(depositor, time).amount == 0,
        seed_line(depositor, time).address == depositor,
{
    pre.addresses().index_of_first_ensures(sender);
    let i = pre.collection_index(sender).unwrap();
    let c = pre.collections[i];
    let after = listed(c, depositor, token_id, list_price, time);
    assert(post.addresses() =~= pre.addresses());
    let keys = c.asset_ids();
    keys.index_of_first_ensures(token_id);
    assert(after.asset_ids() =~= keys.push(token_id));
    assert forall|k: int| 0 <= k < keys.len() implies after.asset_ids()[k] != token_id by {
        assert(keys.contains(keys[k]));
    }
    lemma_first_at(after.asset_ids(), token_id, keys.len() as int);
}

/// A later listing of an asset leaves its history as it is: the seed is written once.
pub proof fn law_later_listing_keeps_history(
    pre: LedgerView,
    sender: Seq<char>,
    depositor: Seq<char>,
    token_id: Seq<char>,
    list_price: AssetView,
    time: u64,
    post: LedgerView,
    r: Result<Response, ContractError>,
)
    requires
        agrees(
            spec_receive_nft(pre, sender, depositor, token_id, list_price, time),
            pre,
            post,
            r,
        ),
        history_of(pre, sender, token_id) is Ok,
    ensures
        history_of(post, sender, token_id) == history_of(pre, sender, token_id),
{
    pre.addresses().index_of_first_ensures(sender);
    if r is Ok {
        let i = pre.collection_index(sender).unwrap();
        let c = pre.collections[i];
        assert(post.addresses() =~= pre.addresses());
        c.asset_ids().index_of_first_ensures(token_id);
    }
}

/// In a well-formed ledger every history starts with a line of no amount.
pub proof fn law_history_starts_with_seed(l: LedgerView, nft_address: Seq<char>, token_id: Seq<char>)
    requires
        l.wf(),
    ensures
        history_of(l, nft_address, token_id) matches Ok(sales) ==> sales.len() >= 1
            && sales[0].amount == 0,
{
    l.addresses().index_of_first_ensures(nft_address);
    if l.collection_index(nft_address) is Some {
        let c = l.collections[l.collection_index(nft_address).unwrap()];
        assert(c.wf());
        c.asset_ids().index_of_first_ensures(token_id);
    }
}

/// Two listings in a row take different ids, and once both are listed both ids are open:
/// a collection that goes on counting gives no listing the id of the one before it.
pub proof fn law_successive_listings_keep_apart(
    c: CollectionView,
    first_depositor: Seq<char>,
    first_token: Seq<char>,
    first_price: AssetView,
    second_depositor: Seq<char>,
    second_token: Seq<char>,
    second_price: AssetView,
    time: u64,
)
    requires
        c.info.offering_id + 2 <= u64::MAX,
    ensures
        ({
            let once = listed(c, first_depositor, first_token, first_price, time);
            let twice = listed(once, second_depositor, second_token, second_price, time);
            let first_id = decimal((c.info.offering_id + 1) as nat);
            let second_id = decimal((c.info.offering_id + 2) as nat);
            &&& once.info.offering_id == c.info.offering_id + 1
            &&& twice.info.offering_id == c.info.offering_id + 2
            &&& first_id != second_id
            &&& twice.offering_ids().contains(first_id)
            &&& twice.offering_ids().contains(second_id)
        }),
{
    let once = listed(c, first_depositor, first_token, first_price, time);
    let twice = listed(once, second_depositor, second_token, second_price, time);
    let first_id = decimal((c.info.offering_id + 1) as nat);
    let second_id = decimal((c.info.offering_id + 2) as nat);
    if first_id == second_id {
        lemma_decimal_injective((c.info.offering_id + 1) as nat, (c.info.offering_id + 2) as nat);
    }
    c.offering_ids().index_of_first_ensures(first_id);
    let a = match c.offering_index(first_id) {
        Some(j) => j,
        None => c.offerings.len() as int,
    };
    assert(once.offering_ids()[a] == first_id);
    once.offering_ids().index_of_first_ensures(second_id);
    let b = match once.offering_index(second_id) {
        Some(j) => j,
        None => once.offerings.len() as int,
    };
    assert(twice.offering_ids()[b] == second_id);
    assert(twice.offering_ids()[a] == first_id);
}

/// One list starts with all of another, in the same order.
pub open spec fn starts_with<T>(longer: Seq<T>, shorter: Seq<T>) -> bool {
    shorter.len() <= longer.len() && forall|i: int|
        0 <= i < shorter.len() ==> longer[i] == shorter[i]
}

/// A collection has only grown: it is the same collection, every asset that had a
/// history has it still, with the lines it had at its start, and neither trade volume
/// has fallen.
pub open spec fn collection_grown(before: CollectionView, after: CollectionView) -> bool {
    &&& after.info.nft_address == before.info.nft_address
    &&& starts_with(after.asset_ids(), before.asset_ids())
    &&& forall|k: int|
        0 <= k < before.history.len() ==> starts_with(
            (#[trigger] after.history[k]).sales,
            before.history[k].sales,
        )
    &&& volume_on(after.stats, Rail::Native) >= volume_on(before.stats, Rail::Native)
    &&& volume_on(after.stats, Rail::Token) >= volume_on(before.stats, Rail::Token)
}

/// A ledger has only grown: it holds every collection that it held, at the same place,
/// and each of them has only grown.
pub open spec fn ledger_grown(before: LedgerView, after: LedgerView) -> bool {
    &&& starts_with(after.addresses(), before.addresses())
    &&& forall|i: int|
        0 <= i < before.collections.len() ==> collection_grown(
            before.collections[i],
            #[trigger] after.collections[i],
        )
}

/// A key that is found in a list is found at the same place in every list that starts
/// with it.
proof fn lemma_found_in_longer(shorter: Seq<Seq<char>>, longer: Seq<Seq<char>>, key: Seq<char>)
    requires
        starts_with(longer, shorter),
        shorter.index_of_first(key) is Some,
    ensures
        longer.index_of_first(key) == shorter.index_of_first(key),
{
    shorter.index_of_first_ensures(key);
    let i = shorter.index_of_first(key).unwrap();
    lemma_first_at(longer, key, i);
}

/// A collection has grown from itself.
proof fn lemma_grown_from_itself(c: CollectionView)
    ensures
        collection_grown(c, c),
{
}

/// A ledger in which one collection was replaced by one that has grown from it has grown.
proof fn lemma_replaced_grown(pre: LedgerView, i: int, after: CollectionView)
    requires
        0 <= i < pre.collections.len(),
        collection_grown(pre.collections[i], after),
    ensures
        ledger_grown(
            pre,
            LedgerView { collections: pre.collections.update(i, after), ..pre },
        ),
{
    let post = LedgerView { collections: pre.collections.update(i, after), ..pre };
    assert(post.addresses() =~= pre.addresses());
    assert forall|n: int| 0 <= n < pre.collections.len() implies collection_grown(
        pre.collections[n],
        #[trigger] post.collections[n],
    ) by {
        if n != i {
            lemma_grown_from_itself(pre.collections[n]);
        }
    }
}

/// A collection in which an asset was listed has grown.
proof fn lemma_listed_grown(
    c: CollectionView,
    depositor: Seq<char>,
    token_id: Seq<char>,
    list_price: AssetView,
    time: u64,
)
    ensures
        collection_grown(c, listed(c, depositor, token_id, list_price, time)),
{
    let after = listed(c, depositor, token_id, list_price, time);
    assert forall|k: int| 0 <= k < c.history.len() implies starts_with(
        (#[trigger] after.history[k]).sales,
        c.history[k].sales,
    ) by {
        assert(after.history[k] == c.history[k]);
    }
}

/// A collection in which an offering was settled has grown, as long as the trade volume
/// had room for the payment.
proof fn lemma_settled_grown(
    pre: LedgerView,
    i: int,
    j: int,
    rail: Rail,
    payer: Seq<char>,
    gross: u128,
    time: u64,
)
    requires
        0 <= i < pre.collections.len(),
        0 <= j < pre.collections[i].offerings.len(),
        volume_on(pre.collections[i].stats, rail) + gross <= u128::MAX,
    ensures
        ledger_grown(pre, settled(pre, i, j, rail, payer, gross, time).0),
{
    let post = settled(pre, i, j, rail, payer, gross, time).0;
    let c = pre.collections[i];
    let after = post.collections[i];
    let token_id = c.offerings[j].offering.token_id;
    c.asset_ids().index_of_first_ensures(token_id);
    assert(after.asset_ids() =~= c.asset_ids());
    assert forall|k: int| 0 <= k < c.history.len() implies starts_with(
        (#[trigger] after.history[k]).sales,
        c.history[k].sales,
    ) by {}
    lemma_replaced_grown(pre, i, after);
    assert(post.collections =~= pre.collections.update(i, after));
}

/// Whatever a message does, the ledger only grows by it: no collection leaves, no history
/// loses or changes a line, and no trade volume falls.
pub proof fn law_ledger_only_grows(
    pre: LedgerView,
    env: Env,
    info: MessageInfoView,
    msg: ExecuteMsgView,
    check: AddressCheckView,
    post: LedgerView,
    r: Result<Response, ContractError>,
)
    requires
        admissible(pre, env, info, msg, check),
        agrees(spec_execute(pre, env, info, msg, check), pre, post, r),
    ensures
        ledger_grown(pre, post),
{
    if r is Err {
        assert forall|n: int| 0 <= n < pre.collections.len() implies collection_grown(
            pre.collections[n],
            #[trigger] post.collections[n],
        ) by {
            lemma_grown_from_itself(pre.collections[n]);
        }
    } else {
        match msg {
            ExecuteMsgView::ReceiveNft { sender, token_id, list_price } => {
                pre.addresses().index_of_first_ensures(info.sender);
                let i = pre.collection_index(info.sender).unwrap();
                lemma_listed_grown(pre.collections[i], sender, token_id, list_price, env.time);
                lemma_replaced_grown(
                    pre,
                    i,
                    listed(pre.collections[i], sender, token_id, list_price, env.time),
                );
            },
            ExecuteMsgView::Receive { sender, amount, offering_id, nft_address } => {
                pre.addresses().index_of_first_ensures(nft_address);
                let i = pre.collection_index(nft_address).unwrap();
                pre.collections[i].offering_ids().index_of_first_ensures(offering_id);
                let j = pre.collections[i].offering_index(offering_id).unwrap();
                lemma_settled_grown(pre, i, j, Rail::Token, sender, amount, env.time);
            },
            ExecuteMsgView::BuyNft { offering_id, nft_address } => {
                pre.addresses().index_of_first_ensures(nft_address);
                let i = pre.collection_index(nft_address).unwrap();
                pre.collections[i].offering_ids().index_of_first_ensures(offering_id);
                let j = pre.collections[i].offering_index(offering_id).unwrap();
                let paid = paid_in(
                    info.funds,
                    pre.collections[i].offerings[j].offering.list_price.denom,
                );
                lemma_settled_grown(pre, i, j, Rail::Native, info.sender, paid, env.time);
            },
            ExecuteMsgView::WithdrawNft { offering_id, nft_address } => {
                pre.addresses().index_of_first_ensures(nft_address);
                let i = pre.collection_index(nft_address).unwrap();
                let c = pre.collections[i];
                c.offering_ids().index_of_first_ensures(offering_id);
                let j = c.offering_index(offering_id).unwrap();
                let after = CollectionView { offerings: c.offerings.remove(j), ..c };
                lemma_grown_from_itself(c);
                lemma_replaced_grown(pre, i, after);
            },
            ExecuteMsgView::AddCollection { royalty_portion, members, nft_address } => {
                pre.addresses().index_of_first_ensures(nft_address);
                match pre.collection_index(nft_address) {
                    Some(i) => {
                        let c = pre.collections[i];
                        lemma_grown_from_itself(c);
                        lemma_replaced_grown(pre, i, reconfigured(c, 0, royalty_portion, members));
                    },
                    None => {
                        assert(post.addresses() =~= pre.addresses().push(nft_address));
                        assert forall|n: int| 0 <= n < pre.collections.len() implies collection_grown(
                            pre.collections[n],
                            #[trigger] post.collections[n],
                        ) by {
                            lemma_grown_from_itself(pre.collections[n]);
                        }
                    },
                }
            },
            ExecuteMsgView::UpdateCollection { royalty_portion, members, nft_address } => {
                pre.addresses().index_of_first_ensures(nft_address);
                let i = pre.collection_index(nft_address).unwrap();
                let c = pre.collections[i];
                lemma_grown_from_itself(c);
                lemma_replaced_grown(
                    pre,
                    i,
                    reconfigured(c, c.info.offering_id, royalty_portion, members),
                );
            },
            _ => {
                assert(post.collections == pre.collections);
                assert forall|n: int| 0 <= n < pre.collections.len() implies collection_grown(
                    pre.collections[n],
                    #[trigger] post.collections[n],
                ) by {
                    lemma_grown_from_itself(pre.collections[n]);
                }
            },
        }
    }
}

/// A history is only ever appended to: whatever a message does, an asset that had a
/// history has it still, and the history starts with the lines it had.
pub proof fn law_history_is_append_only(
    pre: LedgerView,
    env: Env,
    info: MessageInfoView,
    msg: ExecuteMsgView,
    check: AddressCheckView,
    post: LedgerView,
    r: Result<Response, ContractError>,
    nft_address: Seq<char>,
    token_id: Seq<char>,
)
    requires
        admissible(pre, env, info, msg, check),
        agrees(spec_execute(pre, env, info, msg, check), pre, post, r),
        history_of(pre, nft_address, token_id) is Ok,
    ensures
        history_of(post, nft_address, token_id) matches Ok(after) && starts_with(
            after,
            history_of(pre, nft_address, token_id).unwrap(),
        ),
{
    law_ledger_only_grows(pre, env, info, msg, check, post, r);
    pre.addresses().index_of_first_ensures(nft_address);
    lemma_found_in_longer(pre.addresses(), post.addresses(), nft_address);
    let i = pre.collection_index(nft_address).unwrap();
    let before = pre.collections[i];
    let after = post.collections[i];
    assert(collection_grown(before, after));
    before.asset_ids().index_of_first_ensures(token_id);
    lemma_found_in_longer(before.asset_ids(), after.asset_ids(), token_id);
}

/// A trade volume only ever accumulates: whatever a message does, no collection's total
/// on either rail falls.
pub proof fn law_volume_never_falls(
    pre: LedgerView,
    env: Env,
    info: MessageInfoView,
    msg: ExecuteMsgView,
    check: AddressCheckView,
    post: LedgerView,
    r: Result<Response, ContractError>,
    nft_address: Seq<char>,
)
    requires
        admissible(pre, env, info, msg, check),
        agrees(spec_execute(pre, env, info, msg, check), pre, post, r),
    ensures
        trading_of(post, nft_address).total_juno >= trading_of(pre, nft_address).total_juno,
        trading_of(post, nft_address).total_hope >= trading_of(pre, nft_address).total_hope,
{
    law_ledger_only_grows(pre, env, info, msg, check, post, r);
    pre.addresses().index_of_first_ensures(nft_address);
    if pre.collection_index(nft_address) is Some {
        lemma_found_in_longer(pre.addresses(), post.addresses(), nft_address);
        let i = pre.collection_index(nft_address).unwrap();
        assert(collection_grown(pre.collections[i], post.collections[i]));
    }
}

/// The configuration is the owner's alone: a message that names another owner or token
/// contract, adds or updates a collection, or recovers an asset goes through only where
/// the owner sends it.
pub proof fn law_configuration_is_for_the_owner(
    pre: LedgerView,
    env: Env,
    info: MessageInfoView,
    msg: ExecuteMsgView,
    check: AddressCheckView,
    post: LedgerView,
    r: Result<Response, ContractError>,
)
    requires
        agrees(spec_execute(pre, env, info, msg, check), pre, post, r),
        msg is ChangeOwner || msg is SetTokenAddress || msg is AddCollection
            || msg is UpdateCollection || msg is FixNft,
        r is Ok,
    ensures
        info.sender == pre.config.owner,
{
}

/// Nobody but the owner changes the configuration: whatever a message does, the owner and
/// the token contract stay as they are unless the owner sent it.
pub proof fn law_configuration_stays(
    pre: LedgerView,
    env: Env,
    info: MessageInfoView,
    msg: ExecuteMsgView,
    check: AddressCheckView,
    post: LedgerView,
    r: Result<Response, ContractError>,
)
    requires
        agrees(spec_execute(pre, env, info, msg, check), pre, post, r),
        info.sender != pre.config.owner,
    ensures
        post.config == pre.config,
{
}

} // verus!
