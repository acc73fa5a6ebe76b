//! The offering registry: assets are listed as their collection announces their deposit,
//! and taken off again by the seller.
use crate::error::ContractError;
use crate::ledger::{
    agrees, histories_view, lemma_removed_wf, lemma_replaced_wf, offerings_view, AssetHistory,
    AssetHistoryView, CollectionView, Ledger, LedgerView, OfferingRecord, OfferingRecordView,
    Outcome,
};
use crate::msg::{Env, Instruction, InstructionView, MessageInfo, NftReceipt, Response};
use crate::sequence::{decimal, render};
use crate::settlement::{label_of, rail_label, Rail};
use crate::state::{
    sales_view, AssetView, CollectionInfoView, Offering, OfferingView, SaleInfo, SaleInfoView,
};
use vstd::prelude::*;

verus! {

/// The line that opens an asset's history: who deposited it first, and no amount.
pub open spec fn seed_line(depositor: Seq<char>, time: u64) -> SaleInfoView {
    SaleInfoView { address: depositor, denom: rail_label(Rail::Token), amount: 0, time }
}

/// The collection after an asset of it was listed. The offering takes the next id; an
/// offering that is still open under that id gives way to it. An asset that the collection
/// has not seen before gets a history of one line, its seed.
pub open spec fn listed(
    c: CollectionView,
    depositor: Seq<char>,
    token_id: Seq<char>,
    list_price: AssetView,
    time: u64,
) -> CollectionView {
    let sequence = (c.info.offering_id + 1) as u64;
    let record = OfferingRecordView {
        id: decimal(sequence as nat),
        offering: OfferingView { token_id, seller: depositor, list_price },
    };
    CollectionView {
        info: CollectionInfoView { offering_id: sequence, ..c.info },
        offerings: match c.offering_index(record.id) {
            Some(j) => c.offerings.update(j, record),
            None => c.offerings.push(record),
        },
        history: match c.history_index(token_id) {
            Some(_) => c.history,
            None => c.history.push(
                AssetHistoryView { token_id, sales: seq![seed_line(depositor, time)] },
            ),
        },
        ..c
    }
}

/// What the deposit of an asset does: the collection that announces it must have been
/// added; the asset is then listed in it, and no transfer is asked for.
pub open spec fn spec_receive_nft(
    pre: LedgerView,
    sender: Seq<char>,
    depositor: Seq<char>,
    token_id: Seq<char>,
    list_price: AssetView,
    time: u64,
) -> Outcome {
    match pre.collection_index(sender) {
        None => Err(ContractError::UnknownCollection),
        Some(i) => Ok(
            (
                LedgerView {
                    collections: pre.collections.update(
                        i,
                        listed(pre.collections[i], depositor, token_id, list_price, time),
                    ),
                    ..pre
                },
                Seq::empty(),
            ),
        ),
    }
}

/// The collection's counter of offerings can count one more.
pub open spec fn counter_has_room(pre: LedgerView, sender: Seq<char>) -> bool {
    match pre.collection_index(sender) {
        Some(i) => pre.collections[i].info.offering_id < u64::MAX,
        None => true,
    }
}

/// What a withdrawal does: the offering must be open and the caller must be its seller;
/// the offering then leaves the ledger and the asset goes back to the seller.
pub open spec fn spec_withdraw(
    pre: LedgerView,
    sender: Seq<char>,
    offering_id: Seq<char>,
    nft_address: Seq<char>,
) -> Outcome {
    match pre.collection_index(nft_address) {
        None => Err(ContractError::NotFound),
        Some(i) => {
            let c = pre.collections[i];
            match c.offering_index(offering_id) {
                None => Err(ContractError::NotFound),
                Some(j) => {
                    let offering = c.offerings[j].offering;
                    if offering.seller != sender {
                        Err(ContractError::Unauthorized)
                    } else {
                        Ok(
                            (
                                LedgerView {
                                    collections: pre.collections.update(
                                        i,
                                        CollectionView { offerings: c.offerings.remove(j), ..c },
                                    ),
                                    ..pre
                                },
                                seq![
                                    InstructionView::TransferNft {
                                        contract_addr: c.info.nft_address,
                                        recipient: offering.seller,
                                        token_id: offering.token_id,
                                    },
                                ],
                            ),
                        )
                    }
                },
            }
        },
    }
}

/// Listing keeps a well-formed collection well formed.
pub proof fn lemma_listed_wf(
    c: CollectionView,
    depositor: Seq<char>,
    token_id: Seq<char>,
    list_price: AssetView,
    time: u64,
)
    requires
        c.wf(),
    ensures
        listed(c, depositor, token_id, list_price, time).wf(),
        listed(c, depositor, token_id, list_price, time).info.nft_address == c.info.nft_address,
{
    let after = listed(c, depositor, token_id, list_price, time);
    let id = decimal(((c.info.offering_id + 1) as u64) as nat);
    c.offering_ids().index_of_first_ensures(id);
    c.asset_ids().index_of_first_ensures(token_id);
    match c.offering_index(id) {
        Some(j) => {
            assert(after.offering_ids() =~= c.offering_ids());
        },
        None => {
            assert(after.offering_ids() =~= c.offering_ids().push(id));
        },
    }
    match c.history_index(token_id) {
        Some(_) => {
            assert(after.asset_ids() == c.asset_ids());
        },
        None => {
            assert(after.asset_ids() =~= c.asset_ids().push(token_id));
            assert(after.asset_ids()[c.asset_ids().len() as int] == token_id);
        },
    }
    assert(after.asset_ids().contains(token_id));
    assert forall|k: int| 0 <= k < after.history.len() implies (#[trigger] after.history[k]).sales.len()
        > 0 && after.history[k].sales[0].amount == 0 by {
        if k < c.history.len() {
            assert(after.history[k] == c.history[k]);
        }
    }
    assert forall|m: int| 0 <= m < after.offerings.len() implies after.asset_ids().contains(
        (#[trigger] after.offerings[m]).offering.token_id,
    ) by {
        if after.offerings[m].offering.token_id != token_id {
            assert(m < c.offerings.len());
            assert(after.offerings[m] == c.offerings[m]);
            let t = c.offerings[m].offering.token_id;
            assert(c.asset_ids().contains(t));
            let w = choose|w: int| 0 <= w < c.asset_ids().len() && c.asset_ids()[w] == t;
            assert(after.asset_ids()[w] == t);
        }
    }
}

/// Lists a deposited asset: see [`spec_receive_nft`]. The caller is the collection.
pub fn execute_receive_nft(ledger: &mut Ledger, env: Env, info: MessageInfo, rcv_msg: NftReceipt) -> (r:
    Result<Response, ContractError>)
    requires
        old(ledger)@.wf(),
        counter_has_room(old(ledger)@, info@.sender),
    ensures
        agrees(
            spec_receive_nft(
                old(ledger)@,
                info@.sender,
                rcv_msg.sender@,
                rcv_msg.token_id@,
                rcv_msg.msg.list_price@,
                env.time,
            ),
            old(ledger)@,
            final(ledger)@,
            r,
        ),
        final(ledger)@.wf(),
{
    let ghost pre = ledger@;
    let i = match ledger.find_collection(&info.sender) {
        Some(i) => i,
        None => {
            return Err(ContractError::UnknownCollection);
        },
    };
    let ghost before = pre.collections[i as int];
    let ghost expected = listed(
        before,
        rcv_msg.sender@,
        rcv_msg.token_id@,
        rcv_msg.msg.list_price@,
        env.time,
    );
    proof {
        assert(before == ledger.collections@[i as int]@);
        assert(before.wf());
        lemma_listed_wf(
            before,
            rcv_msg.sender@,
            rcv_msg.token_id@,
            rcv_msg.msg.list_price@,
            env.time,
        );
        lemma_replaced_wf(pre, i as int, expected);
    }
    let c = &mut ledger.collections[i];
    let sequence = c.info.offering_id + 1;
    c.info.offering_id = sequence;
    let id = render(sequence);
    if c.find_history(&rcv_msg.token_id).is_none() {
        let seed = SaleInfo {
            address: rcv_msg.sender.clone(),
            denom: label_of(Rail::Token),
            amount: 0,
            time: env.time,
        };
        let mut sales: Vec<SaleInfo> = Vec::new();
        sales.push(seed);
        assert(sales_view(sales@) =~= seq![seed_line(rcv_msg.sender@, env.time)]);
        c.history.push(AssetHistory { token_id: rcv_msg.token_id.clone(), sales });
    }
    assert(histories_view(c.history@) =~= expected.history);
    let found = c.find_offering(&id);
    let record = OfferingRecord {
        id,
        offering: Offering {
            token_id: rcv_msg.token_id,
            seller: rcv_msg.sender,
            list_price: rcv_msg.msg.list_price,
        },
    };
    match found {
        Some(j) => {
            c.offerings[j] = record;
        },
        None => {
            c.offerings.push(record);
        },
    }
    proof {
        assert(offerings_view(c.offerings@) =~= expected.offerings);
        assert(c@ == expected);
        assert(ledger@.collections =~= pre.collections.update(i as int, expected));
    }
    Ok(Response::new())
}

/// Takes an offering off the ledger: see [`spec_withdraw`].
pub fn execute_withdraw(
    ledger: &mut Ledger,
    env: Env,
    info: MessageInfo,
    offering_id: String,
    nft_address: String,
) -> (r: Result<Response, ContractError>)
    requires
        old(ledger)@.wf(),
    ensures
        agrees(
            spec_withdraw(old(ledger)@, info@.sender, offering_id@, nft_address@),
            old(ledger)@,
            final(ledger)@,
            r,
        ),
        final(ledger)@.wf(),
{
    let ghost pre = ledger@;
    let i = match ledger.find_collection(&nft_address) {
        Some(i) => i,
        None => {
            return Err(ContractError::NotFound);
        },
    };
    let j = match ledger.collections[i].find_offering(&offering_id) {
        Some(j) => j,
        None => {
            return Err(ContractError::NotFound);
        },
    };
    if ledger.collections[i].offerings[j].offering.seller != info.sender {
        return Err(ContractError::Unauthorized);
    }
    let ghost before = pre.collections[i as int];
    let ghost expected = CollectionView { offerings: before.offerings.remove(j as int), ..before };
    proof {
        assert(before == ledger.collections@[i as int]@);
        assert(before.wf());
        lemma_removed_wf(before, j as int);
        lemma_replaced_wf(pre, i as int, expected);
    }
    let c = &mut ledger.collections[i];
    let record = c.offerings.remove(j);
    let mut messages: Vec<Instruction> = Vec::new();
    messages.push(
        Instruction::TransferNft {
            contract_addr: c.info.nft_address.clone(),
            recipient: record.offering.seller,
            token_id: record.offering.token_id,
        },
    );
    let response = Response { messages };
    proof {
        assert(offerings_view(c.offerings@) =~= expected.offerings);
        assert(c@ == expected);
        assert(ledger@.collections =~= pre.collections.update(i as int, expected));
        assert(response@ =~= seq![
            InstructionView::TransferNft {
                contract_addr: before.info.nft_address,
                recipient: before.offerings[j as int].offering.seller,
                token_id: before.offerings[j as int].offering.token_id,
            },
        ]);
    }
    Ok(response)
}

/// Whether [`execute_receive_nft`] can take the deposit: the collection is unknown, or its
/// counter can count one more.
pub fn listing_admissible(ledger: &Ledger, info: &MessageInfo) -> (r: bool)
    ensures
        r == counter_has_room(ledger@, info@.sender),
{
    match ledger.find_collection(&info.sender) {
        Some(i) => ledger.collections[i].info.offering_id < u64::MAX,
        None => true,
    }
}

} // verus!
