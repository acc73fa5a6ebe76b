//! Settling an offering: the payment is checked against the listed price, the offering
//! leaves the ledger, the proceeds are divided, and the sale is entered in the asset's
//! history and in the collection's trade volume.
//!
//! The two rails treat the amount differently. A token payment must equal the listed
//! price. A native payment must be at least the listed price, and all of it is divided:
//! what a buyer pays above the price goes to the seller and the members in the same
//! proportions as the price itself.
use crate::error::ContractError;
use crate::ledger::{
    agrees, histories_view, lemma_first_at, lemma_not_found, offerings_view, AssetHistoryView,
    CollectionView, Ledger, LedgerView, Outcome,
};
use crate::msg::{
    coins_view, instructions_view, Coin, CoinView, Env, Instruction, InstructionView, MessageInfo,
    MessageInfoView, Response, TokenReceipt,
};
use crate::royalty::{
    lemma_portion_within_sum, member_amount, member_share, seller_amount, seller_share,
};
use crate::state::{
    sales_view, OfferingView, PriceInfo, SaleInfo, SaleInfoView, StateView, UserInfoView,
};
use vstd::prelude::*;
use vstd::string::StringExecFns;

verus! {

/// One of the two ways to pay.
#[derive(Clone, Copy, Debug, PartialEq, Eq, Structural)]
pub enum Rail {
    /// The chain's own currency, attached to the call.
    Native,
    /// The designated fungible token, announced by its contract.
    Token,
}

/// History lines give amounts in whole units of this many.
pub const NORMALIZER: u128 = 1_000_000;

/// The denomination that marks a price as one on the token rail.
pub open spec fn token_denom() -> Seq<char> {
    "hope"@
}

/// The label under which the history shows a rail.
pub open spec fn rail_label(rail: Rail) -> Seq<char> {
    match rail {
        Rail::Native => "Juno"@,
        Rail::Token => "Hope"@,
    }
}

/// The rail that a price of that denomination is on.
pub open spec fn rail_of(denom: Seq<char>) -> Rail {
    if denom == token_denom() {
        Rail::Token
    } else {
        Rail::Native
    }
}

/// The denominations of a list of coins, in order.
pub open spec fn denoms(funds: Seq<CoinView>) -> Seq<Seq<char>> {
    funds.map_values(|c: CoinView| c.denom)
}

/// What a call's attached payment holds of a denomination: the amount of the first coin
/// of it, or nothing.
pub open spec fn paid_in(funds: Seq<CoinView>, denom: Seq<char>) -> u128 {
    match denoms(funds).index_of_first(denom) {
        Some(i) => funds[i].amount,
        None => 0,
    }
}

/// A collection's trade volume on a rail so far.
pub open spec fn volume_on(stats: Option<PriceInfo>, rail: Rail) -> u128 {
    match stats {
        Some(s) => match rail {
            Rail::Native => s.total_juno,
            Rail::Token => s.total_hope,
        },
        None => 0,
    }
}

/// The trade volume after `gross` more was paid on `rail`.
pub open spec fn volume_added(stats: Option<PriceInfo>, rail: Rail, gross: u128) -> PriceInfo {
    let before = match stats {
        Some(s) => s,
        None => PriceInfo { total_juno: 0, total_hope: 0 },
    };
    match rail {
        Rail::Native => PriceInfo {
            total_juno: (before.total_juno + gross) as u128,
            total_hope: before.total_hope,
        },
        Rail::Token => PriceInfo {
            total_juno: before.total_juno,
            total_hope: (before.total_hope + gross) as u128,
        },
    }
}

/// The history line of a sale.
pub open spec fn sale_line(rail: Rail, payer: Seq<char>, gross: u128, time: u64) -> SaleInfoView {
    SaleInfoView { address: payer, denom: rail_label(rail), amount: gross / NORMALIZER, time }
}

/// The histories after a line was appended to that of `token_id`.
pub open spec fn sale_recorded(
    history: Seq<AssetHistoryView>,
    token_id: Seq<char>,
    line: SaleInfoView,
) -> Seq<AssetHistoryView> {
    match history.map_values(|h: AssetHistoryView| h.token_id).index_of_first(token_id) {
        Some(k) => history.update(
            k,
            AssetHistoryView { token_id: history[k].token_id, sales: history[k].sales.push(line) },
        ),
        None => history,
    }
}

/// The instruction that pays `amount` to `to` on a rail.
pub open spec fn payment_to(
    rail: Rail,
    token_address: Seq<char>,
    denom: Seq<char>,
    to: Seq<char>,
    amount: u128,
) -> InstructionView {
    match rail {
        Rail::Native => InstructionView::SendCoin { to_address: to, denom, amount },
        Rail::Token => InstructionView::TransferToken {
            contract_addr: token_address,
            recipient: to,
            amount,
        },
    }
}

/// The transfers of a settlement, in order: the asset to the buyer, the seller's share to
/// the seller, then each member's share in the order of the member list.
pub open spec fn payouts(
    config: StateView,
    collection: CollectionView,
    offering: OfferingView,
    rail: Rail,
    payer: Seq<char>,
    gross: u128,
) -> Seq<InstructionView> {
    let royalty = collection.info.royalty_portion;
    let denom = offering.list_price.denom;
    seq![
        InstructionView::TransferNft {
            contract_addr: collection.info.nft_address,
            recipient: payer,
            token_id: offering.token_id,
        },
        payment_to(
            rail,
            config.token_address,
            denom,
            offering.seller,
            seller_share(gross, royalty) as u128,
        ),
    ] + collection.members.map_values(
        |m: UserInfoView|
            payment_to(
                rail,
                config.token_address,
                denom,
                m.address,
                member_share(gross, royalty, m.portion) as u128,
            ),
    )
}

/// The ledger after offering `j` of collection `i` was settled, and the transfers that
/// settle it.
pub open spec fn settled(
    pre: LedgerView,
    i: int,
    j: int,
    rail: Rail,
    payer: Seq<char>,
    gross: u128,
    time: u64,
) -> (LedgerView, Seq<InstructionView>) {
    let c = pre.collections[i];
    let offering = c.offerings[j].offering;
    let after = CollectionView {
        info: c.info,
        members: c.members,
        stats: Some(volume_added(c.stats, rail, gross)),
        offerings: c.offerings.remove(j),
        history: sale_recorded(c.history, offering.token_id, sale_line(rail, payer, gross, time)),
    };
    (
        LedgerView { config: pre.config, collections: pre.collections.update(i, after) },
        payouts(pre.config, c, offering, rail, payer, gross),
    )
}

/// What a token payment does: the notice must come from the token contract, the offering
/// must be open, its price must be on the token rail, and the amount must equal the price.
pub open spec fn spec_receive(
    pre: LedgerView,
    sender: Seq<char>,
    payer: Seq<char>,
    amount: u128,
    offering_id: Seq<char>,
    nft_address: Seq<char>,
    time: u64,
) -> Outcome {
    if sender != pre.config.token_address {
        Err(ContractError::Unauthorized)
    } else {
        match pre.collection_index(nft_address) {
            None => Err(ContractError::NotFound),
            Some(i) => match pre.collections[i].offering_index(offering_id) {
                None => Err(ContractError::NotFound),
                Some(j) => {
                    let price = pre.collections[i].offerings[j].offering.list_price;
                    if rail_of(price.denom) != Rail::Token {
                        Err(ContractError::WrongPaymentRail)
                    } else if price.amount != amount {
                        Err(ContractError::InsufficientPayment)
                    } else {
                        Ok(settled(pre, i, j, Rail::Token, payer, amount, time))
                    }
                },
            },
        }
    }
}

/// What a native payment does: the offering must be open, its price must be on the native
/// rail, and the call must carry at least the price in the price's denomination. All that
/// it carries of that denomination is divided.
pub open spec fn spec_buy_nft(
    pre: LedgerView,
    info: MessageInfoView,
    offering_id: Seq<char>,
    nft_address: Seq<char>,
    time: u64,
) -> Outcome {
    match pre.collection_index(nft_address) {
        None => Err(ContractError::NotFound),
        Some(i) => match pre.collections[i].offering_index(offering_id) {
            None => Err(ContractError::NotFound),
            Some(j) => {
                let price = pre.collections[i].offerings[j].offering.list_price;
                let paid = paid_in(info.funds, price.denom);
                if rail_of(price.denom) != Rail::Native {
                    Err(ContractError::WrongPaymentRail)
                } else if paid < price.amount {
                    Err(ContractError::InsufficientPayment)
                } else {
                    Ok(settled(pre, i, j, Rail::Native, info.sender, paid, time))
                }
            },
        },
    }
}

/// What a native payment for an offering amounts to: what the call carries of the
/// denomination of the offering's price; nothing where there is no such offering.
pub open spec fn native_gross(
    pre: LedgerView,
    info: MessageInfoView,
    offering_id: Seq<char>,
    nft_address: Seq<char>,
) -> u128 {
    match pre.collection_index(nft_address) {
        None => 0,
        Some(i) => match pre.collections[i].offering_index(offering_id) {
            None => 0,
            Some(j) => paid_in(info.funds, pre.collections[i].offerings[j].offering.list_price.denom),
        },
    }
}

/// The trade volume of a collection on a rail can take `gross` more without leaving the
/// 128 bits that hold it.
pub open spec fn volume_has_room(pre: LedgerView, nft_address: Seq<char>, rail: Rail, gross: u128) -> bool {
    match pre.collection_index(nft_address) {
        Some(i) => volume_on(pre.collections[i].stats, rail) + gross <= u128::MAX,
        None => true,
    }
}

/// Settling keeps a well-formed ledger well formed.
pub proof fn lemma_settled_wf(
    pre: LedgerView,
    i: int,
    j: int,
    rail: Rail,
    payer: Seq<char>,
    gross: u128,
    time: u64,
)
    requires
        pre.wf(),
        0 <= i < pre.collections.len(),
        0 <= j < pre.collections[i].offerings.len(),
    ensures
        settled(pre, i, j, rail, payer, gross, time).0.wf(),
{
    let post = settled(pre, i, j, rail, payer, gross, time).0;
    let c = pre.collections[i];
    let after = post.collections[i];
    let token_id = c.offerings[j].offering.token_id;
    assert(c.wf());
    assert(post.addresses() =~= pre.addresses());
    assert(after.asset_ids() =~= c.asset_ids()) by {
        c.asset_ids().index_of_first_ensures(token_id);
    }
    assert(after.offering_ids() =~= c.offering_ids().remove(j));
    assert(after.offering_ids().no_duplicates()) by {
        let ids = c.offering_ids();
        assert forall|a: int, b: int|
            0 <= a < after.offering_ids().len() && 0 <= b < after.offering_ids().len() && a
                != b implies after.offering_ids()[a] != after.offering_ids()[b] by {
            let a0 = if a < j { a } else { a + 1 };
            let b0 = if b < j { b } else { b + 1 };
            assert(after.offering_ids()[a] == ids[a0]);
            assert(after.offering_ids()[b] == ids[b0]);
        }
    }
    assert forall|k: int| 0 <= k < after.history.len() implies (#[trigger] after.history[k]).sales.len()
        > 0 && after.history[k].sales[0].amount == 0 by {
        c.asset_ids().index_of_first_ensures(token_id);
        assert(c.history[k].sales.len() > 0);
    }
    assert forall|m: int| 0 <= m < after.offerings.len() implies after.asset_ids().contains(
        (#[trigger] after.offerings[m]).offering.token_id,
    ) by {
        let m0 = if m < j { m } else { m + 1 };
        assert(after.offerings[m] == c.offerings[m0]);
    }
    assert(after.wf());
    assert forall|n: int| 0 <= n < post.collections.len() implies (#[trigger] post.collections[n]).wf() by {
        if n != i {
            assert(post.collections[n] == pre.collections[n]);
        }
    }
}

/// The label under which the history shows a rail.
pub fn label_of(rail: Rail) -> (r: String)
    ensures
        r@ == rail_label(rail),
{
    match rail {
        Rail::Native => String::from_str("Juno"),
        Rail::Token => String::from_str("Hope"),
    }
}

/// The rail that a price of that denomination is on.
pub fn price_rail(denom: &String) -> (r: Rail)
    ensures
        r == rail_of(denom@),
{
    let token = String::from_str("hope");
    if *denom == token {
        Rail::Token
    } else {
        Rail::Native
    }
}

/// What a call's attached payment holds of a denomination.
pub fn attached(funds: &Vec<Coin>, denom: &String) -> (r: u128)
    ensures
        r == paid_in(coins_view(funds@), denom@),
{
    let ghost keys = denoms(coins_view(funds@));
    let mut i: usize = 0;
    while i < funds.len()
        invariant
            i <= funds@.len(),
            keys == denoms(coins_view(funds@)),
            forall|k: int| 0 <= k < i ==> keys[k] != denom@,
        decreases funds@.len() - i,
    {
        if funds[i].denom == *denom {
            proof {
                lemma_first_at(keys, denom@, i as int);
            }
            return funds[i].amount;
        }
        i = i + 1;
    }
    proof {
        lemma_not_found(keys, denom@);
    }
    0
}

/// The instruction that pays `amount` to `to` on a rail.
fn payment(rail: Rail, token_address: &String, denom: &String, to: &String, amount: u128) -> (r:
    Instruction)
    ensures
        r@ == payment_to(rail, token_address@, denom@, to@, amount),
{
    match rail {
        Rail::Native => Instruction::SendCoin {
            to_address: to.clone(),
            denom: denom.clone(),
            amount,
        },
        Rail::Token => Instruction::TransferToken {
            contract_addr: token_address.clone(),
            recipient: to.clone(),
            amount,
        },
    }
}

/// The trade volume after `gross` more was paid on `rail`.
fn add_volume(stats: Option<PriceInfo>, rail: Rail, gross: u128) -> (r: PriceInfo)
    requires
        volume_on(stats, rail) + gross <= u128::MAX,
    ensures
        r == volume_added(stats, rail, gross),
{
    let before = match stats {
        Some(s) => s,
        None => PriceInfo { total_juno: 0, total_hope: 0 },
    };
    match rail {
        Rail::Native => PriceInfo {
            total_juno: before.total_juno + gross,
            total_hope: before.total_hope,
        },
        Rail::Token => PriceInfo {
            total_juno: before.total_juno,
            total_hope: before.total_hope + gross,
        },
    }
}

impl Ledger {
    /// The transfers that settle offering `j` of collection `i`.
    fn payout_list(&self, i: usize, j: usize, rail: Rail, payer: &String, gross: u128) -> (r: Vec<
        Instruction,
    >)
        requires
            self@.wf(),
            i < self.collections@.len(),
            j < self.collections@[i as int].offerings@.len(),
        ensures
            instructions_view(r@) == payouts(
                self@.config,
                self@.collections[i as int],
                self@.collections[i as int].offerings[j as int].offering,
                rail,
                payer@,
                gross,
            ),
    {
        let c = &self.collections[i];
        let offering = &c.offerings[j].offering;
        let royalty = c.info.royalty_portion;
        let ghost cv = self@.collections[i as int];
        let ghost expected = payouts(self@.config, cv, offering@, rail, payer@, gross);
        proof {
            assert(cv == c@);
            assert(cv.wf());
            assert(cv.offerings[j as int].offering == offering@);
        }
        let mut list: Vec<Instruction> = Vec::new();
        list.push(
            Instruction::TransferNft {
                contract_addr: c.info.nft_address.clone(),
                recipient: payer.clone(),
                token_id: offering.token_id.clone(),
            },
        );
        list.push(
            payment(
                rail,
                &self.config.token_address,
                &offering.list_price.denom,
                &offering.seller,
                seller_amount(gross, royalty),
            ),
        );
        let mut m: usize = 0;
        while m < c.members.len()
            invariant
                m <= c.members@.len(),
                cv == c@,
                cv.wf(),
                royalty == cv.info.royalty_portion,
                expected == payouts(self@.config, cv, offering@, rail, payer@, gross),
                list@.len() == m + 2,
                expected.len() == c.members@.len() + 2,
                forall|n: int| 0 <= n < m + 2 ==> list@[n]@ == expected[n],
            decreases c.members@.len() - m,
        {
            proof {
                lemma_portion_within_sum(cv.members, m as int);
            }
            let member = &c.members[m];
            list.push(
                payment(
                    rail,
                    &self.config.token_address,
                    &offering.list_price.denom,
                    &member.address,
                    member_amount(gross, royalty, member.portion),
                ),
            );
            m = m + 1;
        }
        assert(instructions_view(list@) =~= expected);
        list
    }

    /// Settles offering `j` of collection `i` for `gross`, paid by `payer` on `rail`.
    fn settle(&mut self, i: usize, j: usize, rail: Rail, payer: &String, gross: u128, time: u64) -> (r:
        Response)
        requires
            old(self)@.wf(),
            i < old(self).collections@.len(),
            j < old(self).collections@[i as int].offerings@.len(),
            volume_on(old(self)@.collections[i as int].stats, rail) + gross <= u128::MAX,
        ensures
            (final(self)@, r@) == settled(old(self)@, i as int, j as int, rail, payer@, gross, time),
            final(self)@.wf(),
    {
        let ghost pre = self@;
        let ghost before = pre.collections[i as int];
        let ghost expected = settled(pre, i as int, j as int, rail, payer@, gross, time).0;
        let messages = self.payout_list(i, j, rail, payer, gross);
        let line = SaleInfo {
            address: payer.clone(),
            denom: label_of(rail),
            amount: gross / NORMALIZER,
            time,
        };
        proof {
            assert(before == self.collections@[i as int]@);
            assert(before.wf());
        }
        let c = &mut self.collections[i];
        let record = c.offerings.remove(j);
        c.stats = Some(add_volume(c.stats, rail, gross));
        proof {
            assert(offerings_view(c.offerings@) =~= before.offerings.remove(j as int));
            assert(c@.asset_ids() == before.asset_ids());
        }
        match c.find_history(&record.offering.token_id) {
            Some(k) => {
                let ghost old_history = c.history@;
                c.history[k].sales.push(line);
                proof {
                    assert(sales_view(c.history@[k as int].sales@) =~= sales_view(
                        old_history[k as int].sales@,
                    ).push(line@));
                    assert(histories_view(c.history@) =~= expected.collections[i as int].history);
                }
            },
            None => {},
        }
        proof {
            assert(c@ == expected.collections[i as int]);
            assert(self@.collections =~= expected.collections);
            lemma_settled_wf(pre, i as int, j as int, rail, payer@, gross, time);
        }
        Response { messages }
    }
}

/// Settles an offering that was paid for in the token: see [`spec_receive`].
pub fn execute_receive(ledger: &mut Ledger, env: Env, info: MessageInfo, rcv_msg: TokenReceipt) -> (r:
    Result<Response, ContractError>)
    requires
        old(ledger)@.wf(),
        spec_receive(
            old(ledger)@,
            info@.sender,
            rcv_msg.sender@,
            rcv_msg.amount,
            rcv_msg.msg.offering_id@,
            rcv_msg.msg.nft_address@,
            env.time,
        ) is Ok ==> volume_has_room(
            old(ledger)@,
            rcv_msg.msg.nft_address@,
            Rail::Token,
            rcv_msg.amount,
        ),
    ensures
        agrees(
            spec_receive(
                old(ledger)@,
                info@.sender,
                rcv_msg.sender@,
                rcv_msg.amount,
                rcv_msg.msg.offering_id@,
                rcv_msg.msg.nft_address@,
                env.time,
            ),
            old(ledger)@,
            final(ledger)@,
            r,
        ),
        final(ledger)@.wf(),
{
    if info.sender != ledger.config.token_address {
        return Err(ContractError::Unauthorized);
    }
    let i = match ledger.find_collection(&rcv_msg.msg.nft_address) {
        Some(i) => i,
        None => {
            return Err(ContractError::NotFound);
        },
    };
    let j = match ledger.collections[i].find_offering(&rcv_msg.msg.offering_id) {
        Some(j) => j,
        None => {
            return Err(ContractError::NotFound);
        },
    };
    let price = &ledger.collections[i].offerings[j].offering.list_price;
    match price_rail(&price.denom) {
        Rail::Native => {
            return Err(ContractError::WrongPaymentRail);
        },
        Rail::Token => {},
    }
    if price.amount != rcv_msg.amount {
        return Err(ContractError::InsufficientPayment);
    }
    Ok(ledger.settle(i, j, Rail::Token, &rcv_msg.sender, rcv_msg.amount, env.time))
}

/// Settles an offering that was paid for in the native currency: see [`spec_buy_nft`].
pub fn execute_buy_nft(
    ledger: &mut Ledger,
    env: Env,
    info: MessageInfo,
    offering_id: String,
    nft_address: String,
) -> (r: Result<Response, ContractError>)
    requires
        old(ledger)@.wf(),
        spec_buy_nft(old(ledger)@, info@, offering_id@, nft_address@, env.time) matches Ok(_)
            ==> volume_has_room(
            old(ledger)@,
            nft_address@,
            Rail::Native,
            native_gross(old(ledger)@, info@, offering_id@, nft_address@),
        ),
    ensures
        agrees(
            spec_buy_nft(old(ledger)@, info@, offering_id@, nft_address@, env.time),
            old(ledger)@,
            final(ledger)@,
            r,
        ),
        final(ledger)@.wf(),
{
    let i = match ledger.find_collection(&nft_address) {
        Some(i) => i,
        None => {
            return Err(ContractError::NotFound);
        },
    };
    let j = match ledger.collections[i].find_offering(&offering_id) {
        Some(j) => j,
        None => {
            return Err(ContractError::NotFound);
        },
    };
    let price = &ledger.collections[i].offerings[j].offering.list_price;
    let paid = attached(&info.funds, &price.denom);
    match price_rail(&price.denom) {
        Rail::Token => {
            return Err(ContractError::WrongPaymentRail);
        },
        Rail::Native => {},
    }
    if paid < price.amount {
        return Err(ContractError::InsufficientPayment);
    }
    Ok(ledger.settle(i, j, Rail::Native, &info.sender, paid, env.time))
}

/// Whether a collection's trade volume on a rail can take `gross` more.
fn has_room(stats: Option<PriceInfo>, rail: Rail, gross: u128) -> (r: bool)
    ensures
        r == (volume_on(stats, rail) + gross <= u128::MAX),
{
    let volume = match stats {
        Some(s) => match rail {
            Rail::Native => s.total_juno,
            Rail::Token => s.total_hope,
        },
        None => 0,
    };
    gross <= u128::MAX - volume
}

/// Whether [`execute_receive`] can take the payment: it does not settle anything, or the
/// trade volume has room for it.
pub fn receive_admissible(ledger: &Ledger, env: Env, info: &MessageInfo, rcv_msg: &TokenReceipt) -> (r:
    bool)
    ensures
        r == (spec_receive(
            ledger@,
            info@.sender,
            rcv_msg.sender@,
            rcv_msg.amount,
            rcv_msg.msg.offering_id@,
            rcv_msg.msg.nft_address@,
            env.time,
        ) is Ok ==> volume_has_room(
            ledger@,
            rcv_msg.msg.nft_address@,
            Rail::Token,
            rcv_msg.amount,
        )),
{
    if info.sender != ledger.config.token_address {
        return true;
    }
    let i = match ledger.find_collection(&rcv_msg.msg.nft_address) {
        Some(i) => i,
        None => {
            return true;
        },
    };
    let c = &ledger.collections[i];
    let j = match c.find_offering(&rcv_msg.msg.offering_id) {
        Some(j) => j,
        None => {
            return true;
        },
    };
    let price = &c.offerings[j].offering.list_price;
    match price_rail(&price.denom) {
        Rail::Native => {
            return true;
        },
        Rail::Token => {},
    }
    if price.amount != rcv_msg.amount {
        return true;
    }
    has_room(c.stats, Rail::Token, rcv_msg.amount)
}

/// Whether [`execute_buy_nft`] can take the payment: it does not settle anything, or the
/// trade volume has room for it.
pub fn buy_admissible(
    ledger: &Ledger,
    env: Env,
    info: &MessageInfo,
    offering_id: &String,
    nft_address: &String,
) -> (r: bool)
    ensures
        r == (spec_buy_nft(ledger@, info@, offering_id@, nft_address@, env.time) is Ok
            ==> volume_has_room(
            ledger@,
            nft_address@,
            Rail::Native,
            native_gross(ledger@, info@, offering_id@, nft_address@),
        )),
{
    let i = match ledger.find_collection(nft_address) {
        Some(i) => i,
        None => {
            return true;
        },
    };
    let c = &ledger.collections[i];
    let j = match c.find_offering(offering_id) {
        Some(j) => j,
        None => {
            return true;
        },
    };
    let price = &c.offerings[j].offering.list_price;
    let paid = attached(&info.funds, &price.denom);
    match price_rail(&price.denom) {
        Rail::Token => {
            return true;
        },
        Rail::Native => {},
    }
    if paid < price.amount {
        return true;
    }
    has_room(c.stats, Rail::Native, paid)
}

} // verus!
