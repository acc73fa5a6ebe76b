//! What goes into a call on the ledger and what comes out of it.
use crate::fraction::Fraction;
use crate::state::{
    members_view, sales_view, texts_view, Asset, AssetView, CollectionInfo, CollectionInfoView,
    PriceInfo, SaleInfo, SaleInfoView, State, StateView, UserInfo, UserInfoView,
};
use vstd::prelude::*;

verus! {

/// The first configuration of a ledger.
#[derive(Clone, Debug, PartialEq, Eq)]
pub struct InstantiateMsg {
    pub owner: String,
    pub token_address: String,
}

/// The order that accompanies a deposited asset: the price to list it at.
#[derive(Clone, Debug, PartialEq, Eq)]
pub struct SellNft {
    pub list_price: Asset,
}

/// The order that accompanies a token payment: the offering to buy.
#[derive(Clone, Debug, PartialEq, Eq)]
pub struct BuyNft {
    pub offering_id: String,
    pub nft_address: String,
}

/// A collection's notice that `sender` has deposited the asset `token_id` with the ledger.
#[derive(Clone, Debug, PartialEq, Eq)]
pub struct NftReceipt {
    pub sender: String,
    pub token_id: String,
    pub msg: SellNft,
}

/// The token contract's notice that `sender` has paid `amount` to the ledger.
#[derive(Clone, Debug, PartialEq, Eq)]
pub struct TokenReceipt {
    pub sender: String,
    pub amount: u128,
    pub msg: BuyNft,
}

/// The calls that change the ledger.
#[derive(Clone, Debug, PartialEq, Eq)]
pub enum ExecuteMsg {
    ReceiveNft(NftReceipt),
    Receive(TokenReceipt),
    BuyNft { offering_id: String, nft_address: String },
    WithdrawNft { offering_id: String, nft_address: String },
    ChangeOwner { address: String },
    SetTokenAddress { address: String },
    AddCollection { royalty_portion: Fraction, members: Vec<UserInfo>, nft_address: String },
    UpdateCollection { royalty_portion: Fraction, members: Vec<UserInfo>, nft_address: String },
    FixNft { address: String, token_id: String },
}

/// The value that an [`ExecuteMsg`] stands for.
pub enum ExecuteMsgView {
    ReceiveNft { sender: Seq<char>, token_id: Seq<char>, list_price: AssetView },
    Receive { sender: Seq<char>, amount: u128, offering_id: Seq<char>, nft_address: Seq<char> },
    BuyNft { offering_id: Seq<char>, nft_address: Seq<char> },
    WithdrawNft { offering_id: Seq<char>, nft_address: Seq<char> },
    ChangeOwner { address: Seq<char> },
    SetTokenAddress { address: Seq<char> },
    AddCollection {
        royalty_portion: Fraction,
        members: Seq<UserInfoView>,
        nft_address: Seq<char>,
    },
    UpdateCollection {
        royalty_portion: Fraction,
        members: Seq<UserInfoView>,
        nft_address: Seq<char>,
    },
    FixNft { address: Seq<char>, token_id: Seq<char> },
}

impl View for ExecuteMsg {
    type V = ExecuteMsgView;

    open spec fn view(&self) -> ExecuteMsgView {
        match self {
            ExecuteMsg::ReceiveNft(receipt) => ExecuteMsgView::ReceiveNft {
                sender: receipt.sender@,
                token_id: receipt.token_id@,
                list_price: receipt.msg.list_price@,
            },
            ExecuteMsg::Receive(receipt) => ExecuteMsgView::Receive {
                sender: receipt.sender@,
                amount: receipt.amount,
                offering_id: receipt.msg.offering_id@,
                nft_address: receipt.msg.nft_address@,
            },
            ExecuteMsg::BuyNft { offering_id, nft_address } => ExecuteMsgView::BuyNft {
                offering_id: offering_id@,
                nft_address: nft_address@,
            },
            ExecuteMsg::WithdrawNft { offering_id, nft_address } => ExecuteMsgView::WithdrawNft {
                offering_id: offering_id@,
                nft_address: nft_address@,
            },
            ExecuteMsg::ChangeOwner { address } => ExecuteMsgView::ChangeOwner {
                address: address@,
            },
            ExecuteMsg::SetTokenAddress { address } => ExecuteMsgView::SetTokenAddress {
                address: address@,
            },
            ExecuteMsg::AddCollection {
                royalty_portion,
                members,
                nft_address,
            } => ExecuteMsgView::AddCollection {
                royalty_portion: *royalty_portion,
                members: members_view(members@),
                nft_address: nft_address@,
            },
            ExecuteMsg::UpdateCollection {
                royalty_portion,
                members,
                nft_address,
            } => ExecuteMsgView::UpdateCollection {
                royalty_portion: *royalty_portion,
                members: members_view(members@),
                nft_address: nft_address@,
            },
            ExecuteMsg::FixNft { address, token_id } => ExecuteMsgView::FixNft {
                address: address@,
                token_id: token_id@,
            },
        }
    }
}

/// The questions that the ledger answers.
#[derive(Clone, Debug, PartialEq, Eq)]
pub enum QueryMsg {
    GetStateInfo {  },
    GetMembers { address: String },
    GetOfferingId { address: String },
    GetSaleHistory { address: String, token_id: String },
    GetOfferingPage { id: Vec<String>, address: String },
    GetTradingInfo { address: String },
    GetCollectionInfo { address: String },
}

/// The value that a [`QueryMsg`] stands for.
pub enum QueryMsgView {
    GetStateInfo,
    GetMembers { address: Seq<char> },
    GetOfferingId { address: Seq<char> },
    GetSaleHistory { address: Seq<char>, token_id: Seq<char> },
    GetOfferingPage { id: Seq<Seq<char>>, address: Seq<char> },
    GetTradingInfo { address: Seq<char> },
    GetCollectionInfo { address: Seq<char> },
}

impl View for QueryMsg {
    type V = QueryMsgView;

    open spec fn view(&self) -> QueryMsgView {
        match self {
            QueryMsg::GetStateInfo {  } => QueryMsgView::GetStateInfo,
            QueryMsg::GetMembers { address } => QueryMsgView::GetMembers { address: address@ },
            QueryMsg::GetOfferingId { address } => QueryMsgView::GetOfferingId {
                address: address@,
            },
            QueryMsg::GetSaleHistory { address, token_id } => QueryMsgView::GetSaleHistory {
                address: address@,
                token_id: token_id@,
            },
            QueryMsg::GetOfferingPage { id, address } => QueryMsgView::GetOfferingPage {
                id: texts_view(id@),
                address: address@,
            },
            QueryMsg::GetTradingInfo { address } => QueryMsgView::GetTradingInfo {
                address: address@,
            },
            QueryMsg::GetCollectionInfo { address } => QueryMsgView::GetCollectionInfo {
                address: address@,
            },
        }
    }
}

/// An amount of a native currency.
#[derive(Clone, Debug, PartialEq, Eq)]
pub struct Coin {
    pub denom: String,
    pub amount: u128,
}

/// The value that a [`Coin`] stands for.
pub struct CoinView {
    pub denom: Seq<char>,
    pub amount: u128,
}

impl View for Coin {
    type V = CoinView;

    open spec fn view(&self) -> CoinView {
        CoinView { denom: self.denom@, amount: self.amount }
    }
}

/// The values that a list of coins stands for, in order.
pub open spec fn coins_view(coins: Seq<Coin>) -> Seq<CoinView> {
    coins.map_values(|c: Coin| c@)
}

/// Who makes a call, and the native payment attached to it.
#[derive(Clone, Debug, PartialEq, Eq)]
pub struct MessageInfo {
    pub sender: String,
    pub funds: Vec<Coin>,
}

/// The value that a [`MessageInfo`] stands for.
pub struct MessageInfoView {
    pub sender: Seq<char>,
    pub funds: Seq<CoinView>,
}

impl View for MessageInfo {
    type V = MessageInfoView;

    open spec fn view(&self) -> MessageInfoView {
        MessageInfoView { sender: self.sender@, funds: coins_view(self.funds@) }
    }
}

/// What a call learns of its surroundings: the time of the block it runs in, in seconds.
#[derive(Clone, Copy, Debug, PartialEq, Eq, Structural)]
pub struct Env {
    pub time: u64,
}

/// The host's verdict on the syntax of the addresses that a message names. The ledger
/// does not judge addresses itself.
#[derive(Clone, Debug, PartialEq, Eq)]
pub struct AddressCheck {
    /// Whether the address passed that the message gives for the new owner, for the new
    /// token contract, or for the collection that is to hand an asset back. No other
    /// message asks for this verdict.
    pub address: bool,
    /// Whether each member's address passed, in the order of the member list. A member
    /// without a verdict counts as rejected.
    pub members: Vec<bool>,
}

/// The value that an [`AddressCheck`] stands for.
pub struct AddressCheckView {
    pub address: bool,
    pub members: Seq<bool>,
}

impl View for AddressCheck {
    type V = AddressCheckView;

    open spec fn view(&self) -> AddressCheckView {
        AddressCheckView { address: self.address, members: self.members@ }
    }
}

/// A transfer that the host has to carry out once the call has been committed.
#[derive(Clone, Debug, PartialEq, Eq)]
pub enum Instruction {
    /// Have the collection `contract_addr` hand the asset `token_id` to `recipient`.
    TransferNft { contract_addr: String, recipient: String, token_id: String },
    /// Have the token contract `contract_addr` pay `amount` to `recipient`.
    TransferToken { contract_addr: String, recipient: String, amount: u128 },
    /// Pay `amount` of the native currency `denom` to `to_address`.
    SendCoin { to_address: String, denom: String, amount: u128 },
}

/// The value that an [`Instruction`] stands for.
pub enum InstructionView {
    TransferNft { contract_addr: Seq<char>, recipient: Seq<char>, token_id: Seq<char> },
    TransferToken { contract_addr: Seq<char>, recipient: Seq<char>, amount: u128 },
    SendCoin { to_address: Seq<char>, denom: Seq<char>, amount: u128 },
}

impl View for Instruction {
    type V = InstructionView;

    open spec fn view(&self) -> InstructionView {
        match self {
            Instruction::TransferNft {
                contract_addr,
                recipient,
                token_id,
            } => InstructionView::TransferNft {
                contract_addr: contract_addr@,
                recipient: recipient@,
                token_id: token_id@,
            },
            Instruction::TransferToken {
                contract_addr,
                recipient,
                amount,
            } => InstructionView::TransferToken {
                contract_addr: contract_addr@,
                recipient: recipient@,
                amount: *amount,
            },
            Instruction::SendCoin { to_address, denom, amount } => InstructionView::SendCoin {
                to_address: to_address@,
                denom: denom@,
                amount: *amount,
            },
        }
    }
}

/// The values that a list of instructions stands for, in order.
pub open spec fn instructions_view(list: Seq<Instruction>) -> Seq<InstructionView> {
    list.map_values(|i: Instruction| i@)
}

/// The outcome of a call that went through: the transfers to carry out, in order.
#[derive(Clone, Debug, PartialEq, Eq)]
pub struct Response {
    pub messages: Vec<Instruction>,
}

impl View for Response {
    type V = Seq<InstructionView>;

    open spec fn view(&self) -> Seq<InstructionView> {
        instructions_view(self.messages@)
    }
}

impl Response {
    /// The outcome that asks for no transfer.
    pub fn new() -> (r: Response)
        ensures
            r@ == Seq::<InstructionView>::empty(),
    {
        let r = Response { messages: Vec::new() };
        assert(r@ =~= Seq::<InstructionView>::empty());
        r
    }
}

/// An open offering as a page shows it.
#[derive(Clone, Debug, PartialEq, Eq)]
pub struct QueryOfferingsResult {
    pub id: String,
    pub token_id: String,
    pub list_price: Asset,
    pub seller: String,
}

/// The value that a [`QueryOfferingsResult`] stands for.
pub struct QueryOfferingsResultView {
    pub id: Seq<char>,
    pub token_id: Seq<char>,
    pub list_price: AssetView,
    pub seller: Seq<char>,
}

impl View for QueryOfferingsResult {
    type V = QueryOfferingsResultView;

    open spec fn view(&self) -> QueryOfferingsResultView {
        QueryOfferingsResultView {
            id: self.id@,
            token_id: self.token_id@,
            list_price: self.list_price@,
            seller: self.seller@,
        }
    }
}

/// The values that a page of offerings stands for, in order.
pub open spec fn page_view(page: Seq<QueryOfferingsResult>) -> Seq<QueryOfferingsResultView> {
    page.map_values(|o: QueryOfferingsResult| o@)
}

/// The answer to a question, one variant for each question.
#[derive(Clone, Debug, PartialEq, Eq)]
pub enum QueryResponse {
    StateInfo(State),
    Members(Vec<UserInfo>),
    OfferingIds(Vec<String>),
    SaleHistory(Vec<SaleInfo>),
    OfferingPage(Vec<QueryOfferingsResult>),
    TradingInfo(PriceInfo),
    CollectionInfo(CollectionInfo),
}

/// The value that a [`QueryResponse`] stands for.
pub enum QueryResponseView {
    StateInfo(StateView),
    Members(Seq<UserInfoView>),
    OfferingIds(Seq<Seq<char>>),
    SaleHistory(Seq<SaleInfoView>),
    OfferingPage(Seq<QueryOfferingsResultView>),
    TradingInfo(PriceInfo),
    CollectionInfo(CollectionInfoView),
}

impl View for QueryResponse {
    type V = QueryResponseView;

    open spec fn view(&self) -> QueryResponseView {
        match self {
            QueryResponse::StateInfo(s) => QueryResponseView::StateInfo(s@),
            QueryResponse::Members(m) => QueryResponseView::Members(members_view(m@)),
            QueryResponse::OfferingIds(ids) => QueryResponseView::OfferingIds(texts_view(ids@)),
            QueryResponse::SaleHistory(h) => QueryResponseView::SaleHistory(sales_view(h@)),
            QueryResponse::OfferingPage(p) => QueryResponseView::OfferingPage(page_view(p@)),
            QueryResponse::TradingInfo(t) => QueryResponseView::TradingInfo(*t),
            QueryResponse::CollectionInfo(c) => QueryResponseView::CollectionInfo(c@),
        }
    }
}

} // verus!
