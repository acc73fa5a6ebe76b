//! The records that the ledger keeps, each with the mathematical value it stands for.
use crate::fraction::Fraction;
use vstd::prelude::*;

verus! {

/// The ledger's global configuration.
#[derive(Clone, Debug, PartialEq, Eq)]
pub struct State {
    /// Who may administer the ledger.
    pub owner: String,
    /// The contract of the fungible token that the token rail is paid in.
    pub token_address: String,
}

/// The value that a [`State`] stands for.
pub struct StateView {
    pub owner: Seq<char>,
    pub token_address: Seq<char>,
}

impl View for State {
    type V = StateView;

    open spec fn view(&self) -> StateView {
        StateView { owner: self.owner@, token_address: self.token_address@ }
    }
}

impl State {
    pub fn duplicate(&self) -> (r: State)
        ensures
            r@ == self@,
    {
        State { owner: self.owner.clone(), token_address: self.token_address.clone() }
    }
}

/// A collection's royalty configuration and the last offering id it gave out.
#[derive(Clone, Debug, PartialEq, Eq)]
pub struct CollectionInfo {
    pub nft_address: String,
    pub offering_id: u64,
    pub royalty_portion: Fraction,
}

/// The value that a [`CollectionInfo`] stands for.
pub struct CollectionInfoView {
    pub nft_address: Seq<char>,
    pub offering_id: u64,
    pub royalty_portion: Fraction,
}

impl View for CollectionInfo {
    type V = CollectionInfoView;

    open spec fn view(&self) -> CollectionInfoView {
        CollectionInfoView {
            nft_address: self.nft_address@,
            offering_id: self.offering_id,
            royalty_portion: self.royalty_portion,
        }
    }
}

impl CollectionInfo {
    pub fn duplicate(&self) -> (r: CollectionInfo)
        ensures
            r@ == self@,
    {
        CollectionInfo {
            nft_address: self.nft_address.clone(),
            offering_id: self.offering_id,
            royalty_portion: self.royalty_portion,
        }
    }
}

/// An amount on a payment rail. The denomination names the rail.
#[derive(Clone, Debug, PartialEq, Eq)]
pub struct Asset {
    pub denom: String,
    pub amount: u128,
}

/// The value that an [`Asset`] stands for.
pub struct AssetView {
    pub denom: Seq<char>,
    pub amount: u128,
}

impl View for Asset {
    type V = AssetView;

    open spec fn view(&self) -> AssetView {
        AssetView { denom: self.denom@, amount: self.amount }
    }
}

impl Asset {
    pub fn duplicate(&self) -> (r: Asset)
        ensures
            r@ == self@,
    {
        Asset { denom: self.denom.clone(), amount: self.amount }
    }
}

/// An asset held for sale at a price.
#[derive(Clone, Debug, PartialEq, Eq)]
pub struct Offering {
    pub token_id: String,
    pub seller: String,
    pub list_price: Asset,
}

/// The value that an [`Offering`] stands for.
pub struct OfferingView {
    pub token_id: Seq<char>,
    pub seller: Seq<char>,
    pub list_price: AssetView,
}

impl View for Offering {
    type V = OfferingView;

    open spec fn view(&self) -> OfferingView {
        OfferingView {
            token_id: self.token_id@,
            seller: self.seller@,
            list_price: self.list_price@,
        }
    }
}

impl Offering {
    pub fn duplicate(&self) -> (r: Offering)
        ensures
            r@ == self@,
    {
        Offering {
            token_id: self.token_id.clone(),
            seller: self.seller.clone(),
            list_price: self.list_price.duplicate(),
        }
    }
}

/// A royalty recipient and its portion of the royalty.
#[derive(Clone, Debug, PartialEq, Eq)]
pub struct UserInfo {
    pub address: String,
    pub portion: Fraction,
}

/// The value that a [`UserInfo`] stands for.
pub struct UserInfoView {
    pub address: Seq<char>,
    pub portion: Fraction,
}

impl View for UserInfo {
    type V = UserInfoView;

    open spec fn view(&self) -> UserInfoView {
        UserInfoView { address: self.address@, portion: self.portion }
    }
}

impl UserInfo {
    pub fn duplicate(&self) -> (r: UserInfo)
        ensures
            r@ == self@,
    {
        UserInfo { address: self.address.clone(), portion: self.portion }
    }
}

/// One line of an asset's sale history.
#[derive(Clone, Debug, PartialEq, Eq)]
pub struct SaleInfo {
    /// Who deposited the asset first, or who bought it.
    pub address: String,
    /// The label of the rail that was paid on.
    pub denom: String,
    /// The amount paid, in whole units of a million.
    pub amount: u128,
    /// The time of the call, in seconds.
    pub time: u64,
}

/// The value that a [`SaleInfo`] stands for.
pub struct SaleInfoView {
    pub address: Seq<char>,
    pub denom: Seq<char>,
    pub amount: u128,
    pub time: u64,
}

impl View for SaleInfo {
    type V = SaleInfoView;

    open spec fn view(&self) -> SaleInfoView {
        SaleInfoView {
            address: self.address@,
            denom: self.denom@,
            amount: self.amount,
            time: self.time,
        }
    }
}

impl SaleInfo {
    pub fn duplicate(&self) -> (r: SaleInfo)
        ensures
            r@ == self@,
    {
        SaleInfo {
            address: self.address.clone(),
            denom: self.denom.clone(),
            amount: self.amount,
            time: self.time,
        }
    }
}

/// A collection's trade volume on each of the two rails.
#[derive(Clone, Copy, Debug, PartialEq, Eq, Structural)]
pub struct PriceInfo {
    /// The total paid on the native rail.
    pub total_juno: u128,
    /// The total paid on the token rail.
    pub total_hope: u128,
}

/// The values that a list of members stands for, in order.
pub open spec fn members_view(members: Seq<UserInfo>) -> Seq<UserInfoView> {
    members.map_values(|m: UserInfo| m@)
}

/// The values that a list of history lines stands for, in order.
pub open spec fn sales_view(sales: Seq<SaleInfo>) -> Seq<SaleInfoView> {
    sales.map_values(|s: SaleInfo| s@)
}

/// The values that a list of texts stands for, in order.
pub open spec fn texts_view(texts: Seq<String>) -> Seq<Seq<char>> {
    texts.map_values(|t: String| t@)
}

/// A copy of a member list.
pub fn duplicate_members(members: &Vec<UserInfo>) -> (r: Vec<UserInfo>)
    ensures
        members_view(r@) == members_view(members@),
{
    let mut out: Vec<UserInfo> = Vec::new();
    let mut i: usize = 0;
    while i < members.len()
        invariant
            i <= members@.len(),
            out@.len() == i,
            forall|j: int| 0 <= j < i ==> out@[j]@ == members@[j]@,
        decreases members@.len() - i,
    {
        out.push(members[i].duplicate());
        i = i + 1;
    }
    assert(members_view(out@) =~= members_view(members@));
    out
}

/// A copy of a sale history.
pub fn duplicate_sales(sales: &Vec<SaleInfo>) -> (r: Vec<SaleInfo>)
    ensures
        sales_view(r@) == sales_view(sales@),
{
    let mut out: Vec<SaleInfo> = Vec::new();
    let mut i: usize = 0;
    while i < sales.len()
        invariant
            i <= sales@.len(),
            out@.len() == i,
            forall|j: int| 0 <= j < i ==> out@[j]@ == sales@[j]@,
        decreases sales@.len() - i,
    {
        out.push(sales[i].duplicate());
        i = i + 1;
    }
    assert(sales_view(out@) =~= sales_view(sales@));
    out
}

} // verus!
