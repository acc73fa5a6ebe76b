//! The questions that the ledger answers. None of them changes it.
use crate::error::ContractError;
use crate::ledger::{CollectionView, Ledger, LedgerView};
use crate::msg::{
    page_view, Env, QueryMsg, QueryMsgView, QueryOfferingsResult, QueryOfferingsResultView,
    QueryResponse, QueryResponseView,
};
use crate::state::{
    duplicate_members, duplicate_sales, members_view, sales_view, texts_view, CollectionInfo,
    CollectionInfoView, PriceInfo, SaleInfo, SaleInfoView, State, UserInfo, UserInfoView,
};
use vstd::prelude::*;

verus! {

/// An answer is the one laid down, and a refusal has the reason laid down.
pub open spec fn answers<T: View>(expected: Result<T::V, ContractError>, r: Result<T, ContractError>) -> bool {
    match r {
        Ok(value) => expected == Ok::<T::V, ContractError>(value@),
        Err(e) => expected == Err::<T::V, ContractError>(e),
    }
}

/// The royalty configuration of a collection that was added.
pub open spec fn collection_info_of(l: LedgerView, address: Seq<char>) -> Result<
    CollectionInfoView,
    ContractError,
> {
    match l.collection_index(address) {
        Some(i) => Ok(l.collections[i].info),
        None => Err(ContractError::NotFound),
    }
}

/// The members of a collection that was added.
pub open spec fn members_of(l: LedgerView, address: Seq<char>) -> Result<
    Seq<UserInfoView>,
    ContractError,
> {
    match l.collection_index(address) {
        Some(i) => Ok(l.collections[i].members),
        None => Err(ContractError::NotFound),
    }
}

/// The trade volume of a collection: nothing on either rail where it has not traded or
/// was never added.
pub open spec fn trading_of(l: LedgerView, address: Seq<char>) -> PriceInfo {
    match l.collection_index(address) {
        Some(i) => match l.collections[i].stats {
            Some(s) => s,
            None => PriceInfo { total_juno: 0, total_hope: 0 },
        },
        None => PriceInfo { total_juno: 0, total_hope: 0 },
    }
}

/// The ids of a collection's open offerings, in the order of its table, which is the
/// order in which the ids were first listed; none for a collection that was never added.
pub open spec fn open_ids(l: LedgerView, address: Seq<char>) -> Seq<Seq<char>> {
    match l.collection_index(address) {
        Some(i) => l.collections[i].offering_ids(),
        None => Seq::empty(),
    }
}

/// How a page shows the offering that is open under `id`.
pub open spec fn page_entry(c: CollectionView, id: Seq<char>) -> QueryOfferingsResultView {
    let offering = c.offerings[c.offering_index(id).unwrap()].offering;
    QueryOfferingsResultView {
        id,
        token_id: offering.token_id,
        list_price: offering.list_price,
        seller: offering.seller,
    }
}

/// The offerings that are open under the given ids, in the order of the ids. One id that
/// is not open fails the whole page.
pub open spec fn offering_page(l: LedgerView, ids: Seq<Seq<char>>, address: Seq<char>) -> Result<
    Seq<QueryOfferingsResultView>,
    ContractError,
> {
    if ids.len() == 0 {
        Ok(Seq::empty())
    } else {
        match l.collection_index(address) {
            Some(i) => {
                let c = l.collections[i];
                if forall|k: int| 0 <= k < ids.len() ==> c.offering_ids().contains(#[trigger] ids[k]) {
                    Ok(ids.map_values(|id: Seq<char>| page_entry(c, id)))
                } else {
                    Err(ContractError::NotFound)
                }
            },
            None => Err(ContractError::NotFound),
        }
    }
}

/// The sale history of an asset that the collection has seen.
pub open spec fn history_of(l: LedgerView, address: Seq<char>, token_id: Seq<char>) -> Result<
    Seq<SaleInfoView>,
    ContractError,
> {
    match l.collection_index(address) {
        Some(i) => match l.collections[i].history_index(token_id) {
            Some(k) => Ok(l.collections[i].history[k].sales),
            None => Err(ContractError::NotFound),
        },
        None => Err(ContractError::NotFound),
    }
}

/// The answer to each question.
pub open spec fn spec_query(l: LedgerView, msg: QueryMsgView) -> Result<
    QueryResponseView,
    ContractError,
> {
    match msg {
        QueryMsgView::GetStateInfo => Ok(QueryResponseView::StateInfo(l.config)),
        QueryMsgView::GetMembers { address } => match members_of(l, address) {
            Ok(m) => Ok(QueryResponseView::Members(m)),
            Err(e) => Err(e),
        },
        QueryMsgView::GetOfferingId { address } => Ok(
            QueryResponseView::OfferingIds(open_ids(l, address)),
        ),
        QueryMsgView::GetSaleHistory { address, token_id } => match history_of(
            l,
            address,
            token_id,
        ) {
            Ok(h) => Ok(QueryResponseView::SaleHistory(h)),
            Err(e) => Err(e),
        },
        QueryMsgView::GetOfferingPage { id, address } => match offering_page(l, id, address) {
            Ok(p) => Ok(QueryResponseView::OfferingPage(p)),
            Err(e) => Err(e),
        },
        QueryMsgView::GetTradingInfo { address } => Ok(
            QueryResponseView::TradingInfo(trading_of(l, address)),
        ),
        QueryMsgView::GetCollectionInfo { address } => match collection_info_of(l, address) {
            Ok(c) => Ok(QueryResponseView::CollectionInfo(c)),
            Err(e) => Err(e),
        },
    }
}

/// The global configuration.
pub fn query_state_info(ledger: &Ledger) -> (r: Result<State, ContractError>)
    ensures
        r matches Ok(state) && state@ == ledger@.config,
{
    Ok(ledger.config.duplicate())
}

/// The royalty configuration of a collection, or `NotFound` where it was never added.
pub fn query_collection_info(ledger: &Ledger, address: String) -> (r: Result<
    CollectionInfo,
    ContractError,
>)
    ensures
        answers(collection_info_of(ledger@, address@), r),
{
    match ledger.find_collection(&address) {
        Some(i) => Ok(ledger.collections[i].info.duplicate()),
        None => Err(ContractError::NotFound),
    }
}

/// The members of a collection, or `NotFound` where it was never added.
pub fn query_get_members(ledger: &Ledger, address: String) -> (r: Result<
    Vec<UserInfo>,
    ContractError,
>)
    ensures
        match r {
            Ok(members) => members_of(ledger@, address@) == Ok::<Seq<UserInfoView>, ContractError>(
                members_view(members@),
            ),
            Err(e) => members_of(ledger@, address@) == Err::<Seq<UserInfoView>, ContractError>(e),
        },
{
    match ledger.find_collection(&address) {
        Some(i) => Ok(duplicate_members(&ledger.collections[i].members)),
        None => Err(ContractError::NotFound),
    }
}

/// The trade volume of a collection. This question is never refused.
pub fn query_get_trading(ledger: &Ledger, address: String) -> (r: Result<PriceInfo, ContractError>)
    ensures
        r == Ok::<PriceInfo, ContractError>(trading_of(ledger@, address@)),
{
    match ledger.find_collection(&address) {
        Some(i) => match ledger.collections[i].stats {
            Some(s) => Ok(s),
            None => Ok(PriceInfo { total_juno: 0, total_hope: 0 }),
        },
        None => Ok(PriceInfo { total_juno: 0, total_hope: 0 }),
    }
}

/// The ids of a collection's open offerings. This question is never refused.
pub fn query_get_ids(ledger: &Ledger, address: String) -> (r: Result<Vec<String>, ContractError>)
    ensures
        r matches Ok(ids) && texts_view(ids@) == open_ids(ledger@, address@),
{
    let mut ids: Vec<String> = Vec::new();
    match ledger.find_collection(&address) {
        Some(i) => {
            let c = &ledger.collections[i];
            let mut j: usize = 0;
            while j < c.offerings.len()
                invariant
                    j <= c.offerings@.len(),
                    ids@.len() == j,
                    forall|k: int| 0 <= k < j ==> ids@[k]@ == c.offerings@[k].id@,
                decreases c.offerings@.len() - j,
            {
                ids.push(c.offerings[j].id.clone());
                j = j + 1;
            }
            assert(texts_view(ids@) =~= c@.offering_ids());
        },
        None => {
            assert(texts_view(ids@) =~= Seq::<Seq<char>>::empty());
        },
    }
    Ok(ids)
}

/// The offerings that are open under the given ids, or `NotFound` where one of them is
/// not open.
pub fn query_get_offering(ledger: &Ledger, ids: Vec<String>, address: String) -> (r: Result<
    Vec<QueryOfferingsResult>,
    ContractError,
>)
    ensures
        match r {
            Ok(page) => offering_page(ledger@, texts_view(ids@), address@) == Ok::<
                Seq<QueryOfferingsResultView>,
                ContractError,
            >(page_view(page@)),
            Err(e) => offering_page(ledger@, texts_view(ids@), address@) == Err::<
                Seq<QueryOfferingsResultView>,
                ContractError,
            >(e),
        },
{
    let ghost wanted = texts_view(ids@);
    let mut page: Vec<QueryOfferingsResult> = Vec::new();
    if ids.len() == 0 {
        assert(page_view(page@) =~= Seq::<QueryOfferingsResultView>::empty());
        return Ok(page);
    }
    let i = match ledger.find_collection(&address) {
        Some(i) => i,
        None => {
            return Err(ContractError::NotFound);
        },
    };
    let c = &ledger.collections[i];
    let ghost cv = ledger@.collections[i as int];
    assert(cv == c@);
    let mut k: usize = 0;
    while k < ids.len()
        invariant
            k <= ids@.len(),
            wanted == texts_view(ids@),
            cv == c@,
            ledger@.collection_index(address@) == Some(i as int),
            cv == ledger@.collections[i as int],
            page@.len() == k,
            forall|n: int| 0 <= n < k ==> cv.offering_ids().contains(#[trigger] wanted[n]),
            forall|n: int| 0 <= n < k ==> (#[trigger] page@[n])@ == page_entry(cv, wanted[n]),
        decreases ids@.len() - k,
    {
        match c.find_offering(&ids[k]) {
            Some(j) => {
                let offering = &c.offerings[j].offering;
                page.push(
                    QueryOfferingsResult {
                        id: ids[k].clone(),
                        token_id: offering.token_id.clone(),
                        list_price: offering.list_price.duplicate(),
                        seller: offering.seller.clone(),
                    },
                );
            },
            None => {
                assert(wanted[k as int] == ids@[k as int]@);
                assert(!cv.offering_ids().contains(wanted[k as int]));
                return Err(ContractError::NotFound);
            },
        }
        k = k + 1;
    }
    assert(page_view(page@) =~= wanted.map_values(|id: Seq<char>| page_entry(cv, id)));
    Ok(page)
}

/// The sale history of an asset, or `NotFound` where the collection has not seen it.
pub fn query_get_history(ledger: &Ledger, address: String, token_id: String) -> (r: Result<
    Vec<SaleInfo>,
    ContractError,
>)
    ensures
        match r {
            Ok(sales) => history_of(ledger@, address@, token_id@) == Ok::<
                Seq<SaleInfoView>,
                ContractError,
            >(sales_view(sales@)),
            Err(e) => history_of(ledger@, address@, token_id@) == Err::<
                Seq<SaleInfoView>,
                ContractError,
            >(e),
        },
{
    let i = match ledger.find_collection(&address) {
        Some(i) => i,
        None => {
            return Err(ContractError::NotFound);
        },
    };
    match ledger.collections[i].find_history(&token_id) {
        Some(k) => Ok(duplicate_sales(&ledger.collections[i].history[k].sales)),
        None => Err(ContractError::NotFound),
    }
}

/// Answers a question: see [`spec_query`].
pub fn query(ledger: &Ledger, env: Env, msg: QueryMsg) -> (r: Result<QueryResponse, ContractError>)
    ensures
        answers(spec_query(ledger@, msg@), r),
{
    match msg {
        QueryMsg::GetStateInfo {  } => match query_state_info(ledger) {
            Ok(s) => Ok(QueryResponse::StateInfo(s)),
            Err(e) => Err(e),
        },
        QueryMsg::GetMembers { address } => match query_get_members(ledger, address) {
            Ok(m) => Ok(QueryResponse::Members(m)),
            Err(e) => Err(e),
        },
        QueryMsg::GetOfferingId { address } => match query_get_ids(ledger, address) {
            Ok(ids) => Ok(QueryResponse::OfferingIds(ids)),
            Err(e) => Err(e),
        },
        QueryMsg::GetSaleHistory { address, token_id } => match query_get_history(
            ledger,
            address,
            token_id,
        ) {
            Ok(h) => Ok(QueryResponse::SaleHistory(h)),
            Err(e) => Err(e),
        },
        QueryMsg::GetOfferingPage { id, address } => match query_get_offering(
            ledger,
            id,
            address,
        ) {
            Ok(p) => Ok(QueryResponse::OfferingPage(p)),
            Err(e) => Err(e),
        },
        QueryMsg::GetTradingInfo { address } => match query_get_trading(ledger, address) {
            Ok(t) => Ok(QueryResponse::TradingInfo(t)),
            Err(e) => Err(e),
        },
        QueryMsg::GetCollectionInfo { address } => match query_collection_info(
            ledger,
            address,
        ) {
            Ok(c) => Ok(QueryResponse::CollectionInfo(c)),
            Err(e) => Err(e),
        },
    }
}

} // verus!
