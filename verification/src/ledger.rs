//! The ledger itself: the global configuration and, for each collection, its royalty
//! configuration, its members, its trade volume, its open offerings and the sale history
//! of its assets.
//!
//! Every table is a list of records with a key that occurs at most once: collections by
//! address, offerings by id, histories by asset. Offerings stay in the order in which
//! their ids were first listed.
use crate::error::ContractError;
use crate::msg::{InstructionView, Response};
use crate::royalty::{portions_add_up, portions_complete};
use crate::state::{
    members_view, sales_view, CollectionInfo, CollectionInfoView, Offering, OfferingView,
    PriceInfo, SaleInfo, SaleInfoView, State, StateView, UserInfo, UserInfoView,
};
use vstd::prelude::*;

verus! {

/// An open offering under its id.
#[derive(Clone, Debug, PartialEq, Eq)]
pub struct OfferingRecord {
    pub id: String,
    pub offering: Offering,
}

/// The value that an [`OfferingRecord`] stands for.
pub struct OfferingRecordView {
    pub id: Seq<char>,
    pub offering: OfferingView,
}

impl View for OfferingRecord {
    type V = OfferingRecordView;

    open spec fn view(&self) -> OfferingRecordView {
        OfferingRecordView { id: self.id@, offering: self.offering@ }
    }
}

/// The sale history of one asset, oldest line first.
#[derive(Clone, Debug, PartialEq, Eq)]
pub struct AssetHistory {
    pub token_id: String,
    pub sales: Vec<SaleInfo>,
}

/// The value that an [`AssetHistory`] stands for.
pub struct AssetHistoryView {
    pub token_id: Seq<char>,
    pub sales: Seq<SaleInfoView>,
}

impl View for AssetHistory {
    type V = AssetHistoryView;

    open spec fn view(&self) -> AssetHistoryView {
        AssetHistoryView { token_id: self.token_id@, sales: sales_view(self.sales@) }
    }
}

/// Everything the ledger keeps of one collection.
#[derive(Clone, Debug, PartialEq, Eq)]
pub struct Collection {
    pub info: CollectionInfo,
    pub members: Vec<UserInfo>,
    /// The trade volume; absent until the first sale.
    pub stats: Option<PriceInfo>,
    pub offerings: Vec<OfferingRecord>,
    pub history: Vec<AssetHistory>,
}

/// The value that a [`Collection`] stands for.
pub struct CollectionView {
    pub info: CollectionInfoView,
    pub members: Seq<UserInfoView>,
    pub stats: Option<PriceInfo>,
    pub offerings: Seq<OfferingRecordView>,
    pub history: Seq<AssetHistoryView>,
}

/// The values that a list of offering records stands for, in order.
pub open spec fn offerings_view(records: Seq<OfferingRecord>) -> Seq<OfferingRecordView> {
    records.map_values(|r: OfferingRecord| r@)
}

/// The values that a list of asset histories stands for, in order.
pub open spec fn histories_view(records: Seq<AssetHistory>) -> Seq<AssetHistoryView> {
    records.map_values(|r: AssetHistory| r@)
}

impl View for Collection {
    type V = CollectionView;

    open spec fn view(&self) -> CollectionView {
        CollectionView {
            info: self.info@,
            members: members_view(self.members@),
            stats: self.stats,
            offerings: offerings_view(self.offerings@),
            history: histories_view(self.history@),
        }
    }
}

impl CollectionView {
    /// The ids of the open offerings, in the order of the table.
    pub open spec fn offering_ids(self) -> Seq<Seq<char>> {
        self.offerings.map_values(|r: OfferingRecordView| r.id)
    }

    /// The assets that have a history, in the order of the table.
    pub open spec fn asset_ids(self) -> Seq<Seq<char>> {
        self.history.map_values(|h: AssetHistoryView| h.token_id)
    }

    /// Where the offering with that id stands in the table, if it is open.
    pub open spec fn offering_index(self, id: Seq<char>) -> Option<int> {
        self.offering_ids().index_of_first(id)
    }

    /// Where the history of that asset stands in the table, if it has one.
    pub open spec fn history_index(self, token_id: Seq<char>) -> Option<int> {
        self.asset_ids().index_of_first(token_id)
    }

    /// The royalty is a proper fraction, the members' portions add up to one, no id and
    /// no asset occurs twice, every history starts with a line of no amount, and every
    /// asset on offer has a history.
    pub open spec fn wf(self) -> bool {
        &&& self.info.royalty_portion.is_proper()
        &&& portions_complete(self.members)
        &&& self.offering_ids().no_duplicates()
        &&& self.asset_ids().no_duplicates()
        &&& forall|k: int|
            0 <= k < self.history.len() ==> (#[trigger] self.history[k]).sales.len() > 0
                && self.history[k].sales[0].amount == 0
        &&& forall|j: int|
            0 <= j < self.offerings.len() ==> self.asset_ids().contains(
                (#[trigger] self.offerings[j]).offering.token_id,
            )
    }
}

/// The whole state of the marketplace.
#[derive(Clone, Debug, PartialEq, Eq)]
pub struct Ledger {
    pub config: State,
    pub collections: Vec<Collection>,
}

/// The value that a [`Ledger`] stands for.
pub struct LedgerView {
    pub config: StateView,
    pub collections: Seq<CollectionView>,
}

/// The values that a list of collections stands for, in order.
pub open spec fn collections_view(records: Seq<Collection>) -> Seq<CollectionView> {
    records.map_values(|c: Collection| c@)
}

impl View for Ledger {
    type V = LedgerView;

    open spec fn view(&self) -> LedgerView {
        LedgerView { config: self.config@, collections: collections_view(self.collections@) }
    }
}

impl LedgerView {
    /// The addresses of the collections, in the order of the table.
    pub open spec fn addresses(self) -> Seq<Seq<char>> {
        self.collections.map_values(|c: CollectionView| c.info.nft_address)
    }

    /// Where the collection with that address stands in the table, if it was added.
    pub open spec fn collection_index(self, address: Seq<char>) -> Option<int> {
        self.addresses().index_of_first(address)
    }

    /// No collection occurs twice, and each is well formed.
    pub open spec fn wf(self) -> bool {
        &&& self.addresses().no_duplicates()
        &&& forall|i: int| 0 <= i < self.collections.len() ==> (#[trigger] self.collections[i]).wf()
    }
}

/// What a call on the ledger is to do: the ledger it leaves and the transfers it asks
/// for, or the reason for which it is refused.
pub type Outcome = Result<(LedgerView, Seq<InstructionView>), ContractError>;

/// A call did what it was to do: it went through, left the ledger and returned the
/// transfers as laid down, or it was refused for the reason laid down and left the ledger
/// as it was.
pub open spec fn agrees(
    expected: Outcome,
    pre: LedgerView,
    post: LedgerView,
    r: Result<Response, ContractError>,
) -> bool {
    match r {
        Ok(response) => expected == Outcome::Ok((post, response@)),
        Err(e) => expected == Outcome::Err(e) && post == pre,
    }
}

/// What a search from the front has found: the key stands at `i` and nowhere before it, or
/// it stands nowhere.
pub open spec fn found_at(keys: Seq<Seq<char>>, key: Seq<char>, r: Option<usize>) -> bool {
    match r {
        Some(i) => keys.index_of_first(key) == Some(i as int) && i < keys.len() && keys[i as int]
            == key,
        None => keys.index_of_first(key).is_none() && !keys.contains(key),
    }
}

/// A key that heads no earlier position and stands at `i` is first found at `i`.
pub proof fn lemma_first_at(keys: Seq<Seq<char>>, key: Seq<char>, i: int)
    requires
        0 <= i < keys.len(),
        keys[i] == key,
        forall|j: int| 0 <= j < i ==> keys[j] != key,
    ensures
        keys.index_of_first(key) == Some(i),
{
    keys.index_of_first_ensures(key);
    assert(keys.contains(key));
}

/// A key that stands nowhere is not found.
pub proof fn lemma_not_found(keys: Seq<Seq<char>>, key: Seq<char>)
    requires
        forall|j: int| 0 <= j < keys.len() ==> keys[j] != key,
    ensures
        keys.index_of_first(key).is_none(),
        !keys.contains(key),
{
    keys.index_of_first_ensures(key);
}

/// Where no key occurs twice, a key is found at the one place where it stands.
pub proof fn lemma_found_where_it_stands(keys: Seq<Seq<char>>, key: Seq<char>, i: int)
    requires
        keys.no_duplicates(),
        0 <= i < keys.len(),
        keys[i] == key,
    ensures
        keys.index_of_first(key) == Some(i),
{
    keys.index_of_first_ensures(key);
    assert(keys.contains(key));
}

/// Taking an offering off keeps a well-formed collection well formed.
pub proof fn lemma_removed_wf(c: CollectionView, j: int)
    requires
        c.wf(),
        0 <= j < c.offerings.len(),
    ensures
        (CollectionView { offerings: c.offerings.remove(j), ..c }).wf(),
{
    let after = CollectionView { offerings: c.offerings.remove(j), ..c };
    let ids = c.offering_ids();
    assert(after.offering_ids() =~= ids.remove(j));
    assert forall|a: int, b: int|
        0 <= a < after.offering_ids().len() && 0 <= b < after.offering_ids().len() && a
            != b implies after.offering_ids()[a] != after.offering_ids()[b] by {
        let a0 = if a < j { a } else { a + 1 };
        let b0 = if b < j { b } else { b + 1 };
        assert(after.offering_ids()[a] == ids[a0]);
        assert(after.offering_ids()[b] == ids[b0]);
    }
    assert forall|m: int| 0 <= m < after.offerings.len() implies after.asset_ids().contains(
        (#[trigger] after.offerings[m]).offering.token_id,
    ) by {
        let m0 = if m < j { m } else { m + 1 };
        assert(after.offerings[m] == c.offerings[m0]);
    }
}

/// Replacing one collection by a well-formed one of the same address keeps a well-formed
/// ledger well formed.
pub proof fn lemma_replaced_wf(pre: LedgerView, i: int, after: CollectionView)
    requires
        pre.wf(),
        0 <= i < pre.collections.len(),
        after.wf(),
        after.info.nft_address == pre.collections[i].info.nft_address,
    ensures
        (LedgerView { collections: pre.collections.update(i, after), ..pre }).wf(),
{
    let post = LedgerView { collections: pre.collections.update(i, after), ..pre };
    assert(post.addresses() =~= pre.addresses());
    assert forall|n: int| 0 <= n < post.collections.len() implies (#[trigger] post.collections[n]).wf() by {
        if n != i {
            assert(post.collections[n] == pre.collections[n]);
        }
    }
}

/// No key occurs twice in a list exactly where each key is first found at its own place.
pub proof fn lemma_distinct_by_search(keys: Seq<Seq<char>>)
    ensures
        keys.no_duplicates() <==> forall|a: int|
            0 <= a < keys.len() ==> keys.index_of_first(#[trigger] keys[a]) == Some(a),
{
    if keys.no_duplicates() {
        assert forall|a: int| 0 <= a < keys.len() implies keys.index_of_first(#[trigger] keys[a])
            == Some(a) by {
            lemma_found_where_it_stands(keys, keys[a], a);
        }
    }
    if forall|a: int| 0 <= a < keys.len() ==> keys.index_of_first(#[trigger] keys[a]) == Some(a) {
        assert forall|a: int, b: int|
            0 <= a < keys.len() && 0 <= b < keys.len() && a != b implies keys[a] != keys[b] by {
            if keys[a] == keys[b] {
                assert(keys.index_of_first(keys[a]) == Some(a));
                assert(keys.index_of_first(keys[b]) == Some(b));
            }
        }
    }
}

impl Collection {
    /// Whether the collection's records keep to the rules that the ledger relies on.
    pub fn is_well_formed(&self) -> (r: bool)
        ensures
            r == self@.wf(),
    {
        let ghost ids = self@.offering_ids();
        let ghost assets = self@.asset_ids();
        proof {
            lemma_distinct_by_search(ids);
            lemma_distinct_by_search(assets);
        }
        if !self.info.royalty_portion.proper() {
            return false;
        }
        if !portions_add_up(&self.members) {
            return false;
        }
        let mut j: usize = 0;
        while j < self.offerings.len()
            invariant
                j <= self.offerings@.len(),
                ids == self@.offering_ids(),
                assets == self@.asset_ids(),
                forall|a: int| 0 <= a < j ==> ids.index_of_first(#[trigger] ids[a]) == Some(a),
                forall|a: int|
                    0 <= a < j ==> assets.contains(
                        (#[trigger] self@.offerings[a]).offering.token_id,
                    ),
                ids.no_duplicates() <==> forall|a: int|
                    0 <= a < ids.len() ==> ids.index_of_first(#[trigger] ids[a]) == Some(a),
            decreases self.offerings@.len() - j,
        {
            let record = &self.offerings[j];
            assert(ids[j as int] == record.id@);
            assert(self@.offerings[j as int] == record@);
            match self.find_offering(&record.id) {
                Some(first) => {
                    if first != j {
                        return false;
                    }
                },
                None => {
                    return false;
                },
            }
            if self.find_history(&record.offering.token_id).is_none() {
                return false;
            }
            j = j + 1;
        }
        let mut k: usize = 0;
        while k < self.history.len()
            invariant
                k <= self.history@.len(),
                ids == self@.offering_ids(),
                assets == self@.asset_ids(),
                ids.no_duplicates(),
                forall|a: int|
                    0 <= a < self@.offerings.len() ==> assets.contains(
                        (#[trigger] self@.offerings[a]).offering.token_id,
                    ),
                forall|a: int| 0 <= a < k ==> assets.index_of_first(#[trigger] assets[a]) == Some(a),
                forall|a: int|
                    0 <= a < k ==> (#[trigger] self@.history[a]).sales.len() > 0
                        && self@.history[a].sales[0].amount == 0,
                assets.no_duplicates() <==> forall|a: int|
                    0 <= a < assets.len() ==> assets.index_of_first(#[trigger] assets[a]) == Some(a),
                self@.info.royalty_portion.is_proper(),
                portions_complete(self@.members),
            decreases self.history@.len() - k,
        {
            let record = &self.history[k];
            assert(assets[k as int] == record.token_id@);
            assert(self@.history[k as int] == record@);
            match self.find_history(&record.token_id) {
                Some(first) => {
                    if first != k {
                        return false;
                    }
                },
                None => {
                    return false;
                },
            }
            if record.sales.len() == 0 {
                return false;
            }
            assert(record@.sales[0] == record.sales@[0]@);
            if record.sales[0].amount != 0 {
                return false;
            }
            k = k + 1;
        }
        true
    }

    /// Looks for the open offering with that id.
    pub fn find_offering(&self, id: &String) -> (r: Option<usize>)
        ensures
            found_at(self@.offering_ids(), id@, r),
    {
        let ghost keys = self@.offering_ids();
        let mut j: usize = 0;
        while j < self.offerings.len()
            invariant
                j <= self.offerings@.len(),
                keys == self@.offering_ids(),
                forall|k: int| 0 <= k < j ==> keys[k] != id@,
            decreases self.offerings@.len() - j,
        {
            if self.offerings[j].id == *id {
                proof {
                    lemma_first_at(keys, id@, j as int);
                }
                return Some(j);
            }
            j = j + 1;
        }
        proof {
            lemma_not_found(keys, id@);
        }
        None
    }

    /// Looks for the history of that asset.
    pub fn find_history(&self, token_id: &String) -> (r: Option<usize>)
        ensures
            found_at(self@.asset_ids(), token_id@, r),
    {
        let ghost keys = self@.asset_ids();
        let mut k: usize = 0;
        while k < self.history.len()
            invariant
                k <= self.history@.len(),
                keys == self@.asset_ids(),
                forall|m: int| 0 <= m < k ==> keys[m] != token_id@,
            decreases self.history@.len() - k,
        {
            if self.history[k].token_id == *token_id {
                proof {
                    lemma_first_at(keys, token_id@, k as int);
                }
                return Some(k);
            }
            k = k + 1;
        }
        proof {
            lemma_not_found(keys, token_id@);
        }
        None
    }
}

impl Ledger {
    /// Whether the ledger's records keep to the rules that every call relies on. A ledger
    /// that was set up here and changed by calls only does.
    pub fn is_well_formed(&self) -> (r: bool)
        ensures
            r == self@.wf(),
    {
        let ghost keys = self@.addresses();
        proof {
            lemma_distinct_by_search(keys);
        }
        let mut i: usize = 0;
        while i < self.collections.len()
            invariant
                i <= self.collections@.len(),
                keys == self@.addresses(),
                forall|a: int| 0 <= a < i ==> keys.index_of_first(#[trigger] keys[a]) == Some(a),
                forall|a: int| 0 <= a < i ==> (#[trigger] self@.collections[a]).wf(),
                keys.no_duplicates() <==> forall|a: int|
                    0 <= a < keys.len() ==> keys.index_of_first(#[trigger] keys[a]) == Some(a),
            decreases self.collections@.len() - i,
        {
            let c = &self.collections[i];
            assert(keys[i as int] == c.info.nft_address@);
            assert(self@.collections[i as int] == c@);
            match self.find_collection(&c.info.nft_address) {
                Some(first) => {
                    if first != i {
                        return false;
                    }
                },
                None => {
                    return false;
                },
            }
            if !c.is_well_formed() {
                return false;
            }
            i = i + 1;
        }
        true
    }

    /// Looks for the collection with that address.
    pub fn find_collection(&self, address: &String) -> (r: Option<usize>)
        ensures
            found_at(self@.addresses(), address@, r),
    {
        let ghost keys = self@.addresses();
        let mut i: usize = 0;
        while i < self.collections.len()
            invariant
                i <= self.collections@.len(),
                keys == self@.addresses(),
                forall|k: int| 0 <= k < i ==> keys[k] != address@,
            decreases self.collections@.len() - i,
        {
            if self.collections[i].info.nft_address == *address {
                proof {
                    lemma_first_at(keys, address@, i as int);
                }
                return Some(i);
            }
            i = i + 1;
        }
        proof {
            lemma_not_found(keys, address@);
        }
        None
    }
}

} // verus!
