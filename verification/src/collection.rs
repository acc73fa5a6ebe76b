//! Collections and their royalty configuration: the owner adds a collection with its
//! royalty fraction and its members, and replaces both later.
use crate::error::ContractError;
use crate::fraction::Fraction;
use crate::ledger::{
    agrees, lemma_replaced_wf, Collection, CollectionView, Ledger, LedgerView, Outcome,
};
use crate::msg::{AddressCheck, AddressCheckView, Env, MessageInfo, Response};
use crate::royalty::{portions_add_up, portions_complete};
use crate::state::{members_view, CollectionInfo, CollectionInfoView, UserInfo, UserInfoView};
use vstd::prelude::*;

verus! {

/// The host accepted the address of member `i`. A member without a verdict has not
/// passed.
pub open spec fn member_passes(verdicts: Seq<bool>, i: int) -> bool {
    0 <= i < verdicts.len() && verdicts[i]
}

/// The host accepted the address of each of the first `n` members.
pub open spec fn members_pass(verdicts: Seq<bool>, n: nat) -> bool {
    forall|i: int| 0 <= i < n ==> #[trigger] member_passes(verdicts, i)
}

/// A collection as it is added: counting from zero, with nothing traded, nothing on
/// offer and no history.
pub open spec fn fresh_collection(
    nft_address: Seq<char>,
    royalty: Fraction,
    members: Seq<UserInfoView>,
) -> CollectionView {
    CollectionView {
        info: CollectionInfoView { nft_address, offering_id: 0, royalty_portion: royalty },
        members,
        stats: None,
        offerings: Seq::empty(),
        history: Seq::empty(),
    }
}

/// A collection with its royalty and members replaced and its counter set to `counter`.
pub open spec fn reconfigured(
    c: CollectionView,
    counter: u64,
    royalty: Fraction,
    members: Seq<UserInfoView>,
) -> CollectionView {
    CollectionView {
        info: CollectionInfoView { offering_id: counter, royalty_portion: royalty, ..c.info },
        members,
        ..c
    }
}

/// What adding a collection does. The caller must be the owner, every member's address
/// must have passed the host's check, and the portions must add up to exactly one. The
/// collection then counts its offerings from zero again, also where it was there before;
/// what it had on offer, its history and its trade volume stay.
pub open spec fn spec_add_collection(
    pre: LedgerView,
    sender: Seq<char>,
    royalty: Fraction,
    members: Seq<UserInfoView>,
    nft_address: Seq<char>,
    check: AddressCheckView,
) -> Outcome {
    if sender != pre.config.owner {
        Err(ContractError::Unauthorized)
    } else if !members_pass(check.members, members.len()) {
        Err(ContractError::InvalidAddress)
    } else if !portions_complete(members) {
        Err(ContractError::WrongPortionSum)
    } else {
        Ok(
            (
                LedgerView {
                    collections: match pre.collection_index(nft_address) {
                        Some(i) => pre.collections.update(
                            i,
                            reconfigured(pre.collections[i], 0, royalty, members),
                        ),
                        None => pre.collections.push(
                            fresh_collection(nft_address, royalty, members),
                        ),
                    },
                    ..pre
                },
                Seq::empty(),
            ),
        )
    }
}

/// What updating a collection does. The caller must be the owner, the collection must
/// have been added, every member's address must have passed the host's check, and the
/// portions must add up to exactly one. The collection goes on counting where it was.
pub open spec fn spec_update_collection(
    pre: LedgerView,
    sender: Seq<char>,
    royalty: Fraction,
    members: Seq<UserInfoView>,
    nft_address: Seq<char>,
    check: AddressCheckView,
) -> Outcome {
    if sender != pre.config.owner {
        Err(ContractError::Unauthorized)
    } else {
        match pre.collection_index(nft_address) {
            None => Err(ContractError::UnknownCollection),
            Some(i) => if !members_pass(check.members, members.len()) {
                Err(ContractError::InvalidAddress)
            } else if !portions_complete(members) {
                Err(ContractError::WrongPortionSum)
            } else {
                Ok(
                    (
                        LedgerView {
                            collections: pre.collections.update(
                                i,
                                reconfigured(
                                    pre.collections[i],
                                    pre.collections[i].info.offering_id,
                                    royalty,
                                    members,
                                ),
                            ),
                            ..pre
                        },
                        Seq::empty(),
                    ),
                )
            },
        }
    }
}

/// Whether the host accepted the address of each of the first `n` members.
pub fn all_pass(verdicts: &Vec<bool>, n: usize) -> (r: bool)
    ensures
        r == members_pass(verdicts@, n as nat),
{
    if verdicts.len() < n {
        assert(!member_passes(verdicts@, verdicts@.len() as int));
        return false;
    }
    let mut i: usize = 0;
    while i < n
        invariant
            i <= n <= verdicts@.len(),
            forall|k: int| 0 <= k < i ==> #[trigger] member_passes(verdicts@, k),
        decreases n - i,
    {
        if !verdicts[i] {
            assert(!member_passes(verdicts@, i as int));
            return false;
        }
        i = i + 1;
    }
    true
}

/// A well-formed ledger stays well formed as a collection that it does not hold yet is
/// added at its end.
pub proof fn lemma_added_wf(pre: LedgerView, added: CollectionView)
    requires
        pre.wf(),
        added.wf(),
        pre.collection_index(added.info.nft_address).is_none(),
    ensures
        (LedgerView { collections: pre.collections.push(added), ..pre }).wf(),
{
    let post = LedgerView { collections: pre.collections.push(added), ..pre };
    pre.addresses().index_of_first_ensures(added.info.nft_address);
    assert(post.addresses() =~= pre.addresses().push(added.info.nft_address));
    assert forall|a: int, b: int|
        0 <= a < post.addresses().len() && 0 <= b < post.addresses().len() && a
            != b implies post.addresses()[a] != post.addresses()[b] by {
        if a < pre.addresses().len() {
            assert(pre.addresses().contains(post.addresses()[a]));
        }
        if b < pre.addresses().len() {
            assert(pre.addresses().contains(post.addresses()[b]));
        }
    }
    assert forall|n: int| 0 <= n < post.collections.len() implies (#[trigger] post.collections[n]).wf() by {
        if n < pre.collections.len() {
            assert(post.collections[n] == pre.collections[n]);
        }
    }
}

/// Adds a collection or resets one: see [`spec_add_collection`].
pub fn execute_add_collection(
    ledger: &mut Ledger,
    env: Env,
    info: MessageInfo,
    royalty_portion: Fraction,
    members: Vec<UserInfo>,
    nft_address: String,
    check: &AddressCheck,
) -> (r: Result<Response, ContractError>)
    requires
        old(ledger)@.wf(),
        spec_add_collection(
            old(ledger)@,
            info@.sender,
            royalty_portion,
            members_view(members@),
            nft_address@,
            check@,
        ) is Ok ==> royalty_portion.is_proper(),
    ensures
        agrees(
            spec_add_collection(
                old(ledger)@,
                info@.sender,
                royalty_portion,
                members_view(members@),
                nft_address@,
                check@,
            ),
            old(ledger)@,
            final(ledger)@,
            r,
        ),
        final(ledger)@.wf(),
{
    let ghost pre = ledger@;
    if info.sender != ledger.config.owner {
        return Err(ContractError::Unauthorized);
    }
    if !all_pass(&check.members, members.len()) {
        return Err(ContractError::InvalidAddress);
    }
    if !portions_add_up(&members) {
        return Err(ContractError::WrongPortionSum);
    }
    match ledger.find_collection(&nft_address) {
        Some(i) => {
            let ghost before = pre.collections[i as int];
            let ghost expected = reconfigured(before, 0, royalty_portion, members_view(members@));
            proof {
                assert(before == ledger.collections@[i as int]@);
                assert(before.wf());
                assert(expected.offering_ids() == before.offering_ids());
                assert(expected.asset_ids() == before.asset_ids());
                assert(expected.wf());
                lemma_replaced_wf(pre, i as int, expected);
            }
            let c = &mut ledger.collections[i];
            c.info.offering_id = 0;
            c.info.royalty_portion = royalty_portion;
            c.members = members;
            proof {
                assert(c@ == expected);
                assert(ledger@.collections =~= pre.collections.update(i as int, expected));
            }
        },
        None => {
            let ghost expected = fresh_collection(
                nft_address@,
                royalty_portion,
                members_view(members@),
            );
            let added = Collection {
                info: CollectionInfo { nft_address, offering_id: 0, royalty_portion },
                members,
                stats: None,
                offerings: Vec::new(),
                history: Vec::new(),
            };
            proof {
                assert(added@.offerings =~= expected.offerings);
                assert(added@.history =~= expected.history);
                assert(added@ == expected);
                assert(expected.offering_ids() =~= Seq::<Seq<char>>::empty());
                assert(expected.asset_ids() =~= Seq::<Seq<char>>::empty());
                assert(expected.wf());
                lemma_added_wf(pre, expected);
            }
            ledger.collections.push(added);
            proof {
                assert(ledger@.collections =~= pre.collections.push(expected));
            }
        },
    }
    Ok(Response::new())
}

/// Replaces a collection's royalty and members: see [`spec_update_collection`].
pub fn execute_update_collection(
    ledger: &mut Ledger,
    env: Env,
    info: MessageInfo,
    royalty_portion: Fraction,
    members: Vec<UserInfo>,
    nft_address: String,
    check: &AddressCheck,
) -> (r: Result<Response, ContractError>)
    requires
        old(ledger)@.wf(),
        spec_update_collection(
            old(ledger)@,
            info@.sender,
            royalty_portion,
            members_view(members@),
            nft_address@,
            check@,
        ) is Ok ==> royalty_portion.is_proper(),
    ensures
        agrees(
            spec_update_collection(
                old(ledger)@,
                info@.sender,
                royalty_portion,
                members_view(members@),
                nft_address@,
                check@,
            ),
            old(ledger)@,
            final(ledger)@,
            r,
        ),
        final(ledger)@.wf(),
{
    let ghost pre = ledger@;
    if info.sender != ledger.config.owner {
        return Err(ContractError::Unauthorized);
    }
    let i = match ledger.find_collection(&nft_address) {
        Some(i) => i,
        None => {
            return Err(ContractError::UnknownCollection);
        },
    };
    if !all_pass(&check.members, members.len()) {
        return Err(ContractError::InvalidAddress);
    }
    if !portions_add_up(&members) {
        return Err(ContractError::WrongPortionSum);
    }
    let ghost before = pre.collections[i as int];
    let ghost expected = reconfigured(
        before,
        before.info.offering_id,
        royalty_portion,
        members_view(members@),
    );
    proof {
        assert(before == ledger.collections@[i as int]@);
        assert(before.wf());
        assert(expected.offering_ids() == before.offering_ids());
        assert(expected.asset_ids() == before.asset_ids());
        assert(expected.wf());
        lemma_replaced_wf(pre, i as int, expected);
    }
    let c = &mut ledger.collections[i];
    c.info.royalty_portion = royalty_portion;
    c.members = members;
    proof {
        assert(c@ == expected);
        assert(ledger@.collections =~= pre.collections.update(i as int, expected));
    }
    Ok(Response::new())
}

/// Whether [`execute_add_collection`] can take the message: it is refused, or the royalty
/// is a proper fraction.
pub fn add_admissible(
    ledger: &Ledger,
    info: &MessageInfo,
    royalty_portion: Fraction,
    members: &Vec<UserInfo>,
    nft_address: &String,
    check: &AddressCheck,
) -> (r: bool)
    ensures
        r == (spec_add_collection(
            ledger@,
            info@.sender,
            royalty_portion,
            members_view(members@),
            nft_address@,
            check@,
        ) is Ok ==> royalty_portion.is_proper()),
{
    if info.sender != ledger.config.owner {
        return true;
    }
    if !all_pass(&check.members, members.len()) {
        return true;
    }
    if !portions_add_up(members) {
        return true;
    }
    royalty_portion.proper()
}

/// Whether [`execute_update_collection`] can take the message: it is refused, or the
/// royalty is a proper fraction.
pub fn update_admissible(
    ledger: &Ledger,
    info: &MessageInfo,
    royalty_portion: Fraction,
    members: &Vec<UserInfo>,
    nft_address: &String,
    check: &AddressCheck,
) -> (r: bool)
    ensures
        r == (spec_update_collection(
            ledger@,
            info@.sender,
            royalty_portion,
            members_view(members@),
            nft_address@,
            check@,
        ) is Ok ==> royalty_portion.is_proper()),
{
    if info.sender != ledger.config.owner {
        return true;
    }
    if ledger.find_collection(nft_address).is_none() {
        return true;
    }
    if !all_pass(&check.members, members.len()) {
        return true;
    }
    if !portions_add_up(members) {
        return true;
    }
    royalty_portion.proper()
}

} // verus!
