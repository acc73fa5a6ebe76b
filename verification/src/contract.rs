//! The entry points: a ledger is set up once, and every later call is one message that
//! is handed to the one component it belongs to.
use crate::admin::{
    execute_change_owner, execute_fix_nft, execute_token_address, spec_change_owner, spec_fix_nft,
    spec_token_address,
};
use crate::collection::{
    add_admissible, execute_add_collection, execute_update_collection, spec_add_collection,
    spec_update_collection, update_admissible,
};
use crate::error::ContractError;
use crate::ledger::{agrees, CollectionView, Ledger, LedgerView, Outcome};
use crate::msg::{
    AddressCheck, AddressCheckView, Env, ExecuteMsg, ExecuteMsgView, InstantiateMsg,
    InstructionView, MessageInfo, MessageInfoView, Response,
};
use crate::registry::{
    counter_has_room, execute_receive_nft, execute_withdraw, listing_admissible, spec_receive_nft,
    spec_withdraw,
};
use crate::settlement::{
    buy_admissible, execute_buy_nft, execute_receive, native_gross, receive_admissible,
    spec_buy_nft, spec_receive, volume_has_room, Rail,
};
use crate::state::{State, StateView};
use vstd::prelude::*;

verus! {

/// The ledger as it is set up: configured, and without any collection.
pub open spec fn initial(owner: Seq<char>, token_address: Seq<char>) -> LedgerView {
    LedgerView { config: StateView { owner, token_address }, collections: Seq::empty() }
}

/// Sets up a ledger with its owner and its token contract. No transfer is asked for.
pub fn instantiate(env: Env, info: MessageInfo, msg: InstantiateMsg) -> (r: (Ledger, Response))
    ensures
        r.0@ == initial(msg.owner@, msg.token_address@),
        r.0@.wf(),
        r.1@ == Seq::<InstructionView>::empty(),
{
    let ledger = Ledger {
        config: State { owner: msg.owner, token_address: msg.token_address },
        collections: Vec::new(),
    };
    proof {
        assert(ledger@.collections =~= Seq::<CollectionView>::empty());
        assert(ledger@.addresses() =~= Seq::<Seq<char>>::empty());
    }
    (ledger, Response::new())
}

/// What each message does to the ledger.
pub open spec fn spec_execute(
    pre: LedgerView,
    env: Env,
    info: MessageInfoView,
    msg: ExecuteMsgView,
    check: AddressCheckView,
) -> Outcome {
    match msg {
        ExecuteMsgView::ReceiveNft { sender, token_id, list_price } => spec_receive_nft(
            pre,
            info.sender,
            sender,
            token_id,
            list_price,
            env.time,
        ),
        ExecuteMsgView::Receive { sender, amount, offering_id, nft_address } => spec_receive(
            pre,
            info.sender,
            sender,
            amount,
            offering_id,
            nft_address,
            env.time,
        ),
        ExecuteMsgView::BuyNft { offering_id, nft_address } => spec_buy_nft(
            pre,
            info,
            offering_id,
            nft_address,
            env.time,
        ),
        ExecuteMsgView::WithdrawNft { offering_id, nft_address } => spec_withdraw(
            pre,
            info.sender,
            offering_id,
            nft_address,
        ),
        ExecuteMsgView::ChangeOwner { address } => spec_change_owner(
            pre,
            info.sender,
            address,
            check,
        ),
        ExecuteMsgView::SetTokenAddress { address } => spec_token_address(
            pre,
            info.sender,
            address,
            check,
        ),
        ExecuteMsgView::AddCollection {
            royalty_portion,
            members,
            nft_address,
        } => spec_add_collection(pre, info.sender, royalty_portion, members, nft_address, check),
        ExecuteMsgView::UpdateCollection {
            royalty_portion,
            members,
            nft_address,
        } => spec_update_collection(
            pre,
            info.sender,
            royalty_portion,
            members,
            nft_address,
            check,
        ),
        ExecuteMsgView::FixNft { address, token_id } => spec_fix_nft(
            pre,
            info.sender,
            address,
            token_id,
            check,
        ),
    }
}

/// The ledger can take the message: a royalty that it is to store is a proper fraction,
/// a counter that it is to advance can count one more, and a trade volume that it is to
/// raise stays within its 128 bits. A message that is refused anyway can always be taken.
pub open spec fn admissible(
    pre: LedgerView,
    env: Env,
    info: MessageInfoView,
    msg: ExecuteMsgView,
    check: AddressCheckView,
) -> bool {
    match msg {
        ExecuteMsgView::ReceiveNft { .. } => counter_has_room(pre, info.sender),
        ExecuteMsgView::Receive { sender, amount, offering_id, nft_address } => spec_receive(
            pre,
            info.sender,
            sender,
            amount,
            offering_id,
            nft_address,
            env.time,
        ) is Ok ==> volume_has_room(pre, nft_address, Rail::Token, amount),
        ExecuteMsgView::BuyNft { offering_id, nft_address } => spec_buy_nft(
            pre,
            info,
            offering_id,
            nft_address,
            env.time,
        ) is Ok ==> volume_has_room(
            pre,
            nft_address,
            Rail::Native,
            native_gross(pre, info, offering_id, nft_address),
        ),
        ExecuteMsgView::AddCollection {
            royalty_portion,
            members,
            nft_address,
        } => spec_add_collection(pre, info.sender, royalty_portion, members, nft_address, check)
            is Ok ==> royalty_portion.is_proper(),
        ExecuteMsgView::UpdateCollection {
            royalty_portion,
            members,
            nft_address,
        } => spec_update_collection(
            pre,
            info.sender,
            royalty_portion,
            members,
            nft_address,
            check,
        ) is Ok ==> royalty_portion.is_proper(),
        _ => true,
    }
}

/// Carries out one message: see [`spec_execute`]. A message that is refused leaves the
/// ledger as it was.
pub fn execute(
    ledger: &mut Ledger,
    env: Env,
    info: MessageInfo,
    msg: ExecuteMsg,
    check: &AddressCheck,
) -> (r: Result<Response, ContractError>)
    requires
        old(ledger)@.wf(),
        admissible(old(ledger)@, env, info@, msg@, check@),
    ensures
        agrees(spec_execute(old(ledger)@, env, info@, msg@, check@), old(ledger)@, final(ledger)@, r),
        final(ledger)@.wf(),
{
    match msg {
        ExecuteMsg::ReceiveNft(receipt) => execute_receive_nft(ledger, env, info, receipt),
        ExecuteMsg::Receive(receipt) => execute_receive(ledger, env, info, receipt),
        ExecuteMsg::BuyNft { offering_id, nft_address } => execute_buy_nft(
            ledger,
            env,
            info,
            offering_id,
            nft_address,
        ),
        ExecuteMsg::WithdrawNft { offering_id, nft_address } => execute_withdraw(
            ledger,
            env,
            info,
            offering_id,
            nft_address,
        ),
        ExecuteMsg::SetTokenAddress { address } => execute_token_address(
            ledger,
            env,
            info,
            address,
            check,
        ),
        ExecuteMsg::ChangeOwner { address } => execute_change_owner(
            ledger,
            env,
            info,
            address,
            check,
        ),
        ExecuteMsg::AddCollection {
            royalty_portion,
            members,
            nft_address,
        } => execute_add_collection(
            ledger,
            env,
            info,
            royalty_portion,
            members,
            nft_address,
            check,
        ),
        ExecuteMsg::UpdateCollection {
            royalty_portion,
            members,
            nft_address,
        } => execute_update_collection(
            ledger,
            env,
            info,
            royalty_portion,
            members,
            nft_address,
            check,
        ),
        ExecuteMsg::FixNft { address, token_id } => execute_fix_nft(
            ledger,
            env,
            info,
            address,
            token_id,
            check,
        ),
    }
}

/// Whether the ledger can take the message: see [`admissible`].
pub fn admits(
    ledger: &Ledger,
    env: Env,
    info: &MessageInfo,
    msg: &ExecuteMsg,
    check: &AddressCheck,
) -> (r: bool)
    ensures
        r == admissible(ledger@, env, info@, msg@, check@),
{
    match msg {
        ExecuteMsg::ReceiveNft(_) => listing_admissible(ledger, info),
        ExecuteMsg::Receive(receipt) => receive_admissible(ledger, env, info, receipt),
        ExecuteMsg::BuyNft { offering_id, nft_address } => buy_admissible(
            ledger,
            env,
            info,
            offering_id,
            nft_address,
        ),
        ExecuteMsg::AddCollection { royalty_portion, members, nft_address } => add_admissible(
            ledger,
            info,
            *royalty_portion,
            members,
            nft_address,
            check,
        ),
        ExecuteMsg::UpdateCollection {
            royalty_portion,
            members,
            nft_address,
        } => update_admissible(ledger, info, *royalty_portion, members, nft_address, check),
        _ => true,
    }
}

/// Carries out one message on any ledger. Where the ledger is not well formed or cannot
/// take the message, nothing is done and `None` is returned; else the message is carried
/// out as [`execute`] does.
pub fn try_execute(
    ledger: &mut Ledger,
    env: Env,
    info: MessageInfo,
    msg: ExecuteMsg,
    check: &AddressCheck,
) -> (r: Option<Result<Response, ContractError>>)
    ensures
        match r {
            Some(outcome) => {
                &&& old(ledger)@.wf()
                &&& admissible(old(ledger)@, env, info@, msg@, check@)
                &&& agrees(
                    spec_execute(old(ledger)@, env, info@, msg@, check@),
                    old(ledger)@,
                    final(ledger)@,
                    outcome,
                )
                &&& final(ledger)@.wf()
            },
            None => {
                &&& !(old(ledger)@.wf() && admissible(old(ledger)@, env, info@, msg@, check@))
                &&& final(ledger)@ == old(ledger)@
            },
        },
{
    if !ledger.is_well_formed() {
        return None;
    }
    if !admits(ledger, env, &info, &msg, check) {
        return None;
    }
    Some(execute(ledger, env, info, msg, check))
}

} // verus!
