use cosmwasm_std::Decimal;
use marketplace::contract::{admits, execute, instantiate, try_execute};
use marketplace::error::ContractError;
use marketplace::fraction::{Fraction, UNIT};
use marketplace::ledger::Ledger;
use marketplace::msg::{
    AddressCheck, BuyNft, Coin, Env, ExecuteMsg, InstantiateMsg, Instruction, MessageInfo,
    NftReceipt, QueryMsg, QueryOfferingsResult, QueryResponse, Response, SellNft, TokenReceipt,
};
use marketplace::query::{
    query, query_collection_info, query_get_history, query_get_ids, query_get_members,
    query_get_offering, query_get_trading, query_state_info,
};
use marketplace::state::{Asset, CollectionInfo, PriceInfo, SaleInfo, State, UserInfo};

const NOW: u64 = 1_700_000_000;
const COLLECTION: &str = "collection";

fn env() -> Env {
    Env { time: NOW }
}

fn caller(sender: &str) -> MessageInfo {
    MessageInfo { sender: sender.to_string(), funds: vec![] }
}

fn payer(sender: &str, denom: &str, amount: u128) -> MessageInfo {
    MessageInfo { sender: sender.to_string(), funds: vec![Coin { denom: denom.to_string(), amount }] }
}

fn ratio(numerator: u128, denominator: u128) -> Fraction {
    Fraction::raw(Decimal::from_ratio(numerator, denominator).atomics().u128())
}

fn passed() -> AddressCheck {
    AddressCheck { address: true, members: vec![true, true] }
}

fn members() -> Vec<UserInfo> {
    vec![
        UserInfo { address: "A".to_string(), portion: ratio(30, 100) },
        UserInfo { address: "B".to_string(), portion: ratio(70, 100) },
    ]
}

fn add(royalty: Fraction, members: Vec<UserInfo>, address: &str) -> ExecuteMsg {
    ExecuteMsg::AddCollection {
        royalty_portion: royalty,
        members,
        nft_address: address.to_string(),
    }
}

fn update(royalty: Fraction, members: Vec<UserInfo>, address: &str) -> ExecuteMsg {
    ExecuteMsg::UpdateCollection {
        royalty_portion: royalty,
        members,
        nft_address: address.to_string(),
    }
}

fn deposit(seller: &str, token_id: &str, denom: &str, amount: u128) -> ExecuteMsg {
    ExecuteMsg::ReceiveNft(NftReceipt {
        sender: seller.to_string(),
        token_id: token_id.to_string(),
        msg: SellNft { list_price: Asset { denom: denom.to_string(), amount } },
    })
}

fn buy(id: &str) -> ExecuteMsg {
    ExecuteMsg::BuyNft { offering_id: id.to_string(), nft_address: COLLECTION.to_string() }
}

fn token_payment(buyer: &str, amount: u128, id: &str) -> ExecuteMsg {
    ExecuteMsg::Receive(TokenReceipt {
        sender: buyer.to_string(),
        amount,
        msg: BuyNft { offering_id: id.to_string(), nft_address: COLLECTION.to_string() },
    })
}

fn withdraw(id: &str) -> ExecuteMsg {
    ExecuteMsg::WithdrawNft { offering_id: id.to_string(), nft_address: COLLECTION.to_string() }
}

fn call(ledger: &mut Ledger, info: MessageInfo, msg: ExecuteMsg) -> Result<Response, ContractError> {
    assert!(ledger.is_well_formed());
    assert!(admits(ledger, env(), &info, &msg, &passed()));
    let result = execute(ledger, env(), info, msg, &passed());
    assert!(ledger.is_well_formed());
    result
}

fn refused(ledger: &mut Ledger, info: MessageInfo, msg: ExecuteMsg) -> ContractError {
    let before = ledger.clone();
    let error = call(ledger, info, msg).unwrap_err();
    assert_eq!(*ledger, before);
    error
}

fn new_ledger() -> Ledger {
    let msg = InstantiateMsg { owner: "owner".to_string(), token_address: "token".to_string() };
    instantiate(env(), caller("anyone"), msg).0
}

/// A ledger with one collection of 5% royalty, divided 30% to A and 70% to B.
fn market() -> Ledger {
    let mut ledger = new_ledger();
    call(&mut ledger, caller("owner"), add(ratio(5, 100), members(), COLLECTION)).unwrap();
    ledger
}

fn ids(ledger: &Ledger) -> Vec<String> {
    query_get_ids(ledger, COLLECTION.to_string()).unwrap()
}

fn history(ledger: &Ledger, token_id: &str) -> Vec<SaleInfo> {
    query_get_history(ledger, COLLECTION.to_string(), token_id.to_string()).unwrap()
}

fn trading(ledger: &Ledger) -> PriceInfo {
    query_get_trading(ledger, COLLECTION.to_string()).unwrap()
}

fn send(to: &str, denom: &str, amount: u128) -> Instruction {
    Instruction::SendCoin { to_address: to.to_string(), denom: denom.to_string(), amount }
}

fn transfer_token(to: &str, amount: u128) -> Instruction {
    Instruction::TransferToken {
        contract_addr: "token".to_string(),
        recipient: to.to_string(),
        amount,
    }
}

fn transfer_nft(to: &str, token_id: &str) -> Instruction {
    Instruction::TransferNft {
        contract_addr: COLLECTION.to_string(),
        recipient: to.to_string(),
        token_id: token_id.to_string(),
    }
}

#[test]
fn instantiate_sets_up_an_empty_ledger() {
    let msg = InstantiateMsg { owner: "owner".to_string(), token_address: "token".to_string() };
    let (ledger, response) = instantiate(env(), caller("anyone"), msg);
    assert_eq!(response.messages, vec![]);
    assert_eq!(
        ledger,
        Ledger {
            config: State { owner: "owner".to_string(), token_address: "token".to_string() },
            collections: vec![]
        }
    );
    assert!(ledger.is_well_formed());
}

#[test]
fn native_sale_splits_the_proceeds() {
    let mut ledger = market();
    call(&mut ledger, caller(COLLECTION), deposit("seller", "asset", "ujuno", 1_000_000)).unwrap();
    let response = call(&mut ledger, payer("buyer", "ujuno", 1_000_000), buy("1")).unwrap();
    assert_eq!(
        response.messages,
        vec![
            transfer_nft("buyer", "asset"),
            send("seller", "ujuno", 950_000),
            send("A", "ujuno", 15_000),
            send("B", "ujuno", 35_000),
        ]
    );
    assert_eq!(ids(&ledger), Vec::<String>::new());
    assert_eq!(trading(&ledger), PriceInfo { total_juno: 1_000_000, total_hope: 0 });
}

#[test]
fn token_sale_splits_the_proceeds() {
    let mut ledger = market();
    call(&mut ledger, caller(COLLECTION), deposit("seller", "asset", "hope", 2_000_000)).unwrap();
    let response = call(&mut ledger, caller("token"), token_payment("buyer", 2_000_000, "1")).unwrap();
    assert_eq!(
        response.messages,
        vec![
            transfer_nft("buyer", "asset"),
            transfer_token("seller", 1_900_000),
            transfer_token("A", 30_000),
            transfer_token("B", 70_000),
        ]
    );
    assert_eq!(ids(&ledger), Vec::<String>::new());
    assert_eq!(trading(&ledger), PriceInfo { total_juno: 0, total_hope: 2_000_000 });
    assert_eq!(
        history(&ledger, "asset"),
        vec![
            SaleInfo {
                address: "seller".to_string(),
                denom: "Hope".to_string(),
                amount: 0,
                time: NOW
            },
            SaleInfo {
                address: "buyer".to_string(),
                denom: "Hope".to_string(),
                amount: 2,
                time: NOW
            },
        ]
    );
}

#[test]
fn update_of_an_unknown_collection_is_refused() {
    let mut ledger = new_ledger();
    let error = refused(&mut ledger, caller("owner"), update(ratio(5, 100), members(), COLLECTION));
    assert_eq!(error, ContractError::UnknownCollection);
    assert_eq!(
        query_collection_info(&ledger, COLLECTION.to_string()),
        Err(ContractError::NotFound)
    );
    assert_eq!(query_get_members(&ledger, COLLECTION.to_string()), Err(ContractError::NotFound));
    assert_eq!(ledger.collections.len(), 0);
}

#[test]
fn accepted_members_add_up_to_one() {
    let mut ledger = market();
    let stored = query_get_members(&ledger, COLLECTION.to_string()).unwrap();
    assert_eq!(stored, members());
    assert_eq!(stored.iter().map(|m| m.portion.atomics).sum::<u128>(), UNIT);

    let short = vec![
        UserInfo { address: "A".to_string(), portion: ratio(30, 100) },
        UserInfo { address: "B".to_string(), portion: ratio(69, 100) },
    ];
    assert_eq!(
        refused(&mut ledger, caller("owner"), add(ratio(5, 100), short.clone(), COLLECTION)),
        ContractError::WrongPortionSum
    );
    assert_eq!(
        refused(&mut ledger, caller("owner"), update(ratio(5, 100), short.clone(), COLLECTION)),
        ContractError::WrongPortionSum
    );
    assert_eq!(
        refused(&mut ledger, caller("owner"), add(ratio(5, 100), short, "other")),
        ContractError::WrongPortionSum
    );
    let long = vec![
        UserInfo { address: "A".to_string(), portion: Fraction::raw(UNIT) },
        UserInfo { address: "B".to_string(), portion: Fraction::raw(1) },
    ];
    assert_eq!(
        refused(&mut ledger, caller("owner"), add(ratio(5, 100), long, COLLECTION)),
        ContractError::WrongPortionSum
    );
    assert_eq!(
        refused(&mut ledger, caller("owner"), add(ratio(5, 100), vec![], COLLECTION)),
        ContractError::WrongPortionSum
    );
    assert_eq!(query_get_members(&ledger, COLLECTION.to_string()).unwrap(), members());
}

#[test]
fn only_the_owner_configures_collections() {
    let mut ledger = market();
    assert_eq!(
        refused(&mut ledger, caller("stranger"), add(ratio(5, 100), members(), "other")),
        ContractError::Unauthorized
    );
    assert_eq!(
        refused(&mut ledger, caller("stranger"), update(ratio(1, 100), members(), COLLECTION)),
        ContractError::Unauthorized
    );
    // The caller is judged before the list is.
    assert_eq!(
        refused(&mut ledger, caller("stranger"), add(ratio(5, 100), vec![], "other")),
        ContractError::Unauthorized
    );
}

#[test]
fn rejected_member_addresses_refuse_the_list() {
    let mut ledger = market();
    let msg = add(ratio(5, 100), members(), "other");
    let second_rejected = AddressCheck { address: true, members: vec![true, false] };
    let before = ledger.clone();
    assert_eq!(
        execute(&mut ledger, env(), caller("owner"), msg.clone(), &second_rejected),
        Err(ContractError::InvalidAddress)
    );
    let verdict_missing = AddressCheck { address: true, members: vec![true] };
    assert_eq!(
        execute(&mut ledger, env(), caller("owner"), msg, &verdict_missing),
        Err(ContractError::InvalidAddress)
    );
    let msg = update(ratio(5, 100), members(), COLLECTION);
    assert_eq!(
        execute(&mut ledger, env(), caller("owner"), msg, &second_rejected),
        Err(ContractError::InvalidAddress)
    );
    // A rejected address comes before a wrong sum is.
    let short = vec![
        UserInfo { address: "A".to_string(), portion: ratio(30, 100) },
        UserInfo { address: "B".to_string(), portion: ratio(69, 100) },
    ];
    let msg = add(ratio(5, 100), short, "other");
    assert_eq!(
        execute(&mut ledger, env(), caller("owner"), msg, &second_rejected),
        Err(ContractError::InvalidAddress)
    );
    // An unknown collection comes before a rejected address is.
    let msg = update(ratio(5, 100), members(), "other");
    assert_eq!(
        execute(&mut ledger, env(), caller("owner"), msg, &second_rejected),
        Err(ContractError::UnknownCollection)
    );
    assert_eq!(ledger, before);
    // Verdicts beyond the list do no harm, and the message's own verdict is not asked for.
    let msg = add(ratio(5, 100), members(), "other");
    let more = AddressCheck { address: false, members: vec![true, true, false] };
    assert_eq!(execute(&mut ledger, env(), caller("owner"), msg, &more), Ok(Response::new()));
}

#[test]
fn add_resets_the_counter_and_update_keeps_it() {
    let mut ledger = market();
    call(&mut ledger, caller(COLLECTION), deposit("seller", "one", "ujuno", 10)).unwrap();
    call(&mut ledger, caller(COLLECTION), deposit("seller", "two", "ujuno", 20)).unwrap();
    let new_members = vec![UserInfo { address: "C".to_string(), portion: Fraction::one() }];

    call(&mut ledger, caller("owner"), update(ratio(10, 100), new_members.clone(), COLLECTION))
        .unwrap();
    assert_eq!(
        query_collection_info(&ledger, COLLECTION.to_string()).unwrap(),
        CollectionInfo {
            nft_address: COLLECTION.to_string(),
            offering_id: 2,
            royalty_portion: ratio(10, 100)
        }
    );
    assert_eq!(query_get_members(&ledger, COLLECTION.to_string()).unwrap(), new_members);
    assert_eq!(ids(&ledger), vec!["1".to_string(), "2".to_string()]);

    call(&mut ledger, caller("owner"), add(ratio(20, 100), members(), COLLECTION)).unwrap();
    assert_eq!(
        query_collection_info(&ledger, COLLECTION.to_string()).unwrap(),
        CollectionInfo {
            nft_address: COLLECTION.to_string(),
            offering_id: 0,
            royalty_portion: ratio(20, 100)
        }
    );
    assert_eq!(query_get_members(&ledger, COLLECTION.to_string()).unwrap(), members());
    assert_eq!(ledger.collections.len(), 1);
    // What was on offer stays, and so does the history.
    assert_eq!(ids(&ledger), vec!["1".to_string(), "2".to_string()]);
    assert_eq!(history(&ledger, "one").len(), 1);

    // The next listing takes the id 1 again and the offering that held it gives way.
    call(&mut ledger, caller(COLLECTION), deposit("late", "three", "hope", 30)).unwrap();
    assert_eq!(ids(&ledger), vec!["1".to_string(), "2".to_string()]);
    let page =
        query_get_offering(&ledger, vec!["1".to_string()], COLLECTION.to_string()).unwrap();
    assert_eq!(
        page,
        vec![QueryOfferingsResult {
            id: "1".to_string(),
            token_id: "three".to_string(),
            list_price: Asset { denom: "hope".to_string(), amount: 30 },
            seller: "late".to_string()
        }]
    );
}

#[test]
fn listing_needs_a_known_collection() {
    let mut ledger = market();
    assert_eq!(
        refused(&mut ledger, caller("elsewhere"), deposit("seller", "asset", "ujuno", 5)),
        ContractError::UnknownCollection
    );
    assert_eq!(ids(&ledger), Vec::<String>::new());
}

#[test]
fn listing_counts_up_and_stores_the_offering() {
    let mut ledger = market();
    for n in 1..=12u64 {
        let response = call(
            &mut ledger,
            caller(COLLECTION),
            deposit("seller", &format!("asset{}", n), "ujuno", n as u128),
        )
        .unwrap();
        assert_eq!(response.messages, vec![]);
        assert_eq!(
            query_collection_info(&ledger, COLLECTION.to_string()).unwrap().offering_id,
            n
        );
    }
    let expected: Vec<String> = (1..=12u64).map(|n| n.to_string()).collect();
    assert_eq!(ids(&ledger), expected);
    let page = query_get_offering(
        &ledger,
        vec!["12".to_string(), "3".to_string()],
        COLLECTION.to_string(),
    )
    .unwrap();
    assert_eq!(
        page,
        vec![
            QueryOfferingsResult {
                id: "12".to_string(),
                token_id: "asset12".to_string(),
                list_price: Asset { denom: "ujuno".to_string(), amount: 12 },
                seller: "seller".to_string()
            },
            QueryOfferingsResult {
                id: "3".to_string(),
                token_id: "asset3".to_string(),
                list_price: Asset { denom: "ujuno".to_string(), amount: 3 },
                seller: "seller".to_string()
            },
        ]
    );
    // An id is never given out again, also once its offering is gone.
    call(&mut ledger, caller("seller"), withdraw("12")).unwrap();
    call(&mut ledger, caller(COLLECTION), deposit("seller", "asset13", "ujuno", 13)).unwrap();
    assert_eq!(ids(&ledger).last().unwrap(), "13");
    assert!(!ids(&ledger).contains(&"12".to_string()));
}

#[test]
fn first_listing_seeds_the_history_once() {
    let mut ledger = market();
    assert_eq!(
        query_get_history(&ledger, COLLECTION.to_string(), "asset".to_string()),
        Err(ContractError::NotFound)
    );
    call(&mut ledger, caller(COLLECTION), deposit("first", "asset", "ujuno", 5_000_000)).unwrap();
    let seed =
        SaleInfo { address: "first".to_string(), denom: "Hope".to_string(), amount: 0, time: NOW };
    assert_eq!(history(&ledger, "asset"), vec![seed.clone()]);

    // Listed again before any sale: no second seed.
    call(&mut ledger, caller(COLLECTION), deposit("second", "asset", "ujuno", 6_000_000)).unwrap();
    assert_eq!(history(&ledger, "asset"), vec![seed.clone()]);

    // Sold, and listed again by the buyer: the seed stays first and alone.
    call(&mut ledger, payer("buyer", "ujuno", 5_000_000), buy("1")).unwrap();
    call(&mut ledger, caller(COLLECTION), deposit("buyer", "asset", "ujuno", 7_000_000)).unwrap();
    assert_eq!(
        history(&ledger, "asset"),
        vec![
            seed,
            SaleInfo {
                address: "buyer".to_string(),
                denom: "Juno".to_string(),
                amount: 5,
                time: NOW
            }
        ]
    );
    // Another asset has a history of its own.
    call(&mut ledger, caller(COLLECTION), deposit("third", "other", "hope", 1)).unwrap();
    assert_eq!(
        history(&ledger, "other"),
        vec![SaleInfo {
            address: "third".to_string(),
            denom: "Hope".to_string(),
            amount: 0,
            time: NOW
        }]
    );
}

#[test]
fn an_offering_is_settled_once() {
    let mut ledger = market();
    call(&mut ledger, caller(COLLECTION), deposit("seller", "n", "ujuno", 100)).unwrap();
    call(&mut ledger, caller(COLLECTION), deposit("seller", "t", "hope", 200)).unwrap();

    call(&mut ledger, payer("buyer", "ujuno", 100), buy("1")).unwrap();
    assert_eq!(ids(&ledger), vec!["2".to_string()]);
    assert_eq!(
        refused(&mut ledger, payer("buyer", "ujuno", 100), buy("1")),
        ContractError::NotFound
    );

    call(&mut ledger, caller("token"), token_payment("buyer", 200, "2")).unwrap();
    assert_eq!(ids(&ledger), Vec::<String>::new());
    assert_eq!(
        refused(&mut ledger, caller("token"), token_payment("buyer", 200, "2")),
        ContractError::NotFound
    );
    assert_eq!(trading(&ledger), PriceInfo { total_juno: 100, total_hope: 200 });
}

#[test]
fn settlement_needs_an_open_offering() {
    let mut ledger = market();
    call(&mut ledger, caller(COLLECTION), deposit("seller", "asset", "ujuno", 100)).unwrap();
    assert_eq!(
        refused(&mut ledger, payer("buyer", "ujuno", 100), buy("2")),
        ContractError::NotFound
    );
    assert_eq!(
        refused(&mut ledger, payer("buyer", "ujuno", 100), buy("01")),
        ContractError::NotFound
    );
    assert_eq!(
        refused(&mut ledger, payer("buyer", "ujuno", 100), buy("")),
        ContractError::NotFound
    );
    let elsewhere =
        ExecuteMsg::BuyNft { offering_id: "1".to_string(), nft_address: "elsewhere".to_string() };
    assert_eq!(
        refused(&mut ledger, payer("buyer", "ujuno", 100), elsewhere),
        ContractError::NotFound
    );
    assert_eq!(
        refused(&mut ledger, caller("token"), token_payment("buyer", 100, "7")),
        ContractError::NotFound
    );
}

#[test]
fn payment_must_come_on_the_rail_of_the_price() {
    let mut ledger = market();
    call(&mut ledger, caller(COLLECTION), deposit("seller", "n", "ujuno", 100)).unwrap();
    call(&mut ledger, caller(COLLECTION), deposit("seller", "t", "hope", 200)).unwrap();
    assert_eq!(
        refused(&mut ledger, caller("token"), token_payment("buyer", 100, "1")),
        ContractError::WrongPaymentRail
    );
    assert_eq!(
        refused(&mut ledger, payer("buyer", "ujuno", 200), buy("2")),
        ContractError::WrongPaymentRail
    );
    assert_eq!(
        refused(&mut ledger, payer("buyer", "hope", 200), buy("2")),
        ContractError::WrongPaymentRail
    );
    // The rail is judged before the amount is.
    assert_eq!(
        refused(&mut ledger, caller("token"), token_payment("buyer", 1, "1")),
        ContractError::WrongPaymentRail
    );
    assert_eq!(ids(&ledger), vec!["1".to_string(), "2".to_string()]);
}

#[test]
fn token_payment_must_equal_the_price() {
    let mut ledger = market();
    call(&mut ledger, caller(COLLECTION), deposit("seller", "t", "hope", 200)).unwrap();
    assert_eq!(
        refused(&mut ledger, caller("token"), token_payment("buyer", 199, "1")),
        ContractError::InsufficientPayment
    );
    assert_eq!(
        refused(&mut ledger, caller("token"), token_payment("buyer", 201, "1")),
        ContractError::InsufficientPayment
    );
    assert_eq!(
        refused(&mut ledger, caller("token"), token_payment("buyer", 0, "1")),
        ContractError::InsufficientPayment
    );
    call(&mut ledger, caller("token"), token_payment("buyer", 200, "1")).unwrap();
}

#[test]
fn token_payment_must_be_announced_by_the_token_contract() {
    let mut ledger = market();
    call(&mut ledger, caller(COLLECTION), deposit("seller", "t", "hope", 200)).unwrap();
    assert_eq!(
        refused(&mut ledger, caller("buyer"), token_payment("buyer", 200, "1")),
        ContractError::Unauthorized
    );
    // The caller is judged before the offering is looked for.
    assert_eq!(
        refused(&mut ledger, caller("buyer"), token_payment("buyer", 200, "9")),
        ContractError::Unauthorized
    );
    call(&mut ledger, caller("owner"), ExecuteMsg::SetTokenAddress { address: "token2".to_string() })
        .unwrap();
    assert_eq!(
        refused(&mut ledger, caller("token"), token_payment("buyer", 200, "1")),
        ContractError::Unauthorized
    );
    let response = call(&mut ledger, caller("token2"), token_payment("buyer", 200, "1")).unwrap();
    assert_eq!(
        response.messages[1],
        Instruction::TransferToken {
            contract_addr: "token2".to_string(),
            recipient: "seller".to_string(),
            amount: 190
        }
    );
}

#[test]
fn native_payment_must_cover_the_price() {
    let mut ledger = market();
    call(&mut ledger, caller(COLLECTION), deposit("seller", "n", "ujuno", 1_000)).unwrap();
    assert_eq!(
        refused(&mut ledger, payer("buyer", "ujuno", 999), buy("1")),
        ContractError::InsufficientPayment
    );
    assert_eq!(
        refused(&mut ledger, caller("buyer"), buy("1")),
        ContractError::InsufficientPayment
    );
    assert_eq!(
        refused(&mut ledger, payer("buyer", "uatom", 1_000), buy("1")),
        ContractError::InsufficientPayment
    );
    assert_eq!(ids(&ledger), vec!["1".to_string()]);
}

#[test]
fn native_overpayment_is_divided_like_the_price() {
    let mut ledger = market();
    call(&mut ledger, caller(COLLECTION), deposit("seller", "n", "ujuno", 1_000_000)).unwrap();
    let response = call(&mut ledger, payer("buyer", "ujuno", 3_000_000), buy("1")).unwrap();
    assert_eq!(
        response.messages,
        vec![
            transfer_nft("buyer", "n"),
            send("seller", "ujuno", 2_850_000),
            send("A", "ujuno", 45_000),
            send("B", "ujuno", 105_000),
        ]
    );
    assert_eq!(trading(&ledger), PriceInfo { total_juno: 3_000_000, total_hope: 0 });
    assert_eq!(history(&ledger, "n")[1].amount, 3);
}

#[test]
fn native_payment_counts_the_first_coin_of_the_denomination() {
    let mut ledger = market();
    call(&mut ledger, caller(COLLECTION), deposit("seller", "n", "ujuno", 500)).unwrap();
    let funds = vec![
        Coin { denom: "uatom".to_string(), amount: 9_000 },
        Coin { denom: "ujuno".to_string(), amount: 400 },
        Coin { denom: "ujuno".to_string(), amount: 600 },
    ];
    let info = MessageInfo { sender: "buyer".to_string(), funds };
    assert_eq!(refused(&mut ledger, info, buy("1")), ContractError::InsufficientPayment);
    let funds = vec![
        Coin { denom: "uatom".to_string(), amount: 9_000 },
        Coin { denom: "ujuno".to_string(), amount: 600 },
        Coin { denom: "ujuno".to_string(), amount: 400 },
    ];
    let info = MessageInfo { sender: "buyer".to_string(), funds };
    let response = call(&mut ledger, info, buy("1")).unwrap();
    assert_eq!(response.messages[1], send("seller", "ujuno", 570));
    assert_eq!(trading(&ledger).total_juno, 600);
}

#[test]
fn a_free_offering_settles_without_payment() {
    let mut ledger = market();
    call(&mut ledger, caller(COLLECTION), deposit("seller", "gift", "ujuno", 0)).unwrap();
    let response = call(&mut ledger, caller("buyer"), buy("1")).unwrap();
    assert_eq!(
        response.messages,
        vec![
            transfer_nft("buyer", "gift"),
            send("seller", "ujuno", 0),
            send("A", "ujuno", 0),
            send("B", "ujuno", 0),
        ]
    );
    assert_eq!(trading(&ledger), PriceInfo { total_juno: 0, total_hope: 0 });
}

#[test]
fn rounding_loss_is_paid_to_nobody() {
    let mut ledger = new_ledger();
    let thirds = vec![
        UserInfo { address: "A".to_string(), portion: ratio(1, 2) },
        UserInfo { address: "B".to_string(), portion: ratio(1, 2) },
    ];
    call(&mut ledger, caller("owner"), add(ratio(1, 3), thirds, COLLECTION)).unwrap();
    call(&mut ledger, caller(COLLECTION), deposit("seller", "n", "ujuno", 7)).unwrap();
    let response = call(&mut ledger, payer("buyer", "ujuno", 7), buy("1")).unwrap();
    assert_eq!(
        response.messages,
        vec![
            transfer_nft("buyer", "n"),
            send("seller", "ujuno", 4),
            send("A", "ujuno", 1),
            send("B", "ujuno", 1),
        ]
    );
    // The volume counts what was paid, and the history counts whole millions.
    assert_eq!(trading(&ledger).total_juno, 7);
    assert_eq!(history(&ledger, "n")[1].amount, 0);
}

#[test]
fn withdraw_is_for_the_seller_alone() {
    let mut ledger = market();
    call(&mut ledger, caller(COLLECTION), deposit("seller", "asset", "ujuno", 100)).unwrap();
    assert_eq!(
        refused(&mut ledger, caller("stranger"), withdraw("1")),
        ContractError::Unauthorized
    );
    assert_eq!(refused(&mut ledger, caller("owner"), withdraw("1")), ContractError::Unauthorized);
    assert_eq!(ids(&ledger), vec!["1".to_string()]);
    assert_eq!(refused(&mut ledger, caller("seller"), withdraw("2")), ContractError::NotFound);

    let response = call(&mut ledger, caller("seller"), withdraw("1")).unwrap();
    assert_eq!(response.messages, vec![transfer_nft("seller", "asset")]);
    assert_eq!(ids(&ledger), Vec::<String>::new());
    assert_eq!(refused(&mut ledger, caller("seller"), withdraw("1")), ContractError::NotFound);
    assert_eq!(
        refused(&mut ledger, payer("buyer", "ujuno", 100), buy("1")),
        ContractError::NotFound
    );
    // A withdrawal is no sale.
    assert_eq!(history(&ledger, "asset").len(), 1);
    assert_eq!(trading(&ledger), PriceInfo { total_juno: 0, total_hope: 0 });
}

#[test]
fn owner_and_token_address_are_for_the_owner_to_change() {
    let mut ledger = new_ledger();
    let change = ExecuteMsg::ChangeOwner { address: "heir".to_string() };
    let token = ExecuteMsg::SetTokenAddress { address: "token2".to_string() };
    assert_eq!(refused(&mut ledger, caller("heir"), change.clone()), ContractError::Unauthorized);
    assert_eq!(refused(&mut ledger, caller("heir"), token.clone()), ContractError::Unauthorized);

    call(&mut ledger, caller("owner"), change.clone()).unwrap();
    assert_eq!(
        query_state_info(&ledger).unwrap(),
        State { owner: "heir".to_string(), token_address: "token".to_string() }
    );
    assert_eq!(refused(&mut ledger, caller("owner"), change), ContractError::Unauthorized);
    call(&mut ledger, caller("heir"), token).unwrap();
    assert_eq!(
        query_state_info(&ledger).unwrap(),
        State { owner: "heir".to_string(), token_address: "token2".to_string() }
    );
}

#[test]
fn a_rejected_address_changes_nothing() {
    let mut ledger = new_ledger();
    let rejected = AddressCheck { address: false, members: vec![] };
    let before = ledger.clone();
    let change = ExecuteMsg::ChangeOwner { address: "??".to_string() };
    let token = ExecuteMsg::SetTokenAddress { address: "??".to_string() };
    let fix = ExecuteMsg::FixNft { address: "??".to_string(), token_id: "asset".to_string() };
    assert_eq!(
        execute(&mut ledger, env(), caller("owner"), change.clone(), &rejected),
        Err(ContractError::InvalidAddress)
    );
    assert_eq!(
        execute(&mut ledger, env(), caller("owner"), token.clone(), &rejected),
        Err(ContractError::InvalidAddress)
    );
    assert_eq!(
        execute(&mut ledger, env(), caller("owner"), fix.clone(), &rejected),
        Err(ContractError::InvalidAddress)
    );
    // A stranger who hands over the ledger is told so before the address is looked at;
    // with the other two commands the address comes first.
    assert_eq!(
        execute(&mut ledger, env(), caller("stranger"), change, &rejected),
        Err(ContractError::Unauthorized)
    );
    assert_eq!(
        execute(&mut ledger, env(), caller("stranger"), token, &rejected),
        Err(ContractError::InvalidAddress)
    );
    assert_eq!(
        execute(&mut ledger, env(), caller("stranger"), fix, &rejected),
        Err(ContractError::InvalidAddress)
    );
    assert_eq!(ledger, before);
}

#[test]
fn the_owner_recovers_an_asset() {
    let mut ledger = market();
    let fix = ExecuteMsg::FixNft { address: COLLECTION.to_string(), token_id: "stuck".to_string() };
    assert_eq!(refused(&mut ledger, caller("stranger"), fix.clone()), ContractError::Unauthorized);
    let before = ledger.clone();
    let response = call(&mut ledger, caller("owner"), fix).unwrap();
    assert_eq!(response.messages, vec![transfer_nft("owner", "stuck")]);
    assert_eq!(ledger, before);
}

#[test]
fn trading_of_an_unknown_collection_is_zero() {
    let ledger = market();
    let zero = PriceInfo { total_juno: 0, total_hope: 0 };
    assert_eq!(query_get_trading(&ledger, "elsewhere".to_string()), Ok(zero));
    assert_eq!(query_get_trading(&ledger, COLLECTION.to_string()), Ok(zero));
    assert_eq!(query_get_ids(&ledger, "elsewhere".to_string()), Ok(vec![]));
}

#[test]
fn a_page_fails_on_a_stale_id() {
    let mut ledger = market();
    call(&mut ledger, caller(COLLECTION), deposit("seller", "a", "ujuno", 1)).unwrap();
    call(&mut ledger, caller(COLLECTION), deposit("seller", "b", "ujuno", 2)).unwrap();
    call(&mut ledger, caller("seller"), withdraw("1")).unwrap();
    let page = |ids: &[&str], address: &str| {
        query_get_offering(
            &ledger,
            ids.iter().map(|id| id.to_string()).collect(),
            address.to_string(),
        )
    };
    assert_eq!(page(&["2", "1"], COLLECTION), Err(ContractError::NotFound));
    assert_eq!(page(&["1"], COLLECTION), Err(ContractError::NotFound));
    assert_eq!(page(&["2"], "elsewhere"), Err(ContractError::NotFound));
    assert_eq!(page(&[], COLLECTION), Ok(vec![]));
    assert_eq!(page(&[], "elsewhere"), Ok(vec![]));
    let twice = page(&["2", "2"], COLLECTION).unwrap();
    assert_eq!(twice.len(), 2);
    assert_eq!(twice[0], twice[1]);
    assert_eq!(twice[0].token_id, "b");
}

#[test]
fn query_answers_each_question() {
    let mut ledger = market();
    call(&mut ledger, caller(COLLECTION), deposit("seller", "a", "ujuno", 1)).unwrap();
    let address = COLLECTION.to_string();
    assert_eq!(
        query(&ledger, env(), QueryMsg::GetStateInfo {}),
        Ok(QueryResponse::StateInfo(State {
            owner: "owner".to_string(),
            token_address: "token".to_string()
        }))
    );
    assert_eq!(
        query(&ledger, env(), QueryMsg::GetMembers { address: address.clone() }),
        Ok(QueryResponse::Members(members()))
    );
    assert_eq!(
        query(&ledger, env(), QueryMsg::GetOfferingId { address: address.clone() }),
        Ok(QueryResponse::OfferingIds(vec!["1".to_string()]))
    );
    assert_eq!(
        query(
            &ledger,
            env(),
            QueryMsg::GetSaleHistory { address: address.clone(), token_id: "a".to_string() }
        ),
        Ok(QueryResponse::SaleHistory(history(&ledger, "a")))
    );
    assert_eq!(
        query(
            &ledger,
            env(),
            QueryMsg::GetOfferingPage { id: vec!["1".to_string()], address: address.clone() }
        ),
        Ok(QueryResponse::OfferingPage(vec![QueryOfferingsResult {
            id: "1".to_string(),
            token_id: "a".to_string(),
            list_price: Asset { denom: "ujuno".to_string(), amount: 1 },
            seller: "seller".to_string()
        }]))
    );
    assert_eq!(
        query(&ledger, env(), QueryMsg::GetTradingInfo { address: address.clone() }),
        Ok(QueryResponse::TradingInfo(PriceInfo { total_juno: 0, total_hope: 0 }))
    );
    assert_eq!(
        query(&ledger, env(), QueryMsg::GetCollectionInfo { address }),
        Ok(QueryResponse::CollectionInfo(CollectionInfo {
            nft_address: COLLECTION.to_string(),
            offering_id: 1,
            royalty_portion: ratio(5, 100)
        }))
    );
    assert_eq!(
        query(&ledger, env(), QueryMsg::GetMembers { address: "elsewhere".to_string() }),
        Err(ContractError::NotFound)
    );
    assert_eq!(
        query(
            &ledger,
            env(),
            QueryMsg::GetSaleHistory { address: COLLECTION.to_string(), token_id: "b".to_string() }
        ),
        Err(ContractError::NotFound)
    );
}

#[test]
fn ill_formed_ledgers_are_told_apart() {
    let ledger = market();
    assert!(ledger.is_well_formed());

    let mut twice = ledger.clone();
    twice.collections.push(ledger.collections[0].clone());
    assert!(!twice.is_well_formed());

    let mut improper = ledger.clone();
    improper.collections[0].info.royalty_portion = Fraction::raw(UNIT + 1);
    assert!(!improper.is_well_formed());

    let mut incomplete = ledger.clone();
    incomplete.collections[0].members.pop();
    assert!(!incomplete.is_well_formed());

    let mut listed = ledger.clone();
    call(&mut listed, caller(COLLECTION), deposit("seller", "a", "ujuno", 1)).unwrap();
    call(&mut listed, caller(COLLECTION), deposit("seller", "b", "ujuno", 1)).unwrap();
    assert!(listed.is_well_formed());

    let mut same_id = listed.clone();
    same_id.collections[0].offerings[1].id = "1".to_string();
    assert!(!same_id.is_well_formed());

    let mut no_history = listed.clone();
    no_history.collections[0].history.remove(0);
    assert!(!no_history.is_well_formed());

    let mut same_asset = listed.clone();
    same_asset.collections[0].history[1].token_id = "a".to_string();
    assert!(!same_asset.is_well_formed());

    let mut empty_history = listed.clone();
    empty_history.collections[0].history[0].sales.clear();
    assert!(!empty_history.is_well_formed());

    let mut no_seed = listed.clone();
    no_seed.collections[0].history[0].sales[0].amount = 1;
    assert!(!no_seed.is_well_formed());

    let mut broken = twice;
    assert_eq!(try_execute(&mut broken, env(), caller("seller"), withdraw("1"), &passed()), None);
}

#[test]
fn a_full_counter_admits_no_listing() {
    let mut ledger = market();
    ledger.collections[0].info.offering_id = u64::MAX;
    let msg = deposit("seller", "a", "ujuno", 1);
    assert!(!admits(&ledger, env(), &caller(COLLECTION), &msg, &passed()));
    assert!(admits(&ledger, env(), &caller("elsewhere"), &msg, &passed()));
    let before = ledger.clone();
    assert_eq!(try_execute(&mut ledger, env(), caller(COLLECTION), msg.clone(), &passed()), None);
    assert_eq!(ledger, before);
    assert_eq!(
        try_execute(&mut ledger, env(), caller("elsewhere"), msg.clone(), &passed()),
        Some(Err(ContractError::UnknownCollection))
    );
    ledger.collections[0].info.offering_id = u64::MAX - 1;
    assert_eq!(
        try_execute(&mut ledger, env(), caller(COLLECTION), msg, &passed()),
        Some(Ok(Response::new()))
    );
    assert_eq!(ids(&ledger), vec![u64::MAX.to_string()]);
}

#[test]
fn a_full_volume_admits_no_sale() {
    let mut ledger = market();
    call(&mut ledger, caller(COLLECTION), deposit("seller", "n", "ujuno", 10)).unwrap();
    call(&mut ledger, caller(COLLECTION), deposit("seller", "t", "hope", 10)).unwrap();
    ledger.collections[0].stats =
        Some(PriceInfo { total_juno: u128::MAX - 9, total_hope: u128::MAX - 10 });

    assert!(!admits(&ledger, env(), &payer("buyer", "ujuno", 10), &buy("1"), &passed()));
    // A payment that settles nothing raises no volume.
    assert!(admits(&ledger, env(), &payer("buyer", "ujuno", 9), &buy("1"), &passed()));
    assert!(admits(&ledger, env(), &payer("buyer", "ujuno", 10), &buy("2"), &passed()));
    assert!(admits(&ledger, env(), &payer("buyer", "ujuno", 10), &buy("3"), &passed()));
    assert!(admits(&ledger, env(), &caller("token"), &token_payment("buyer", 10, "2"), &passed()));

    let before = ledger.clone();
    assert_eq!(
        try_execute(&mut ledger, env(), payer("buyer", "ujuno", 10), buy("1"), &passed()),
        None
    );
    assert_eq!(ledger, before);
    let outcome =
        try_execute(&mut ledger, env(), caller("token"), token_payment("buyer", 10, "2"), &passed());
    assert!(matches!(outcome, Some(Ok(_))));
    assert_eq!(trading(&ledger), PriceInfo { total_juno: u128::MAX - 9, total_hope: u128::MAX });
}

#[test]
fn an_improper_royalty_is_not_admitted() {
    let mut ledger = new_ledger();
    let msg = add(Fraction::raw(UNIT + 1), members(), COLLECTION);
    assert!(!admits(&ledger, env(), &caller("owner"), &msg, &passed()));
    assert_eq!(try_execute(&mut ledger, env(), caller("owner"), msg, &passed()), None);
    // A message that is refused anyway is taken, and refused.
    let msg = add(Fraction::raw(UNIT + 1), members(), COLLECTION);
    assert_eq!(
        try_execute(&mut ledger, env(), caller("stranger"), msg, &passed()),
        Some(Err(ContractError::Unauthorized))
    );
    let msg = update(Fraction::raw(u128::MAX), members(), COLLECTION);
    assert_eq!(
        try_execute(&mut ledger, env(), caller("owner"), msg, &passed()),
        Some(Err(ContractError::UnknownCollection))
    );
    let msg = add(Fraction::raw(UNIT + 1), vec![], COLLECTION);
    assert_eq!(
        try_execute(&mut ledger, env(), caller("owner"), msg, &passed()),
        Some(Err(ContractError::WrongPortionSum))
    );
    let msg = add(Fraction::one(), members(), COLLECTION);
    assert_eq!(
        try_execute(&mut ledger, env(), caller("owner"), msg, &passed()),
        Some(Ok(Response::new()))
    );
    let msg = update(Fraction::raw(u128::MAX), members(), COLLECTION);
    assert!(!admits(&ledger, env(), &caller("owner"), &msg, &passed()));
    assert!(admits(&ledger, env(), &caller("stranger"), &msg, &passed()));
    assert_eq!(try_execute(&mut ledger, env(), caller("owner"), msg, &passed()), None);
    // With a royalty of one the seller receives nothing.
    call(&mut ledger, caller(COLLECTION), deposit("seller", "n", "ujuno", 10)).unwrap();
    let response = call(&mut ledger, payer("buyer", "ujuno", 10), buy("1")).unwrap();
    assert_eq!(
        response.messages,
        vec![
            transfer_nft("buyer", "n"),
            send("seller", "ujuno", 0),
            send("A", "ujuno", 3),
            send("B", "ujuno", 7),
        ]
    );
}
