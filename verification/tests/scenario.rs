use cosmwasm_std::testing::{mock_dependencies, mock_env as host_env};
use cosmwasm_std::{Api, Decimal};
use marketplace::contract::{execute, instantiate};
use marketplace::fraction::Fraction;
use marketplace::ledger::Ledger;
use marketplace::msg::{
    AddressCheck, BuyNft, Coin, Env, ExecuteMsg, InstantiateMsg, Instruction, MessageInfo,
    NftReceipt, QueryOfferingsResult, Response, SellNft, TokenReceipt,
};
use marketplace::query::{
    query_collection_info, query_get_history, query_get_ids, query_get_offering,
    query_get_trading, query_state_info,
};
use marketplace::state::{Asset, CollectionInfo, PriceInfo, SaleInfo, UserInfo};

fn mock_env() -> Env {
    Env { time: host_env().block.time.seconds() }
}

fn mock_info(sender: &str, funds: &[Coin]) -> MessageInfo {
    MessageInfo { sender: sender.to_string(), funds: funds.to_vec() }
}

fn ratio(numerator: u128, denominator: u128) -> Fraction {
    Fraction::raw(Decimal::from_ratio(numerator, denominator).atomics().u128())
}

fn valid(address: &str) -> bool {
    mock_dependencies().api.addr_validate(address).is_ok()
}

/// The verdicts of the host's address check on what a message names.
fn checked(msg: &ExecuteMsg) -> AddressCheck {
    match msg {
        ExecuteMsg::ChangeOwner { address }
        | ExecuteMsg::SetTokenAddress { address }
        | ExecuteMsg::FixNft { address, .. } => {
            AddressCheck { address: valid(address), members: vec![] }
        }
        ExecuteMsg::AddCollection { members, nft_address, .. }
        | ExecuteMsg::UpdateCollection { members, nft_address, .. } => AddressCheck {
            address: valid(nft_address),
            members: members.iter().map(|m| valid(&m.address)).collect(),
        },
        _ => AddressCheck { address: true, members: vec![] },
    }
}

fn run(ledger: &mut Ledger, info: MessageInfo, msg: ExecuteMsg) -> Response {
    let check = checked(&msg);
    execute(ledger, mock_env(), info, msg, &check).unwrap()
}

fn sell(ledger: &mut Ledger, collection: &str, seller: &str, token_id: &str, denom: &str, amount: u128) {
    let msg = ExecuteMsg::ReceiveNft(NftReceipt {
        sender: seller.to_string(),
        token_id: token_id.to_string(),
        msg: SellNft { list_price: Asset { denom: denom.to_string(), amount } },
    });
    run(ledger, mock_info(collection, &[]), msg);
}

fn two_members() -> Vec<UserInfo> {
    vec![
        UserInfo { address: "admin1".to_string(), portion: ratio(3, 10) },
        UserInfo { address: "admin2".to_string(), portion: ratio(7, 10) },
    ]
}

#[test]
fn testing() {
    //Instantiate
    let instantiate_msg =
        InstantiateMsg { owner: "creator".to_string(), token_address: "token".to_string() };
    let info = mock_info("creator", &[]);
    let (mut ledger, res) = instantiate(mock_env(), info, instantiate_msg);
    assert_eq!(0, res.messages.len());
    let state = query_state_info(&ledger).unwrap();
    assert_eq!(state.owner, "creator".to_string());

    //Change Owner
    let info = mock_info("creator", &[]);
    let msg = ExecuteMsg::ChangeOwner { address: "owner".to_string() };
    run(&mut ledger, info, msg);
    let state = query_state_info(&ledger).unwrap();
    assert_eq!(state.owner, "owner".to_string());

    //Change Token Contract Address
    let info = mock_info("owner", &[]);
    let msg = ExecuteMsg::SetTokenAddress { address: "token_address".to_string() };
    run(&mut ledger, info, msg);
    let state = query_state_info(&ledger).unwrap();
    assert_eq!(state.token_address, "token_address".to_string());

    //Hope1 Collection Add
    let info = mock_info("owner", &[]);
    let msg = ExecuteMsg::AddCollection {
        royalty_portion: ratio(5, 100),
        members: two_members(),
        nft_address: "hope1_address".to_string(),
    };
    run(&mut ledger, info, msg);

    // Sell nft
    sell(&mut ledger, "hope1_address", "owner1", "Hope.1", "ujuno", 1000000);

    let sale_history =
        query_get_history(&ledger, "hope1_address".to_string(), "Hope.1".to_string()).unwrap();
    assert_eq!(
        sale_history,
        vec![SaleInfo {
            address: "owner1".to_string(),
            denom: "Hope".to_string(),
            amount: 0,
            time: mock_env().time
        }]
    );

    let collection_info = query_collection_info(&ledger, "hope1_address".to_string()).unwrap();
    assert_eq!(
        collection_info,
        CollectionInfo {
            nft_address: "hope1_address".to_string(),
            offering_id: 1,
            royalty_portion: ratio(5, 100)
        }
    );

    let ids = query_get_ids(&ledger, "hope1_address".to_string()).unwrap();
    assert_eq!(ids, vec!["1".to_string()]);

    let offerings =
        query_get_offering(&ledger, vec!["1".to_string()], "hope1_address".to_string()).unwrap();
    assert_eq!(
        offerings,
        vec![QueryOfferingsResult {
            id: "1".to_string(),
            token_id: "Hope.1".to_string(),
            list_price: Asset { denom: "ujuno".to_string(), amount: 1000000 },
            seller: "owner1".to_string()
        }]
    );

    //Buy nft
    let info = mock_info("buyer1", &[Coin { denom: "ujuno".to_string(), amount: 1000000 }]);
    let msg = ExecuteMsg::BuyNft {
        offering_id: "1".to_string(),
        nft_address: "hope1_address".to_string(),
    };
    let res = run(&mut ledger, info, msg);
    assert_eq!(res.messages.len(), 4);
    assert_eq!(
        res.messages[0],
        Instruction::TransferNft {
            contract_addr: "hope1_address".to_string(),
            recipient: "buyer1".to_string(),
            token_id: "Hope.1".to_string(),
        }
    );
    assert_eq!(
        res.messages[1],
        Instruction::SendCoin {
            to_address: "owner1".to_string(),
            denom: "ujuno".to_string(),
            amount: 950000
        }
    );
    assert_eq!(
        res.messages[2],
        Instruction::SendCoin {
            to_address: "admin1".to_string(),
            denom: "ujuno".to_string(),
            amount: 15000
        }
    );
    assert_eq!(
        res.messages[3],
        Instruction::SendCoin {
            to_address: "admin2".to_string(),
            denom: "ujuno".to_string(),
            amount: 35000
        }
    );

    let ids = query_get_ids(&ledger, "hope1_address".to_string()).unwrap();
    let test_id: Vec<String> = vec![];
    assert_eq!(ids, test_id);

    // Sale History and TVL check
    sell(&mut ledger, "hope1_address", "buyer2", "Hope.1", "ujuno", 2000000);

    let info = mock_info("buyer2", &[Coin { denom: "ujuno".to_string(), amount: 2000000 }]);
    let msg = ExecuteMsg::BuyNft {
        offering_id: "2".to_string(),
        nft_address: "hope1_address".to_string(),
    };
    run(&mut ledger, info, msg);

    let sale_history =
        query_get_history(&ledger, "hope1_address".to_string(), "Hope.1".to_string()).unwrap();
    let trade_info = query_get_trading(&ledger, "hope1_address".to_string()).unwrap();

    assert_eq!(
        sale_history,
        vec![
            SaleInfo {
                address: "owner1".to_string(),
                denom: "Hope".to_string(),
                amount: 0,
                time: mock_env().time
            },
            SaleInfo {
                address: "buyer1".to_string(),
                denom: "Juno".to_string(),
                amount: 1,
                time: mock_env().time
            },
            SaleInfo {
                address: "buyer2".to_string(),
                denom: "Juno".to_string(),
                amount: 2,
                time: mock_env().time
            },
        ]
    );
    assert_eq!(trade_info, PriceInfo { total_hope: 0, total_juno: 3000000 });

    //Buy Nft with hope token
    sell(&mut ledger, "hope1_address", "owner", "Hope.2", "hope", 1000000);

    let cw20_msg =
        BuyNft { offering_id: "3".to_string(), nft_address: "hope1_address".to_string() };
    let info = mock_info("token_address", &[]);
    let msg = ExecuteMsg::Receive(TokenReceipt {
        sender: "buyer1".to_string(),
        amount: 1000000,
        msg: cw20_msg,
    });
    run(&mut ledger, info, msg);

    sell(&mut ledger, "hope1_address", "buyer1", "Hope.2", "hope", 2000000);

    let cw20_msg =
        BuyNft { offering_id: "4".to_string(), nft_address: "hope1_address".to_string() };
    let info = mock_info("token_address", &[]);
    let msg = ExecuteMsg::Receive(TokenReceipt {
        sender: "buyer2".to_string(),
        amount: 2000000,
        msg: cw20_msg,
    });
    let res = run(&mut ledger, info, msg);
    assert_eq!(res.messages.len(), 4);

    let sale_history =
        query_get_history(&ledger, "hope1_address".to_string(), "Hope.2".to_string()).unwrap();
    let trade_info = query_get_trading(&ledger, "hope1_address".to_string()).unwrap();

    assert_eq!(
        sale_history,
        vec![
            SaleInfo {
                address: "owner".to_string(),
                denom: "Hope".to_string(),
                amount: 0,
                time: mock_env().time
            },
            SaleInfo {
                address: "buyer1".to_string(),
                denom: "Hope".to_string(),
                amount: 1,
                time: mock_env().time
            },
            SaleInfo {
                address: "buyer2".to_string(),
                denom: "Hope".to_string(),
                amount: 2,
                time: mock_env().time
            },
        ]
    );
    assert_eq!(trade_info, PriceInfo { total_hope: 3000000, total_juno: 3000000 });

    assert_eq!(
        res.messages[0],
        Instruction::TransferNft {
            contract_addr: "hope1_address".to_string(),
            recipient: "buyer2".to_string(),
            token_id: "Hope.2".to_string(),
        }
    );
    assert_eq!(
        res.messages[1],
        Instruction::TransferToken {
            contract_addr: "token_address".to_string(),
            recipient: "buyer1".to_string(),
            amount: 1900000
        }
    );
    assert_eq!(
        res.messages[2].clone(),
        Instruction::TransferToken {
            contract_addr: "token_address".to_string(),
            recipient: "admin1".to_string(),
            amount: 30000
        }
    );
    assert_eq!(
        res.messages[3],
        Instruction::TransferToken {
            contract_addr: "token_address".to_string(),
            recipient: "admin2".to_string(),
            amount: 70000
        }
    );

    //testing withdraw
    sell(&mut ledger, "hope1_address", "owner", "Hope.3", "hope", 2000000);

    let info = mock_info("owner", &[]);
    let msg = ExecuteMsg::WithdrawNft {
        offering_id: "5".to_string(),
        nft_address: "hope1_address".to_string(),
    };
    let res = run(&mut ledger, info, msg);
    assert_eq!(1, res.messages.len());
    assert_eq!(
        res.messages[0],
        Instruction::TransferNft {
            contract_addr: "hope1_address".to_string(),
            recipient: "owner".to_string(),
            token_id: "Hope.3".to_string(),
        }
    );

    let ids = query_get_ids(&ledger, "hope1_address".to_string()).unwrap();
    let test_id: Vec<String> = vec![];
    assert_eq!(ids, test_id);

    //Second Collection Add
    let info = mock_info("owner", &[]);
    let msg = ExecuteMsg::AddCollection {
        royalty_portion: ratio(5, 100),
        members: two_members(),
        nft_address: "hope2_address".to_string(),
    };
    run(&mut ledger, info, msg);

    let trade_info = query_get_trading(&ledger, "hope2_address".to_string()).unwrap();
    let collection_info = query_collection_info(&ledger, "hope2_address".to_string()).unwrap();
    assert_eq!(
        collection_info,
        CollectionInfo {
            nft_address: "hope2_address".to_string(),
            offering_id: 0,
            royalty_portion: ratio(5, 100)
        }
    );
    assert_eq!(trade_info, PriceInfo { total_juno: 0, total_hope: 0 })
}
