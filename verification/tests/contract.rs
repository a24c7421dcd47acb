use cosmwasm_std::testing::{mock_env as host_env, mock_info as host_info};
use cosmwasm_std::{to_json_binary, Decimal, Uint128};
use rwa_protocol::contract::{execute, instantiate, query};
use rwa_protocol::error::ContractError;
use rwa_protocol::fraction::Fraction;
use rwa_protocol::host::{attr, coin, coins, Coin, Env, MessageInfo, TransferMsg};
use rwa_protocol::msg::{
    ExecuteMsg, FeeResponse, InstantiateMsg, OffersResponse, QueryMsg, QueryResponse, ReceiveMsg,
    RentalResponse, SellRwa,
};
use rwa_protocol::state::Ledger;

fn mock_env() -> Env {
    Env { block_time: host_env().block.time.seconds() }
}

fn mock_info(sender: &str, funds: &[Coin]) -> MessageInfo {
    let info = host_info(sender, &[]);
    MessageInfo { sender: info.sender.into_string(), funds: funds.to_vec() }
}

fn percent(x: u64) -> Fraction {
    Fraction { atomics: Decimal::percent(x).atomics().u128() }
}

fn transfer_json(recipient: &str, amount: u128) -> Vec<u8> {
    to_json_binary(&cw20::Cw20ExecuteMsg::Transfer {
        recipient: recipient.into(),
        amount: Uint128::new(amount),
    })
    .unwrap()
    .to_vec()
}

fn setup() -> Ledger {
    let msg = InstantiateMsg { fee: percent(2) };
    let info = mock_info("creator", &[]);

    // we can just call .unwrap() to assert this was a success
    instantiate(mock_env(), info, msg).unwrap().0
}

fn offers(res: QueryResponse) -> OffersResponse {
    match res {
        QueryResponse::Offers(value) => value,
        _ => panic!("Must answer with offers"),
    }
}

fn fee(res: QueryResponse) -> FeeResponse {
    match res {
        QueryResponse::Fee(value) => value,
        _ => panic!("Must answer with the fee"),
    }
}

fn rental(res: QueryResponse) -> RentalResponse {
    match res {
        QueryResponse::Rental(value) => value,
        _ => panic!("Must answer with a rental"),
    }
}

#[test]
fn proper_initialization() {
    let msg = InstantiateMsg { fee: percent(2) };
    let info = mock_info("creator", &[]);

    // we can just call .unwrap() to assert this was a success
    let (_, res) = instantiate(mock_env(), info, msg).unwrap();
    assert_eq!(0, res.messages.len());
}

#[test]
fn sell_rwa() {
    let mut deps = setup();

    let sell_msg = SellRwa { list_price: coin(1000, "earth") };

    let msg = ExecuteMsg::ReceiveRwa(ReceiveMsg {
        sender: "owner".into(),
        amount: 100,
        msg: sell_msg,
    });
    let info = mock_info("rwa-token", &[]);
    let res = execute(&mut deps, mock_env(), info, msg).unwrap();

    assert_eq!(0, res.messages.len());

    let msg = QueryMsg::AllOffers { start_after: None, limit: None };
    let res = query(&deps, mock_env(), msg).unwrap();
    let value = offers(res);

    assert_eq!(100, value.offers.first().unwrap().amount);
}

#[test]
fn buy_rwa() {
    let mut deps = setup();

    let sell_msg = SellRwa { list_price: coin(1000, "earth") };

    let msg = ExecuteMsg::ReceiveRwa(ReceiveMsg {
        sender: "owner".into(),
        amount: 100,
        msg: sell_msg,
    });
    let info = mock_info("rwa-token", &[]);
    execute(&mut deps, mock_env(), info, msg).unwrap();

    // Now buy the RWA tokens
    let msg = ExecuteMsg::Buy { offering_id: "1".into() };
    let info = mock_info("buyer", &coins(1000, "earth"));
    let res = execute(&mut deps, mock_env(), info, msg).unwrap();

    assert_eq!(2, res.messages.len());
    assert_eq!(
        res.messages[0],
        TransferMsg::Bank { to_address: "owner".into(), coins: coins(980, "earth") }
    );
    assert_eq!(
        res.messages[1],
        TransferMsg::Asset {
            contract_addr: "rwa-token".into(),
            recipient: "buyer".into(),
            amount: 100,
            msg: transfer_json("buyer", 100),
        }
    );

    // Check that the offering has been removed
    let msg = QueryMsg::AllOffers { start_after: None, limit: None };
    let res = query(&deps, mock_env(), msg).unwrap();
    let value = offers(res);
    assert_eq!(0, value.offers.len());
}

#[test]
fn withdraw_fees() {
    let mut deps = setup();

    let info = mock_info("anyone", &[]);
    let msg = ExecuteMsg::WithdrawFees { amount: 1000u32.into(), denom: "earth".into() };
    let res = execute(&mut deps, mock_env(), info, msg);
    match res {
        Err(ContractError::Unauthorized {}) => {}
        _ => panic!("Must return Unauthorized error"),
    }

    let info = mock_info("creator", &[]);
    let msg = ExecuteMsg::WithdrawFees { amount: 1000u32.into(), denom: "earth".into() };
    let res = execute(&mut deps, mock_env(), info, msg).unwrap();
    assert_eq!(1, res.messages.len());
    assert_eq!(
        res.messages[0],
        TransferMsg::Bank { to_address: "creator".into(), coins: coins(1000, "earth") }
    );
}

#[test]
fn change_fee() {
    let mut deps = setup();

    let info = mock_info("anyone", &[]);
    let msg = ExecuteMsg::ChangeFee { fee: percent(3) };
    let res = execute(&mut deps, mock_env(), info, msg);
    match res {
        Err(ContractError::Unauthorized {}) => {}
        _ => panic!("Must return Unauthorized error"),
    }

    let info = mock_info("creator", &[]);
    let msg = ExecuteMsg::ChangeFee { fee: percent(3) };
    let res = execute(&mut deps, mock_env(), info, msg).unwrap();
    assert_eq!(0, res.messages.len());

    let msg = QueryMsg::GetFee {};
    let res = query(&deps, mock_env(), msg).unwrap();
    let value = fee(res);
    assert_eq!(percent(3), value.fee);
}

#[test]
fn rent_rwa() {
    let env = mock_env();
    let mut deps = setup();

    // Create an offering
    let sell_msg = SellRwa { list_price: coin(10, "earth") };
    let msg = ExecuteMsg::ReceiveRwa(ReceiveMsg {
        sender: "owner".into(),
        amount: 100,
        msg: sell_msg,
    });
    let info = mock_info("rwa-token", &[]);
    execute(&mut deps, env, info, msg).unwrap();

    // Rent the RWA
    let msg = ExecuteMsg::RentRwa {
        offering_id: "1".into(),
        duration: 30, // 30 seconds
    };
    let info = mock_info("renter", &coins(300, "earth")); // 10 * 30 = 300
    let res = execute(&mut deps, env, info, msg).unwrap();

    assert_eq!(2, res.messages.len());
    assert_eq!(
        res.messages[0],
        TransferMsg::Bank {
            to_address: "owner".into(),
            coins: coins(294, "earth") // 300 - 2% fee
        }
    );
    assert_eq!(
        res.messages[1],
        TransferMsg::Asset {
            contract_addr: "rwa-token".into(),
            recipient: "renter".into(),
            amount: 100,
            msg: transfer_json("renter", 100),
        }
    );

    // Check rental info
    let msg = QueryMsg::GetRental { rental_id: "1".into() };
    let res = query(&deps, env, msg).unwrap();
    let rental_info = rental(res);
    assert_eq!(rental_info.rental.renter, "renter");
    assert_eq!(rental_info.rental.amount, 100);
}

#[test]
fn end_rental_and_clawback() {
    let mut env = mock_env();
    let mut deps = setup();

    // List RWA
    let list_price = coin(10, "earth");
    let sell_msg = SellRwa { list_price: list_price.clone() };
    let list_msg = ExecuteMsg::ReceiveRwa(ReceiveMsg {
        sender: "owner".into(),
        amount: 100,
        msg: sell_msg,
    });
    let list_info = mock_info("rwa-token", &[]);
    let list_res = execute(&mut deps, env, list_info, list_msg).unwrap();

    // Check that the RWA was listed successfully
    assert_eq!(0, list_res.messages.len());
    assert_eq!(
        list_res.attributes,
        vec![
            attr("action", "sell_rwa"),
            attr("offering_id", "1"),
            attr("rwa_contract", "rwa-token"),
            attr("seller", "owner"),
            attr("list_price", &format!("{}{}", list_price.amount, list_price.denom)),
            attr("amount", "100"),
        ]
    );

    // Rent the RWA
    let rent_msg = ExecuteMsg::RentRwa {
        offering_id: "1".into(),
        duration: 30, // 30 seconds
    };
    let rent_info = mock_info("renter", &coins(300, "earth")); // 10 * 30 = 300
    execute(&mut deps, env, rent_info, rent_msg).unwrap();

    // Fast forward time
    env.block_time = host_env().block.time.plus_seconds(31).seconds();

    // End rental
    let end_msg = ExecuteMsg::EndRental { rental_id: "1".into() };
    let end_info = mock_info("renter", &[]);
    let end_res = execute(&mut deps, env, end_info, end_msg).unwrap();

    assert_eq!(1, end_res.messages.len());
    assert_eq!(
        end_res.messages[0],
        TransferMsg::Asset {
            contract_addr: "rwa-token".into(),
            recipient: "owner".into(),
            amount: 100,
            msg: transfer_json("owner", 100),
        }
    );

    // Try clawback (should fail as rental is already ended)
    let clawback_msg = ExecuteMsg::Clawback { rental_id: "1".into() };
    let clawback_info = mock_info("owner", &[]);
    let clawback_err = execute(&mut deps, env, clawback_info, clawback_msg).unwrap_err();
    match clawback_err {
        ContractError::RentalNotFound {} => {}
        _ => panic!("Must return RentalNotFound error"),
    }
}
