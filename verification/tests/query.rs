use rwa_protocol::contract::{execute_receive_rwa, instantiate, map_offer, query, query_all, query_rental};
use rwa_protocol::error::ContractError;
use rwa_protocol::fraction::Fraction;
use rwa_protocol::host::{coin, Env, MessageInfo};
use rwa_protocol::msg::{
    CountResponse, FeeResponse, InstantiateMsg, Offer, QueryMsg, QueryResponse, ReceiveMsg, SellRwa,
};
use rwa_protocol::state::{Ledger, Offering};
use rwa_protocol::store::Entry;

fn env() -> Env {
    Env { block_time: 5 }
}

fn market_with(n: u128) -> Ledger {
    let info = MessageInfo { sender: "creator".into(), funds: vec![] };
    let mut ledger =
        instantiate(env(), info, InstantiateMsg { fee: Fraction::percent(2) }).unwrap().0;
    for i in 0..n {
        let wrapper = ReceiveMsg {
            sender: "owner".into(),
            amount: 100 + i,
            msg: SellRwa { list_price: coin(10, "earth") },
        };
        let info = MessageInfo { sender: "rwa-token".into(), funds: vec![] };
        execute_receive_rwa(&mut ledger, info, wrapper).unwrap();
    }
    ledger
}

fn ids(ledger: &Ledger, start_after: Option<&str>, limit: Option<u32>) -> Vec<String> {
    query_all(ledger, start_after.map(|s| s.to_string()), limit)
        .offers
        .into_iter()
        .map(|o| o.id)
        .collect()
}

#[test]
fn page_defaults_to_ten() {
    let ledger = market_with(35);
    assert_eq!(
        ids(&ledger, None, None),
        vec!["1", "10", "11", "12", "13", "14", "15", "16", "17", "18"]
    );
}

#[test]
fn page_is_capped_at_thirty() {
    let ledger = market_with(35);
    assert_eq!(ids(&ledger, None, Some(31)).len(), 30);
    assert_eq!(ids(&ledger, None, Some(u32::MAX)).len(), 30);
    assert_eq!(ids(&ledger, None, Some(30)).len(), 30);
    assert_eq!(ids(&ledger, None, Some(29)).len(), 29);
    assert_eq!(ids(&ledger, None, Some(0)).len(), 0);
}

#[test]
fn page_is_shorter_where_the_listing_ends() {
    let ledger = market_with(3);
    assert_eq!(ids(&ledger, None, None), vec!["1", "2", "3"]);
    assert_eq!(ids(&ledger, None, Some(30)), vec!["1", "2", "3"]);
    assert_eq!(ids(&ledger, Some("2"), None), vec!["3"]);
    assert_eq!(ids(&ledger, Some("3"), None), Vec::<String>::new());
    assert_eq!(ids(&market_with(0), None, None), Vec::<String>::new());
}

#[test]
fn pages_follow_one_another() {
    let ledger = market_with(12);
    let first = ids(&ledger, None, Some(5));
    assert_eq!(first, vec!["1", "10", "11", "12", "2"]);
    let second = ids(&ledger, Some("2"), Some(5));
    assert_eq!(second, vec!["3", "4", "5", "6", "7"]);
    let third = ids(&ledger, Some("7"), Some(5));
    assert_eq!(third, vec!["8", "9"]);
}

#[test]
fn offers_carry_the_offering() {
    let ledger = market_with(2);
    let offers = query_all(&ledger, None, None).offers;
    assert_eq!(
        offers,
        vec![
            Offer {
                id: "1".into(),
                amount: 100,
                contract: "rwa-token".into(),
                seller: "owner".into(),
                list_price: coin(10, "earth"),
            },
            Offer {
                id: "2".into(),
                amount: 101,
                contract: "rwa-token".into(),
                seller: "owner".into(),
                list_price: coin(10, "earth"),
            },
        ]
    );
}

#[test]
fn map_offer_joins_key_and_offering() {
    let entry = Entry {
        key: "7".to_string(),
        value: Offering {
            amount: 3,
            contract: "token".into(),
            seller: "seller".into(),
            list_price: coin(9, "moon"),
        },
    };
    assert_eq!(
        map_offer(&entry),
        Offer {
            id: "7".into(),
            amount: 3,
            contract: "token".into(),
            seller: "seller".into(),
            list_price: coin(9, "moon"),
        }
    );
}

#[test]
fn query_answers_each_question() {
    let ledger = market_with(2);
    assert_eq!(
        query(&ledger, env(), QueryMsg::GetCount {}),
        Ok(QueryResponse::Count(CountResponse { count: 2 }))
    );
    assert_eq!(
        query(&ledger, env(), QueryMsg::GetFee {}),
        Ok(QueryResponse::Fee(FeeResponse { fee: Fraction::percent(2) }))
    );
    match query(&ledger, env(), QueryMsg::AllOffers { start_after: Some("1".into()), limit: Some(1) }) {
        Ok(QueryResponse::Offers(page)) => {
            assert_eq!(page.offers.len(), 1);
            assert_eq!(page.offers[0].id, "2");
        }
        _ => panic!("Must answer with offers"),
    }
    assert_eq!(
        query(&ledger, env(), QueryMsg::GetRental { rental_id: "1".into() }),
        Err(ContractError::RentalNotFound)
    );
}

#[test]
fn rental_query_of_an_unknown_rental() {
    let ledger = market_with(1);
    assert_eq!(query_rental(&ledger, "1".into()), Err(ContractError::RentalNotFound));
    assert_eq!(query_rental(&ledger, "".into()), Err(ContractError::RentalNotFound));
}
