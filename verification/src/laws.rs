//! What holds of the marketplace whatever the ledger, the caller and the time.

use vstd::prelude::*;
use crate::contract::{execute_outcome, query_outcome};
use crate::error::ContractError;
use crate::fraction::{lemma_mul_floor_at_most, Fraction, DECIMAL_FRACTIONAL};
use crate::host::{bank_send, CoinView, Env, MessageInfo, MessageInfoView};
use crate::model::{
    asset_transfer, buy, change_fee, clawback, end_rental, list, offers_page, page_limit, refuses,
    rent, rental_price, withdraw,
};
use crate::msg::{ExecuteMsg, QueryMsg, QueryResponseView};
use crate::state::{
    find_fund, highest, is_highest, lemma_highest_exists, next_rental_number, numbered,
    rental_number, Ledger, LedgerView, OfferingView, RentalView,
};
use crate::store::{lemma_page_within, page};
use crate::text::{decimal, lemma_decimal_parses_back, parse_u64_spec};

verus! {

/// The fund that is found for a denomination is of that denomination.
pub proof fn lemma_find_fund_denom(funds: Seq<CoinView>, denom: Seq<char>)
    ensures
        find_fund(funds, denom) matches Some(c) ==> c.denom == denom,
    decreases funds.len(),
{
    if funds.len() > 0 && funds[0].denom != denom {
        lemma_find_fund_denom(funds.drop_first(), denom);
    }
}

/// Every successful purchase takes the offering off the ledger, pays its seller
/// the list price times one less the fee, rounded down, in the denomination of
/// the price, and hands the buyer exactly the amount of the asset that was
/// offered.
pub proof fn law_purchase_settles(
    pre: LedgerView,
    info: MessageInfoView,
    offering_id: Seq<char>,
    payload: Option<Seq<u8>>,
)
    requires
        buy(pre, info, offering_id, payload) is Ok,
    ensures
        ({
            let (post, response) = buy(pre, info, offering_id, payload)->Ok_0;
            let off = pre.offerings[offering_id];
            let net = off.list_price.amount * (DECIMAL_FRACTIONAL - pre.state.fee.atomics)
                / (DECIMAL_FRACTIONAL as int);
            &&& !post.offerings.contains_key(offering_id)
            &&& post.rentals == pre.rentals
            &&& post.state == pre.state
            &&& 0 <= net <= off.list_price.amount
            &&& response.messages == seq![
                bank_send(off.seller, net as u128, off.list_price.denom),
                asset_transfer(off.contract, info.sender, off.amount, payload->0),
            ]
        }),
{
    let off = pre.offerings[offering_id];
    lemma_find_fund_denom(info.funds, off.list_price.denom);
    lemma_mul_floor_at_most(
        Fraction { atomics: (DECIMAL_FRACTIONAL - pre.state.fee.atomics) as u128 },
        off.list_price.amount as nat,
    );
}

/// After a successful purchase no page of the listing shows the offering,
/// whatever the cursor and the limit.
pub proof fn law_purchased_offering_is_not_listed(
    before: Ledger,
    after: Ledger,
    info: MessageInfoView,
    offering_id: Seq<char>,
    payload: Option<Seq<u8>>,
    start_after: Option<Seq<char>>,
    limit: Option<u32>,
)
    requires
        after.wf(),
        buy(before@, info, offering_id, payload) matches Ok(x) && x.0 == after@,
    ensures
        forall|i: int|
            0 <= i < offers_page(after.offerings.listing(), start_after, limit).len() ==> (
            #[trigger] offers_page(after.offerings.listing(), start_after, limit)[i]).id
                != offering_id,
{
    let s = after.offerings.listing();
    let p = page(s, start_after, page_limit(limit));
    assert forall|i: int| 0 <= i < offers_page(s, start_after, limit).len() implies (
    #[trigger] offers_page(s, start_after, limit)[i]).id != offering_id by {
        lemma_page_within(s, start_after, page_limit(limit), i);
        assert(offers_page(s, start_after, limit)[i].id == p[i].0);
    }
}

/// Nobody buys or rents their own offering: a caller who is the seller of an
/// offering is refused both, whatever is attached.
pub proof fn law_no_self_dealing(
    pre: LedgerView,
    now: u64,
    info: MessageInfoView,
    offering_id: Seq<char>,
    duration: u64,
    payload: Option<Seq<u8>>,
)
    requires
        pre.offerings.contains_key(offering_id),
        pre.offerings[offering_id].seller == info.sender,
    ensures
        refuses(buy(pre, info, offering_id, payload), ContractError::InvalidBuyer),
        refuses(rent(pre, now, info, offering_id, duration, payload), ContractError::InvalidRenter),
{
}

/// Only the owner changes the fee: anybody else is refused as unauthorized, and
/// after a change by the owner the ledger holds the new fee and nothing else
/// has changed.
pub proof fn law_fee_is_owner_controlled(pre: LedgerView, info: MessageInfoView, fee: Fraction)
    ensures
        info.sender != pre.state.owner ==> refuses(
            change_fee(pre, info, fee),
            ContractError::Unauthorized,
        ),
        info.sender == pre.state.owner ==> (change_fee(pre, info, fee) matches Ok(x)
            && x.0.state.fee == fee && x.0.state.owner == pre.state.owner
            && x.0.state.num_offerings == pre.state.num_offerings && x.0.offerings
            == pre.offerings && x.0.rentals == pre.rentals),
{
}

/// The fee that a query reports right after the owner has changed it is the
/// new fee.
pub proof fn law_changed_fee_is_reported(
    before: Ledger,
    after: Ledger,
    info: MessageInfoView,
    fee: Fraction,
)
    requires
        info.sender == before@.state.owner,
        change_fee(before@, info, fee) matches Ok(x) && x.0 == after@,
    ensures
        query_outcome(&after, QueryMsg::GetFee {}) matches Ok(answer) && answer
            == QueryResponseView::Fee(fee),
{
}

/// Rental pricing is exact: the price is the list price times the duration,
/// and the seller is paid the price less the fee on it, rounded down. The
/// renter gets the amount of the asset that is offered; the offering stays.
pub proof fn law_rental_pricing(
    pre: LedgerView,
    now: u64,
    info: MessageInfoView,
    offering_id: Seq<char>,
    duration: u64,
    payload: Option<Seq<u8>>,
)
    requires
        rent(pre, now, info, offering_id, duration, payload) is Ok,
    ensures
        ({
            let (post, response) = rent(pre, now, info, offering_id, duration, payload)->Ok_0;
            let off = pre.offerings[offering_id];
            let price = off.list_price.amount * duration;
            let fee_amount = price * pre.state.fee.atomics / (DECIMAL_FRACTIONAL as int);
            &&& rental_price(off.list_price.amount, duration) == price
            &&& 0 <= fee_amount <= price <= u128::MAX
            &&& response.messages == seq![
                bank_send(off.seller, (price - fee_amount) as u128, off.list_price.denom),
                asset_transfer(off.contract, info.sender, off.amount, payload->0),
            ]
            &&& post.offerings == pre.offerings
            &&& post.state == pre.state
        }),
{
}

/// A new rental is stored under the decimal numeral of the next rental number.
/// It starts now, ends `duration` later, is held by the caller and records the
/// amount of the offering as it is when the rental is made. No rental that was
/// stored before is replaced or lost.
pub proof fn law_rental_is_recorded(
    pre: LedgerView,
    now: u64,
    info: MessageInfoView,
    offering_id: Seq<char>,
    duration: u64,
    payload: Option<Seq<u8>>,
)
    requires
        rent(pre, now, info, offering_id, duration, payload) is Ok,
    ensures
        ({
            let post = rent(pre, now, info, offering_id, duration, payload)->Ok_0.0;
            let id = decimal(next_rental_number(pre.rentals)->Ok_0 as nat);
            &&& next_rental_number(pre.rentals) is Ok
            &&& !pre.rentals.contains_key(id)
            &&& post.rentals.dom() == pre.rentals.dom().insert(id)
            &&& forall|other: Seq<char>| #[trigger]
                pre.rentals.contains_key(other) ==> post.rentals[other] == pre.rentals[other]
            &&& post.rentals[id] == (RentalView {
                id,
                offering_id,
                renter: info.sender,
                start_time: now,
                end_time: (now + duration) as u64,
                amount: pre.offerings[offering_id].amount,
            })
            &&& duration > 0
            &&& now < now + duration <= u64::MAX
        }),
{
    let n = next_rental_number(pre.rentals)->Ok_0;
    let id = decimal(n as nat);
    lemma_decimal_parses_back(n as nat);
    assert(is_highest(pre.rentals, highest(pre.rentals))) by {
        lemma_highest_exists(pre.rentals);
    }
    assert(rental_number(id) == n);
    let post = rent(pre, now, info, offering_id, duration, payload)->Ok_0.0;
    assert(post.rentals.dom() =~= pre.rentals.dom().insert(id));
}

/// Every offering holds a positive amount at a positive price, and every
/// rental holds a positive amount and ends after it starts.
pub open spec fn records_sound(ledger: LedgerView) -> bool {
    &&& forall|id: Seq<char>| #[trigger]
        ledger.offerings.contains_key(id) ==> ledger.offerings[id].amount > 0
            && ledger.offerings[id].list_price.amount > 0
    &&& forall|id: Seq<char>| #[trigger]
        ledger.rentals.contains_key(id) ==> ledger.rentals[id].amount > 0
            && ledger.rentals[id].start_time < ledger.rentals[id].end_time
}

/// A fresh marketplace holds no record, so none that is unsound.
pub proof fn law_records_sound_at_first(info: MessageInfoView, fee: Fraction)
    ensures
        crate::model::instantiate(info, fee) matches Ok(x) && records_sound(x.0),
{
}

/// Every operation keeps the records sound: whatever is executed on a ledger
/// whose offerings hold positive amounts at positive prices and whose rentals
/// hold positive amounts and end after they start, the ledger that follows is
/// such a ledger too.
pub proof fn law_records_stay_sound(
    pre: LedgerView,
    env: Env,
    info: MessageInfo,
    msg: ExecuteMsg,
)
    requires
        records_sound(pre),
    ensures
        execute_outcome(pre, env, info, msg) matches Ok(x) ==> records_sound(x.0),
{
}

/// Nothing is listed for nothing and nothing is rented for no time: a deposit
/// of no units, a list price of zero and a rental of duration zero are refused,
/// each with its own error.
pub proof fn law_empty_terms_are_refused(
    pre: LedgerView,
    now: u64,
    info: MessageInfoView,
    seller: Seq<char>,
    amount: u128,
    list_price: CoinView,
    offering_id: Seq<char>,
    payload: Option<Seq<u8>>,
)
    ensures
        amount == 0 ==> refuses(
            list(pre, info, seller, amount, list_price),
            ContractError::InvalidAmount,
        ),
        amount > 0 && list_price.amount == 0 ==> refuses(
            list(pre, info, seller, amount, list_price),
            ContractError::InvalidPrice,
        ),
        pre.offerings.contains_key(offering_id) && pre.offerings[offering_id].seller
            != info.sender ==> refuses(
            rent(pre, now, info, offering_id, 0, payload),
            ContractError::InvalidDuration,
        ),
{
}

/// Every offering is stored under the decimal numeral of a number that the
/// counter of the registry has reached.
pub open spec fn offerings_counted(ledger: LedgerView) -> bool {
    forall|id: Seq<char>| #[trigger]
        ledger.offerings.contains_key(id) ==> parse_u64_spec(id) is Some && parse_u64_spec(
            id,
        )->0 <= ledger.state.num_offerings
}

/// A fresh marketplace counts no offering and holds none.
pub proof fn law_offerings_counted_at_first(info: MessageInfoView, fee: Fraction)
    ensures
        crate::model::instantiate(info, fee) matches Ok(x) && offerings_counted(x.0),
{
}

/// No operation stores an offering under a number that the counter has not
/// reached.
pub proof fn law_offerings_stay_counted(
    pre: LedgerView,
    env: Env,
    info: MessageInfo,
    msg: ExecuteMsg,
)
    requires
        offerings_counted(pre),
    ensures
        execute_outcome(pre, env, info, msg) matches Ok(x) ==> offerings_counted(x.0),
{
    match msg {
        ExecuteMsg::ReceiveRwa(wrapper) => {
            if pre.state.num_offerings < u64::MAX {
                lemma_decimal_parses_back((pre.state.num_offerings + 1) as nat);
            }
        },
        _ => {},
    }
}

/// No operation stores a rental under an id that is no numeral, so that the
/// next rental can always be numbered: a marketplace that was set up and then
/// only operated never refuses a rental for an invalid id.
pub proof fn law_rentals_stay_numbered(
    pre: LedgerView,
    env: Env,
    info: MessageInfo,
    msg: ExecuteMsg,
)
    requires
        numbered(pre.rentals),
    ensures
        !refuses(execute_outcome(pre, env, info, msg), ContractError::InvalidId),
        execute_outcome(pre, env, info, msg) matches Ok(x) ==> numbered(x.0.rentals),
{
    match msg {
        ExecuteMsg::RentRwa { offering_id, duration } => {
            if next_rental_number(pre.rentals) is Ok {
                lemma_decimal_parses_back(next_rental_number(pre.rentals)->Ok_0 as nat);
            }
        },
        _ => {},
    }
}

/// A fresh marketplace holds no rental.
pub proof fn law_rentals_numbered_at_first(info: MessageInfoView, fee: Fraction)
    ensures
        crate::model::instantiate(info, fee) matches Ok(x) && numbered(x.0.rentals),
{
}

/// Listing never replaces an offering: where the stored offerings are within
/// the count, the new one gets an id that none of them has, and all of them
/// stay as they are.
pub proof fn law_listing_adds_an_offering(
    pre: LedgerView,
    info: MessageInfoView,
    seller: Seq<char>,
    amount: u128,
    list_price: CoinView,
)
    requires
        offerings_counted(pre),
        list(pre, info, seller, amount, list_price) is Ok,
    ensures
        ({
            let post = list(pre, info, seller, amount, list_price)->Ok_0.0;
            let id = decimal((pre.state.num_offerings + 1) as nat);
            &&& !pre.offerings.contains_key(id)
            &&& post.offerings.dom() == pre.offerings.dom().insert(id)
            &&& forall|other: Seq<char>| #[trigger]
                pre.offerings.contains_key(other) ==> post.offerings[other]
                    == pre.offerings[other]
            &&& post.offerings[id] == (OfferingView {
                amount,
                contract: info.sender,
                seller,
                list_price,
            })
            &&& amount > 0
            &&& list_price.amount > 0
            &&& post.state.num_offerings == pre.state.num_offerings + 1
            &&& post.rentals == pre.rentals
        }),
{
    let id = decimal((pre.state.num_offerings + 1) as nat);
    lemma_decimal_parses_back((pre.state.num_offerings + 1) as nat);
    let post = list(pre, info, seller, amount, list_price)->Ok_0.0;
    assert(post.offerings.dom() =~= pre.offerings.dom().insert(id));
}

/// Before its end time a rental can be neither ended nor clawed back: ending
/// is refused as not expired for every caller, and so is clawing back for the
/// seller of the offering.
pub proof fn law_not_before_expiry(
    pre: LedgerView,
    now: u64,
    info: MessageInfoView,
    rental_id: Seq<char>,
    payload: Option<Seq<u8>>,
)
    requires
        pre.rentals.contains_key(rental_id),
        now < pre.rentals[rental_id].end_time,
    ensures
        refuses(end_rental(pre, now, info, rental_id, payload), ContractError::RentalNotExpired),
        ({
            let offering_id = pre.rentals[rental_id].offering_id;
            pre.offerings.contains_key(offering_id) && pre.offerings[offering_id].seller
                == info.sender ==> refuses(
                clawback(pre, now, info, rental_id, payload),
                ContractError::RentalNotExpired,
            )
        }),
{
}

/// From its end time on a rental can be ended by its renter and clawed back by
/// the seller of its offering, as long as that offering is stored: either
/// takes the rental off the ledger and sends the rented amount to the seller.
pub proof fn law_from_expiry_on(
    pre: LedgerView,
    now: u64,
    info: MessageInfoView,
    rental_id: Seq<char>,
    msg: Seq<u8>,
)
    requires
        pre.rentals.contains_key(rental_id),
        pre.offerings.contains_key(pre.rentals[rental_id].offering_id),
        now >= pre.rentals[rental_id].end_time,
    ensures
        ({
            let rental = pre.rentals[rental_id];
            let off = pre.offerings[rental.offering_id];
            let sent = seq![asset_transfer(off.contract, off.seller, rental.amount, msg)];
            &&& info.sender == rental.renter ==> (end_rental(pre, now, info, rental_id, Some(msg))
                matches Ok(x) && x.0.rentals == pre.rentals.remove(rental_id) && x.0.offerings
                == pre.offerings && x.0.state == pre.state && x.1.messages == sent)
            &&& info.sender == off.seller ==> (clawback(pre, now, info, rental_id, Some(msg))
                matches Ok(x) && x.0.rentals == pre.rentals.remove(rental_id) && x.0.offerings
                == pre.offerings && x.0.state == pre.state && x.1.messages == sent)
        }),
{
}

/// A rental is concluded once: after it has been ended or clawed back, ending
/// it and clawing it back are both refused as not found, whoever asks and
/// whenever.
pub proof fn law_concluded_once(
    pre: LedgerView,
    now: u64,
    info: MessageInfoView,
    rental_id: Seq<char>,
    payload: Option<Seq<u8>>,
    later: u64,
    other: MessageInfoView,
    other_payload: Option<Seq<u8>>,
)
    ensures
        end_rental(pre, now, info, rental_id, payload) matches Ok(x) ==> {
            &&& !x.0.rentals.contains_key(rental_id)
            &&& refuses(
                end_rental(x.0, later, other, rental_id, other_payload),
                ContractError::RentalNotFound,
            )
            &&& refuses(
                clawback(x.0, later, other, rental_id, other_payload),
                ContractError::RentalNotFound,
            )
        },
        clawback(pre, now, info, rental_id, payload) matches Ok(x) ==> {
            &&& !x.0.rentals.contains_key(rental_id)
            &&& refuses(
                end_rental(x.0, later, other, rental_id, other_payload),
                ContractError::RentalNotFound,
            )
            &&& refuses(
                clawback(x.0, later, other, rental_id, other_payload),
                ContractError::RentalNotFound,
            )
        },
{
}

/// A withdrawal takes the offering off the ledger and hands its seller the
/// whole amount.
pub proof fn law_withdrawal_returns_asset(
    pre: LedgerView,
    info: MessageInfoView,
    offering_id: Seq<char>,
    payload: Option<Seq<u8>>,
)
    requires
        withdraw(pre, info, offering_id, payload) is Ok,
    ensures
        ({
            let (post, response) = withdraw(pre, info, offering_id, payload)->Ok_0;
            let off = pre.offerings[offering_id];
            &&& info.sender == off.seller
            &&& !post.offerings.contains_key(offering_id)
            &&& response.messages == seq![
                asset_transfer(off.contract, off.seller, off.amount, payload->0),
            ]
        }),
{
}

/// An offering changes hands once: after it has been bought or withdrawn,
/// buying, withdrawing and renting it are all refused as not found, whoever
/// asks and whatever is attached.
pub proof fn law_offering_goes_once(
    pre: LedgerView,
    info: MessageInfoView,
    offering_id: Seq<char>,
    payload: Option<Seq<u8>>,
    later: u64,
    other: MessageInfoView,
    duration: u64,
    other_payload: Option<Seq<u8>>,
)
    ensures
        buy(pre, info, offering_id, payload) matches Ok(x) ==> {
            &&& refuses(buy(x.0, other, offering_id, other_payload), ContractError::NotFound)
            &&& refuses(withdraw(x.0, other, offering_id, other_payload), ContractError::NotFound)
            &&& refuses(
                rent(x.0, later, other, offering_id, duration, other_payload),
                ContractError::NotFound,
            )
        },
        withdraw(pre, info, offering_id, payload) matches Ok(x) ==> {
            &&& refuses(buy(x.0, other, offering_id, other_payload), ContractError::NotFound)
            &&& refuses(withdraw(x.0, other, offering_id, other_payload), ContractError::NotFound)
            &&& refuses(
                rent(x.0, later, other, offering_id, duration, other_payload),
                ContractError::NotFound,
            )
        },
{
}

/// A page never holds more offers than the limit that was asked for, more than
/// 10 where none was asked for, or more than 30 in any case.
pub proof fn law_page_is_clamped(ledger: Ledger, start_after: Option<Seq<char>>, limit: Option<u32>)
    requires
        ledger.wf(),
    ensures
        offers_page(ledger.offerings.listing(), start_after, limit).len() <= 30,
        limit is None ==> offers_page(ledger.offerings.listing(), start_after, limit).len() <= 10,
        limit matches Some(n) ==> offers_page(ledger.offerings.listing(), start_after, limit).len()
            <= n,
{
    let s = ledger.offerings.listing();
    let p = page(s, start_after, page_limit(limit));
    if p.len() > 0 {
        lemma_page_within(s, start_after, page_limit(limit), 0);
    }
}

} // verus!
