//! The entry points of the marketplace: setting it up, executing an operation,
//! answering a query.

use vstd::prelude::*;
use crate::error::ContractError;
use crate::fraction::Fraction;
use crate::host::{views, Env, MessageInfo, Response, TransferMsg};
use crate::model::{offer_of, offers_page, rental_info, DEFAULT_LIMIT, MAX_LIMIT};
use crate::msg::{
    CountResponse, ExecuteMsg, FeeResponse, InstantiateMsg, Offer, OffersResponse, QueryMsg,
    QueryResponse, QueryResponseView, ReceiveMsg, RentalInfo, RentalResponse,
};
use crate::engine::agrees;
use crate::state::{increment_offerings, Ledger, LedgerView, Offering, Rental, State};
use crate::store::Entry;
use crate::text::decimal_string;

verus! {

/// `cosmwasm_std::StdError`, carried through without being looked into.
#[verifier::external_type_specification]
#[verifier::external_body]
pub struct ExStdError(cosmwasm_std::StdError);

/// The JSON text of the CW20 message that transfers `amount` to `recipient`, or
/// nothing where the message cannot be written as JSON.
pub uninterp spec fn cw20_transfer_json(recipient: Seq<char>, amount: u128) -> Option<Seq<u8>>;

/// Calls `cosmwasm_std::to_json_binary` on `cw20::Cw20ExecuteMsg::Transfer`
/// with this recipient and amount. The call depends on nothing else, so what
/// it returns is the named encoding of the two.
#[verifier::external_body]
fn cw20_transfer_to_json(recipient: &str, amount: u128) -> (r: Result<
    Vec<u8>,
    cosmwasm_std::StdError,
>)
    ensures
        match r {
            Ok(bytes) => cw20_transfer_json(recipient@, amount) == Some(bytes@),
            Err(_) => cw20_transfer_json(recipient@, amount) is None,
        },
{
    let msg = cw20::Cw20ExecuteMsg::Transfer {
        recipient: recipient.to_string(),
        amount: cosmwasm_std::Uint128::new(amount),
    };
    cosmwasm_std::to_json_binary(&msg).map(|b| b.0)
}

/// The instruction for an asset custodian to transfer `amount` to `recipient`.
pub fn transfer_payload(recipient: &str, amount: u128) -> (r: Option<Vec<u8>>)
    ensures
        crate::engine::payload_view(r) == cw20_transfer_json(recipient@, amount),
{
    match cw20_transfer_to_json(recipient, amount) {
        Ok(bytes) => Some(bytes),
        Err(_) => None,
    }
}

/// The instruction that hands the asset of an offering to `recipient`; nothing
/// where the offering is not stored.
pub open spec fn delivery_payload(
    pre: LedgerView,
    recipient: Seq<char>,
    offering_id: Seq<char>,
) -> Option<Seq<u8>> {
    if pre.offerings.contains_key(offering_id) {
        cw20_transfer_json(recipient, pre.offerings[offering_id].amount)
    } else {
        None
    }
}

/// The instruction that hands the asset of an offering back to its seller;
/// nothing where the offering is not stored.
pub open spec fn withdrawal_payload(pre: LedgerView, offering_id: Seq<char>) -> Option<Seq<u8>> {
    if pre.offerings.contains_key(offering_id) {
        cw20_transfer_json(
            pre.offerings[offering_id].seller,
            pre.offerings[offering_id].amount,
        )
    } else {
        None
    }
}

/// The instruction that hands the asset of a rental back to the seller of its
/// offering; nothing where the rental or the offering is not stored.
pub open spec fn return_payload(pre: LedgerView, rental_id: Seq<char>) -> Option<Seq<u8>> {
    if pre.rentals.contains_key(rental_id) && pre.offerings.contains_key(
        pre.rentals[rental_id].offering_id,
    ) {
        cw20_transfer_json(
            pre.offerings[pre.rentals[rental_id].offering_id].seller,
            pre.rentals[rental_id].amount,
        )
    } else {
        None
    }
}

/// Encodes the instruction that hands the asset of an offering to `recipient`.
fn encode_delivery(ledger: &Ledger, recipient: &str, offering_id: &str) -> (r: Option<Vec<u8>>)
    requires
        ledger.wf(),
    ensures
        crate::engine::payload_view(r) == delivery_payload(ledger@, recipient@, offering_id@),
{
    match ledger.offerings.get(offering_id) {
        Some(off) => transfer_payload(recipient, off.amount),
        None => None,
    }
}

/// Encodes the instruction that hands the asset of a rental back to the seller.
fn encode_return(ledger: &Ledger, rental_id: &str) -> (r: Option<Vec<u8>>)
    requires
        ledger.wf(),
    ensures
        crate::engine::payload_view(r) == return_payload(ledger@, rental_id@),
{
    match ledger.rentals.get(rental_id) {
        Some(rental) => match ledger.offerings.get(rental.offering_id.as_str()) {
            Some(off) => transfer_payload(off.seller.as_str(), rental.amount),
            None => None,
        },
        None => None,
    }
}

/// Sets the marketplace up with the caller as its owner.
pub fn instantiate(env: Env, info: MessageInfo, msg: InstantiateMsg) -> (r: Result<
    (Ledger, Response),
    ContractError,
>)
    ensures
        r matches Ok(x) && x.0.wf() && crate::model::instantiate(info@, msg.fee) == Ok::<
            _,
            ContractError,
        >((x.0@, x.1@)),
{
    let state = State { num_offerings: 0, fee: msg.fee, owner: info.sender };
    let ledger = Ledger::new(state);
    let res = Response::new();
    assert(ledger@ =~= crate::model::instantiate(info@, msg.fee)->Ok_0.0);
    Ok((ledger, res))
}

/// Sells an offering to the caller.
pub fn execute_buy(ledger: &mut Ledger, info: MessageInfo, offering_id: String) -> (r: Result<
    Response,
    ContractError,
>)
    requires
        old(ledger).wf(),
    ensures
        final(ledger).wf(),
        agrees(
            r,
            old(ledger)@,
            final(ledger)@,
            crate::model::buy(
                old(ledger)@,
                info@,
                offering_id@,
                delivery_payload(old(ledger)@, info.sender@, offering_id@),
            ),
        ),
{
    let payload = encode_delivery(ledger, info.sender.as_str(), offering_id.as_str());
    crate::engine::buy(ledger, info, offering_id.as_str(), payload)
}

/// Hands an offering's asset back to its seller.
pub fn execute_withdraw(ledger: &mut Ledger, info: MessageInfo, offering_id: String) -> (r:
    Result<Response, ContractError>)
    requires
        old(ledger).wf(),
    ensures
        final(ledger).wf(),
        agrees(
            r,
            old(ledger)@,
            final(ledger)@,
            crate::model::withdraw(
                old(ledger)@,
                info@,
                offering_id@,
                withdrawal_payload(old(ledger)@, offering_id@),
            ),
        ),
{
    let payload = match ledger.offerings.get(offering_id.as_str()) {
        Some(off) => transfer_payload(off.seller.as_str(), off.amount),
        None => None,
    };
    crate::engine::withdraw(ledger, info, offering_id.as_str(), payload)
}

/// Lists what a custodian reports as deposited.
pub fn execute_receive_rwa(ledger: &mut Ledger, info: MessageInfo, wrapper: ReceiveMsg) -> (r:
    Result<Response, ContractError>)
    requires
        old(ledger).wf(),
    ensures
        final(ledger).wf(),
        agrees(
            r,
            old(ledger)@,
            final(ledger)@,
            crate::model::list(
                old(ledger)@,
                info@,
                wrapper.sender@,
                wrapper.amount,
                wrapper.msg.list_price@,
            ),
        ),
{
    if wrapper.amount == 0 {
        return Err(ContractError::InvalidAmount);
    }
    if wrapper.msg.list_price.amount == 0 {
        return Err(ContractError::InvalidPrice);
    }
    let number: u64 = match increment_offerings(ledger) {
        Ok(n) => n,
        Err(e) => {
            return Err(e);
        },
    };
    let id = decimal_string(number as u128);
    let price_string = crate::engine::price_string(&wrapper.msg.list_price);
    let res = Response::new().add_attribute("action", "sell_rwa").add_attribute(
        "offering_id",
        id.as_str(),
    ).add_attribute("rwa_contract", info.sender.as_str()).add_attribute(
        "seller",
        wrapper.sender.as_str(),
    ).add_attribute("list_price", price_string.as_str()).add_attribute(
        "amount",
        decimal_string(wrapper.amount).as_str(),
    );
    let off = Offering {
        contract: info.sender,
        amount: wrapper.amount,
        seller: wrapper.sender,
        list_price: wrapper.msg.list_price,
    };
    ledger.offerings.insert(id, off);
    proof {
        let outcome = crate::model::list(
            old(ledger)@,
            info@,
            wrapper.sender@,
            wrapper.amount,
            wrapper.msg.list_price@,
        );
        assert(res@ =~= outcome->Ok_0.1);
        assert(ledger@ =~= outcome->Ok_0.0);
    }
    Ok(res)
}

/// Pays fees out to the owner.
pub fn execute_withdraw_fees(
    ledger: &mut Ledger,
    info: MessageInfo,
    amount: u128,
    denom: String,
) -> (r: Result<Response, ContractError>)
    requires
        old(ledger).wf(),
    ensures
        final(ledger).wf(),
        agrees(
            r,
            old(ledger)@,
            final(ledger)@,
            crate::model::withdraw_fees(old(ledger)@, info@, amount, denom@),
        ),
{
    if ledger.state.owner != info.sender {
        return Err(ContractError::Unauthorized);
    }
    let transfer = TransferMsg::send(ledger.state.owner.as_str(), amount, denom.as_str());
    let res = Response::new().add_message(transfer);
    proof {
        let outcome = crate::model::withdraw_fees(old(ledger)@, info@, amount, denom@);
        assert(res@ =~= outcome->Ok_0.1);
    }
    Ok(res)
}

/// Sets a new fee at the request of the owner.
pub fn execute_change_fee(ledger: &mut Ledger, info: MessageInfo, fee: Fraction) -> (r: Result<
    Response,
    ContractError,
>)
    requires
        old(ledger).wf(),
    ensures
        final(ledger).wf(),
        agrees(
            r,
            old(ledger)@,
            final(ledger)@,
            crate::model::change_fee(old(ledger)@, info@, fee),
        ),
{
    if ledger.state.owner != info.sender {
        return Err(ContractError::Unauthorized);
    }
    ledger.state.fee = fee;
    let res = Response::new().add_attribute("action", "change_fee").add_attribute(
        "fee",
        fee.to_text().as_str(),
    );
    proof {
        let outcome = crate::model::change_fee(old(ledger)@, info@, fee);
        assert(res@ =~= outcome->Ok_0.1);
        assert(ledger@ =~= outcome->Ok_0.0);
    }
    Ok(res)
}

/// Leases an offering's asset to the caller.
pub fn execute_rent_rwa(
    ledger: &mut Ledger,
    env: Env,
    info: MessageInfo,
    offering_id: String,
    duration: u64,
) -> (r: Result<Response, ContractError>)
    requires
        old(ledger).wf(),
    ensures
        final(ledger).wf(),
        agrees(
            r,
            old(ledger)@,
            final(ledger)@,
            crate::model::rent(
                old(ledger)@,
                env.block_time,
                info@,
                offering_id@,
                duration,
                delivery_payload(old(ledger)@, info.sender@, offering_id@),
            ),
        ),
{
    let payload = encode_delivery(ledger, info.sender.as_str(), offering_id.as_str());
    crate::engine::rent(ledger, env, info, offering_id.as_str(), duration, payload)
}

/// Ends an expired rental at the request of its renter.
pub fn execute_end_rental(
    ledger: &mut Ledger,
    env: Env,
    info: MessageInfo,
    rental_id: String,
) -> (r: Result<Response, ContractError>)
    requires
        old(ledger).wf(),
    ensures
        final(ledger).wf(),
        agrees(
            r,
            old(ledger)@,
            final(ledger)@,
            crate::model::end_rental(
                old(ledger)@,
                env.block_time,
                info@,
                rental_id@,
                return_payload(old(ledger)@, rental_id@),
            ),
        ),
{
    let payload = encode_return(ledger, rental_id.as_str());
    crate::engine::end_rental(ledger, env, info, rental_id.as_str(), payload)
}

/// Takes the asset of an expired rental back at the request of the seller.
pub fn execute_clawback(
    ledger: &mut Ledger,
    env: Env,
    info: MessageInfo,
    rental_id: String,
) -> (r: Result<Response, ContractError>)
    requires
        old(ledger).wf(),
    ensures
        final(ledger).wf(),
        agrees(
            r,
            old(ledger)@,
            final(ledger)@,
            crate::model::clawback(
                old(ledger)@,
                env.block_time,
                info@,
                rental_id@,
                return_payload(old(ledger)@, rental_id@),
            ),
        ),
{
    let payload = encode_return(ledger, rental_id.as_str());
    crate::engine::clawback(ledger, env, info, rental_id.as_str(), payload)
}

/// What executing a message comes to.
pub open spec fn execute_outcome(
    pre: LedgerView,
    env: Env,
    info: MessageInfo,
    msg: ExecuteMsg,
) -> crate::model::Outcome {
    match msg {
        ExecuteMsg::Buy { offering_id } => crate::model::buy(
            pre,
            info@,
            offering_id@,
            delivery_payload(pre, info.sender@, offering_id@),
        ),
        ExecuteMsg::WithdrawRwa { offering_id } => crate::model::withdraw(
            pre,
            info@,
            offering_id@,
            withdrawal_payload(pre, offering_id@),
        ),
        ExecuteMsg::ReceiveRwa(wrapper) => crate::model::list(
            pre,
            info@,
            wrapper.sender@,
            wrapper.amount,
            wrapper.msg.list_price@,
        ),
        ExecuteMsg::WithdrawFees { amount, denom } => crate::model::withdraw_fees(
            pre,
            info@,
            amount,
            denom@,
        ),
        ExecuteMsg::ChangeFee { fee } => crate::model::change_fee(pre, info@, fee),
        ExecuteMsg::RentRwa { offering_id, duration } => crate::model::rent(
            pre,
            env.block_time,
            info@,
            offering_id@,
            duration,
            delivery_payload(pre, info.sender@, offering_id@),
        ),
        ExecuteMsg::EndRental { rental_id } => crate::model::end_rental(
            pre,
            env.block_time,
            info@,
            rental_id@,
            return_payload(pre, rental_id@),
        ),
        ExecuteMsg::Clawback { rental_id } => crate::model::clawback(
            pre,
            env.block_time,
            info@,
            rental_id@,
            return_payload(pre, rental_id@),
        ),
    }
}

/// Executes one operation on the ledger.
pub fn execute(ledger: &mut Ledger, env: Env, info: MessageInfo, msg: ExecuteMsg) -> (r: Result<
    Response,
    ContractError,
>)
    requires
        old(ledger).wf(),
    ensures
        final(ledger).wf(),
        agrees(r, old(ledger)@, final(ledger)@, execute_outcome(old(ledger)@, env, info, msg)),
{
    match msg {
        ExecuteMsg::Buy { offering_id } => execute_buy(ledger, info, offering_id),
        ExecuteMsg::WithdrawRwa { offering_id } => execute_withdraw(ledger, info, offering_id),
        ExecuteMsg::ReceiveRwa(msg) => execute_receive_rwa(ledger, info, msg),
        ExecuteMsg::WithdrawFees { amount, denom } => execute_withdraw_fees(
            ledger,
            info,
            amount,
            denom,
        ),
        ExecuteMsg::ChangeFee { fee } => execute_change_fee(ledger, info, fee),
        ExecuteMsg::RentRwa { offering_id, duration } => execute_rent_rwa(
            ledger,
            env,
            info,
            offering_id,
            duration,
        ),
        ExecuteMsg::EndRental { rental_id } => execute_end_rental(ledger, env, info, rental_id),
        ExecuteMsg::Clawback { rental_id } => execute_clawback(ledger, env, info, rental_id),
    }
}

/// How many offerings were ever listed.
pub fn query_count(ledger: &Ledger) -> (r: CountResponse)
    ensures
        r.count == ledger@.state.num_offerings,
{
    CountResponse { count: ledger.state.num_offerings }
}

/// The current fee.
pub fn query_fee(ledger: &Ledger) -> (r: FeeResponse)
    ensures
        r.fee == ledger@.state.fee,
{
    FeeResponse { fee: ledger.state.fee }
}

/// The cursor of a query as a key.
pub open spec fn cursor_view(start_after: Option<String>) -> Option<Seq<char>> {
    match start_after {
        Some(s) => Some(s@),
        None => None,
    }
}

/// An offering as a query reports it.
pub fn map_offer(entry: &Entry<Offering>) -> (r: Offer)
    ensures
        r@ == offer_of((entry.key@, entry.value@)),
{
    Offer {
        id: entry.key.clone(),
        amount: entry.value.amount,
        contract: entry.value.contract.clone(),
        seller: entry.value.seller.clone(),
        list_price: entry.value.list_price.clone(),
    }
}

/// One page of the offerings, in ascending order of their ids: those after
/// `start_after`, `limit` of them at most, 10 where no limit is given, and
/// never more than 30.
pub fn query_all(ledger: &Ledger, start_after: Option<String>, limit: Option<u32>) -> (r:
    OffersResponse)
    requires
        ledger.wf(),
    ensures
        r@ == offers_page(ledger.offerings.listing(), cursor_view(start_after), limit),
{
    let asked: u32 = match limit {
        Some(n) => n,
        None => DEFAULT_LIMIT,
    };
    let limit_: usize = if asked <= MAX_LIMIT {
        asked as usize
    } else {
        MAX_LIMIT as usize
    };
    let bounds = match &start_after {
        Some(s) => ledger.offerings.page_bounds(Some(s.as_str()), limit_),
        None => ledger.offerings.page_bounds(None, limit_),
    };
    let lo: usize = bounds.0;
    let hi: usize = bounds.1;
    let ghost s = ledger.offerings.listing();
    let ghost f = |e: (Seq<char>, crate::state::OfferingView)| offer_of(e);
    let mut offers: Vec<Offer> = Vec::new();
    let mut i: usize = lo;
    assert(views(offers@) =~= s.subrange(lo as int, i as int).map_values(f));
    while i < hi
        invariant
            s == ledger.offerings.listing(),
            lo <= i <= hi <= s.len(),
            f == |e: (Seq<char>, crate::state::OfferingView)| offer_of(e),
            views(offers@) == s.subrange(lo as int, i as int).map_values(f),
        decreases hi - i,
    {
        let ghost before = views(offers@);
        let offer = map_offer(ledger.offerings.entry(i));
        offers.push(offer);
        assert(views(offers@) =~= before.push(f(s[i as int])));
        assert(s.subrange(lo as int, i + 1) =~= s.subrange(lo as int, i as int).push(s[i as int]));
        i += 1;
        assert(views(offers@) =~= s.subrange(lo as int, i as int).map_values(f));
    }
    OffersResponse { offers }
}

/// A rental, with the amount of the offering it refers to.
pub fn query_rental(ledger: &Ledger, rental_id: String) -> (r: Result<
    RentalResponse,
    ContractError,
>)
    requires
        ledger.wf(),
    ensures
        match rental_info(ledger@, rental_id@) {
            Ok(info) => r matches Ok(x) && x@ == info,
            Err(e) => r == Err::<RentalResponse, ContractError>(e),
        },
{
    let rental: &Rental = match ledger.rentals.get(rental_id.as_str()) {
        Some(x) => x,
        None => {
            return Err(ContractError::RentalNotFound);
        },
    };
    let off: &Offering = match ledger.offerings.get(rental.offering_id.as_str()) {
        Some(o) => o,
        None => {
            return Err(ContractError::NotFound);
        },
    };
    Ok(
        RentalResponse {
            rental: RentalInfo {
                id: rental.id.clone(),
                offering_id: rental.offering_id.clone(),
                renter: rental.renter.clone(),
                start_time: rental.start_time,
                end_time: rental.end_time,
                amount: off.amount,
            },
        },
    )
}

/// What a query is answered with.
pub open spec fn query_outcome(ledger: &Ledger, msg: QueryMsg) -> Result<
    QueryResponseView,
    ContractError,
> {
    match msg {
        QueryMsg::GetCount {} => Ok(QueryResponseView::Count(ledger@.state.num_offerings)),
        QueryMsg::GetFee {} => Ok(QueryResponseView::Fee(ledger@.state.fee)),
        QueryMsg::AllOffers { start_after, limit } => Ok(
            QueryResponseView::Offers(
                offers_page(ledger.offerings.listing(), cursor_view(start_after), limit),
            ),
        ),
        QueryMsg::GetRental { rental_id } => match rental_info(ledger@, rental_id@) {
            Ok(info) => Ok(QueryResponseView::Rental(info)),
            Err(e) => Err(e),
        },
    }
}

/// Answers a query. The ledger stays as it is.
pub fn query(ledger: &Ledger, env: Env, msg: QueryMsg) -> (r: Result<QueryResponse, ContractError>)
    requires
        ledger.wf(),
    ensures
        match query_outcome(ledger, msg) {
            Ok(answer) => r matches Ok(x) && x@ == answer,
            Err(e) => r == Err::<QueryResponse, ContractError>(e),
        },
{
    match msg {
        QueryMsg::GetCount {} => Ok(QueryResponse::Count(query_count(ledger))),
        QueryMsg::GetFee {} => Ok(QueryResponse::Fee(query_fee(ledger))),
        QueryMsg::AllOffers { start_after, limit } => Ok(
            QueryResponse::Offers(query_all(ledger, start_after, limit)),
        ),
        QueryMsg::GetRental { rental_id } => match query_rental(ledger, rental_id) {
            Ok(rental) => Ok(QueryResponse::Rental(rental)),
            Err(e) => Err(e),
        },
    }
}

} // verus!
