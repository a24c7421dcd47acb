//! The operations that move assets, each given the instruction for the asset
//! custodian that its transfer carries.
//!
//! An operation either changes the ledger and answers with the transfers that
//! must follow, or refuses with an error and leaves the ledger as it was.

use vstd::prelude::*;
use vstd::string::*;
use crate::error::ContractError;
use crate::fraction::lemma_mul_floor_at_most;
use crate::host::{Coin, Env, MessageInfo, Response, TransferMsg};
use crate::model::{price_text, Outcome};
use crate::state::{get_fund, increment_rentals, Ledger, LedgerView, Offering, Rental};
use crate::text::decimal_string;

verus! {

/// What the operation returned and what became of the ledger are what the
/// state machine says.
pub open spec fn agrees(
    r: Result<Response, ContractError>,
    pre: LedgerView,
    post: LedgerView,
    outcome: Outcome,
) -> bool {
    match outcome {
        Ok((next, response)) => r matches Ok(x) && x@ == response && post == next,
        Err(e) => r == Err::<Response, ContractError>(e) && post == pre,
    }
}

/// The bytes of an instruction, where there is one.
pub open spec fn payload_view(payload: Option<Vec<u8>>) -> Option<Seq<u8>> {
    match payload {
        Some(bytes) => Some(bytes@),
        None => None,
    }
}

/// A price as an attribute shows it.
pub fn price_string(price: &Coin) -> (r: String)
    ensures
        r@ == price_text(price@),
{
    let mut r = decimal_string(price.amount);
    r.append(price.denom.as_str());
    r
}

/// Sells the offering to the caller.
pub fn buy(
    ledger: &mut Ledger,
    info: MessageInfo,
    offering_id: &str,
    payload: Option<Vec<u8>>,
) -> (r: Result<Response, ContractError>)
    requires
        old(ledger).wf(),
    ensures
        final(ledger).wf(),
        agrees(
            r,
            old(ledger)@,
            final(ledger)@,
            crate::model::buy(old(ledger)@, info@, offering_id@, payload_view(payload)),
        ),
{
    let off: Offering = match ledger.offerings.get(offering_id) {
        Some(o) => o.clone(),
        None => {
            return Err(ContractError::NotFound);
        },
    };
    if off.seller == info.sender {
        return Err(ContractError::InvalidBuyer);
    }
    let fund: Coin = match get_fund(info.funds, off.list_price.denom.clone()) {
        Ok(c) => c,
        Err(e) => {
            return Err(e);
        },
    };
    if fund.amount < off.list_price.amount {
        return Err(ContractError::InsufficientFunds);
    }
    let keep = match ledger.state.fee.complement() {
        Some(k) => k,
        None => {
            return Err(ContractError::Overflow);
        },
    };
    proof {
        lemma_mul_floor_at_most(keep, off.list_price.amount as nat);
    }
    let net: u128 = match keep.checked_mul_floor(off.list_price.amount) {
        Some(n) => n,
        None => {
            return Err(ContractError::Overflow);
        },
    };
    let msg: Vec<u8> = match payload {
        Some(m) => m,
        None => {
            return Err(ContractError::Encoding);
        },
    };
    ledger.offerings.remove(offering_id);
    let res = Response::new().add_attribute("action", "buy_rwa").add_attribute(
        "buyer",
        info.sender.as_str(),
    ).add_attribute("seller", off.seller.as_str()).add_attribute(
        "paid_price",
        price_string(&fund).as_str(),
    ).add_attribute("amount", decimal_string(off.amount).as_str()).add_attribute(
        "rwa_contract",
        off.contract.as_str(),
    ).add_message(
        TransferMsg::send(off.seller.as_str(), net, fund.denom.as_str()),
    ).add_message(
        TransferMsg::asset(off.contract.as_str(), info.sender.as_str(), off.amount, msg),
    );
    proof {
        let outcome = crate::model::buy(old(ledger)@, info@, offering_id@, payload_view(payload));
        assert(outcome is Ok);
        assert(res@ =~= outcome->Ok_0.1);
        assert(ledger@ =~= outcome->Ok_0.0);
    }
    Ok(res)
}

/// Hands the offering's asset back to its seller, the caller.
pub fn withdraw(
    ledger: &mut Ledger,
    info: MessageInfo,
    offering_id: &str,
    payload: Option<Vec<u8>>,
) -> (r: Result<Response, ContractError>)
    requires
        old(ledger).wf(),
    ensures
        final(ledger).wf(),
        agrees(
            r,
            old(ledger)@,
            final(ledger)@,
            crate::model::withdraw(old(ledger)@, info@, offering_id@, payload_view(payload)),
        ),
{
    let off: Offering = match ledger.offerings.get(offering_id) {
        Some(o) => o.clone(),
        None => {
            return Err(ContractError::NotFound);
        },
    };
    if off.seller != info.sender {
        return Err(ContractError::Unauthorized);
    }
    let msg: Vec<u8> = match payload {
        Some(m) => m,
        None => {
            return Err(ContractError::Encoding);
        },
    };
    ledger.offerings.remove(offering_id);
    let res = Response::new().add_attribute("action", "withdraw_rwa").add_attribute(
        "seller",
        info.sender.as_str(),
    ).add_message(TransferMsg::asset(off.contract.as_str(), off.seller.as_str(), off.amount, msg));
    proof {
        let outcome = crate::model::withdraw(
            old(ledger)@,
            info@,
            offering_id@,
            payload_view(payload),
        );
        assert(res@ =~= outcome->Ok_0.1);
        assert(ledger@ =~= outcome->Ok_0.0);
    }
    Ok(res)
}

/// Leases the offering's asset to the caller for `duration` from now.
pub fn rent(
    ledger: &mut Ledger,
    env: Env,
    info: MessageInfo,
    offering_id: &str,
    duration: u64,
    payload: Option<Vec<u8>>,
) -> (r: Result<Response, ContractError>)
    requires
        old(ledger).wf(),
    ensures
        final(ledger).wf(),
        agrees(
            r,
            old(ledger)@,
            final(ledger)@,
            crate::model::rent(
                old(ledger)@,
                env.block_time,
                info@,
                offering_id@,
                duration,
                payload_view(payload),
            ),
        ),
{
    let off: Offering = match ledger.offerings.get(offering_id) {
        Some(o) => o.clone(),
        None => {
            return Err(ContractError::NotFound);
        },
    };
    if off.seller == info.sender {
        return Err(ContractError::InvalidRenter);
    }
    if duration == 0 {
        return Err(ContractError::InvalidDuration);
    }
    let price: u128 = match off.list_price.amount.checked_mul(duration as u128) {
        Some(p) => p,
        None => {
            return Err(ContractError::Overflow);
        },
    };
    let payment: Coin = match get_fund(info.funds, off.list_price.denom.clone()) {
        Ok(c) => c,
        Err(e) => {
            return Err(e);
        },
    };
    if payment.amount < price {
        return Err(ContractError::InsufficientFunds);
    }
    let fee_amount: u128 = match ledger.state.fee.checked_mul_floor(price) {
        Some(f) => f,
        None => {
            return Err(ContractError::Overflow);
        },
    };
    if fee_amount > price {
        return Err(ContractError::Overflow);
    }
    let seller_amount: u128 = price - fee_amount;
    let msg: Vec<u8> = match payload {
        Some(m) => m,
        None => {
            return Err(ContractError::Encoding);
        },
    };
    let number: u64 = match increment_rentals(ledger) {
        Ok(n) => n,
        Err(e) => {
            return Err(e);
        },
    };
    let end_time: u64 = match env.block_time.checked_add(duration) {
        Some(t) => t,
        None => {
            return Err(ContractError::Overflow);
        },
    };
    let rental_id = decimal_string(number as u128);
    let rental = Rental {
        id: rental_id.clone(),
        offering_id: offering_id.to_owned(),
        renter: info.sender.clone(),
        start_time: env.block_time,
        end_time,
        amount: off.amount,
    };
    ledger.rentals.insert(rental_id.clone(), rental);
    let res = Response::new().add_message(
        TransferMsg::send(off.seller.as_str(), seller_amount, off.list_price.denom.as_str()),
    ).add_message(
        TransferMsg::asset(off.contract.as_str(), info.sender.as_str(), off.amount, msg),
    ).add_attribute("action", "rent_rwa").add_attribute(
        "rental_id",
        rental_id.as_str(),
    ).add_attribute("offering_id", offering_id).add_attribute(
        "renter",
        info.sender.as_str(),
    ).add_attribute("duration", decimal_string(duration as u128).as_str());
    proof {
        let outcome = crate::model::rent(
            old(ledger)@,
            env.block_time,
            info@,
            offering_id@,
            duration,
            payload_view(payload),
        );
        assert(outcome is Ok);
        assert(res@ =~= outcome->Ok_0.1);
        assert(ledger@ =~= outcome->Ok_0.0);
    }
    Ok(res)
}

/// Ends an expired rental at the request of its renter.
pub fn end_rental(
    ledger: &mut Ledger,
    env: Env,
    info: MessageInfo,
    rental_id: &str,
    payload: Option<Vec<u8>>,
) -> (r: Result<Response, ContractError>)
    requires
        old(ledger).wf(),
    ensures
        final(ledger).wf(),
        agrees(
            r,
            old(ledger)@,
            final(ledger)@,
            crate::model::end_rental(
                old(ledger)@,
                env.block_time,
                info@,
                rental_id@,
                payload_view(payload),
            ),
        ),
{
    let rental: Rental = match ledger.rentals.get(rental_id) {
        Some(x) => x.clone(),
        None => {
            return Err(ContractError::RentalNotFound);
        },
    };
    if env.block_time < rental.end_time {
        return Err(ContractError::RentalNotExpired);
    }
    if info.sender != rental.renter {
        return Err(ContractError::Unauthorized);
    }
    let off: Offering = match ledger.offerings.get(rental.offering_id.as_str()) {
        Some(o) => o.clone(),
        None => {
            return Err(ContractError::NotFound);
        },
    };
    let msg: Vec<u8> = match payload {
        Some(m) => m,
        None => {
            return Err(ContractError::Encoding);
        },
    };
    ledger.rentals.remove(rental_id);
    let res = Response::new().add_message(
        TransferMsg::asset(off.contract.as_str(), off.seller.as_str(), rental.amount, msg),
    ).add_attribute("action", "end_rental").add_attribute("rental_id", rental_id).add_attribute(
        "renter",
        rental.renter.as_str(),
    );
    proof {
        let outcome = crate::model::end_rental(
            old(ledger)@,
            env.block_time,
            info@,
            rental_id@,
            payload_view(payload),
        );
        assert(res@ =~= outcome->Ok_0.1);
        assert(ledger@ =~= outcome->Ok_0.0);
    }
    Ok(res)
}

/// Takes the asset of an expired rental back at the request of the seller.
pub fn clawback(
    ledger: &mut Ledger,
    env: Env,
    info: MessageInfo,
    rental_id: &str,
    payload: Option<Vec<u8>>,
) -> (r: Result<Response, ContractError>)
    requires
        old(ledger).wf(),
    ensures
        final(ledger).wf(),
        agrees(
            r,
            old(ledger)@,
            final(ledger)@,
            crate::model::clawback(
                old(ledger)@,
                env.block_time,
                info@,
                rental_id@,
                payload_view(payload),
            ),
        ),
{
    let rental: Rental = match ledger.rentals.get(rental_id) {
        Some(x) => x.clone(),
        None => {
            return Err(ContractError::RentalNotFound);
        },
    };
    let off: Offering = match ledger.offerings.get(rental.offering_id.as_str()) {
        Some(o) => o.clone(),
        None => {
            return Err(ContractError::NotFound);
        },
    };
    if info.sender != off.seller {
        return Err(ContractError::Unauthorized);
    }
    if env.block_time < rental.end_time {
        return Err(ContractError::RentalNotExpired);
    }
    let msg: Vec<u8> = match payload {
        Some(m) => m,
        None => {
            return Err(ContractError::Encoding);
        },
    };
    ledger.rentals.remove(rental_id);
    let res = Response::new().add_message(
        TransferMsg::asset(off.contract.as_str(), off.seller.as_str(), rental.amount, msg),
    ).add_attribute("action", "clawback").add_attribute("rental_id", rental_id).add_attribute(
        "seller",
        off.seller.as_str(),
    );
    proof {
        let outcome = crate::model::clawback(
            old(ledger)@,
            env.block_time,
            info@,
            rental_id@,
            payload_view(payload),
        );
        assert(res@ =~= outcome->Ok_0.1);
        assert(ledger@ =~= outcome->Ok_0.0);
    }
    Ok(res)
}

} // verus!
