//! The marketplace as a state machine: for each operation, the ledger and the
//! response that follow from a ledger, a caller, the funds and the time, or the
//! error that refuses it.

use vstd::prelude::*;
use crate::error::ContractError;
use crate::fraction::{Fraction, DECIMAL_FRACTIONAL};
use crate::host::{
    bank_send, AttributeView, CoinView, MessageInfoView, ResponseView, TransferMsgView,
};
use crate::msg::{OfferView, RentalInfoView};
use crate::state::{find_fund, next_rental_number, LedgerView, OfferingView, RentalView, StateView};
use crate::store::{page, Listing};
use crate::text::decimal;

verus! {

/// What an operation comes to: the next ledger with the response, or an error.
pub type Outcome = Result<(LedgerView, ResponseView), ContractError>;

/// The operation is refused with this error.
pub open spec fn refuses(outcome: Outcome, error: ContractError) -> bool {
    outcome matches Err(e) && e == error
}

/// The page size where a query names none.
pub const DEFAULT_LIMIT: u32 = 10;

/// The largest page size.
pub const MAX_LIMIT: u32 = 30;

/// The attribute with this key and this value.
pub open spec fn attribute(key: &str, value: Seq<char>) -> AttributeView {
    AttributeView { key: key@, value }
}

/// A price as an attribute shows it: the amount and then the denomination.
pub open spec fn price_text(price: CoinView) -> Seq<char> {
    decimal(price.amount as nat) + price.denom
}

/// The instruction to the custodian at `contract_addr` to move the asset.
pub open spec fn asset_transfer(
    contract_addr: Seq<char>,
    recipient: Seq<char>,
    amount: u128,
    msg: Seq<u8>,
) -> TransferMsgView {
    TransferMsgView::Asset { contract_addr, recipient, amount, msg }
}

/// What is left of `amount` once the fee is taken off: `amount × (1 − fee)`,
/// rounded down. Meant for a fee of at most one.
pub open spec fn net_of_fee(amount: u128, fee: Fraction) -> nat {
    amount as nat * ((DECIMAL_FRACTIONAL - fee.atomics) as nat) / (DECIMAL_FRACTIONAL as nat)
}

/// Setting up: the caller owns a ledger without offerings or rentals.
pub open spec fn instantiate(info: MessageInfoView, fee: Fraction) -> Outcome {
    Ok(
        (
            LedgerView {
                state: StateView { num_offerings: 0, fee, owner: info.sender },
                offerings: Map::empty(),
                rentals: Map::empty(),
            },
            ResponseView { messages: seq![], attributes: seq![] },
        ),
    )
}

/// Listing: the custodian `info.sender` reports that `seller` has deposited
/// `amount` units to be offered at `list_price`. Neither the amount nor the
/// price may be zero.
pub open spec fn list(
    pre: LedgerView,
    info: MessageInfoView,
    seller: Seq<char>,
    amount: u128,
    list_price: CoinView,
) -> Outcome {
    if amount == 0 {
        Err(ContractError::InvalidAmount)
    } else if list_price.amount == 0 {
        Err(ContractError::InvalidPrice)
    } else if pre.state.num_offerings == u64::MAX {
        Err(ContractError::Overflow)
    } else {
        let n = (pre.state.num_offerings + 1) as u64;
        let id = decimal(n as nat);
        let offering = OfferingView { amount, contract: info.sender, seller, list_price };
        Ok(
            (
                LedgerView {
                    state: StateView { num_offerings: n, ..pre.state },
                    offerings: pre.offerings.insert(id, offering),
                    ..pre
                },
                ResponseView {
                    messages: seq![],
                    attributes: seq![
                        attribute("action", "sell_rwa"@),
                        attribute("offering_id", id),
                        attribute("rwa_contract", info.sender),
                        attribute("seller", seller),
                        attribute("list_price", price_text(list_price)),
                        attribute("amount", decimal(amount as nat)),
                    ],
                },
            ),
        )
    }
}

/// Buying: the caller pays the list price, the seller gets it less the fee, the
/// caller gets the asset, and the offering is gone.
pub open spec fn buy(
    pre: LedgerView,
    info: MessageInfoView,
    offering_id: Seq<char>,
    payload: Option<Seq<u8>>,
) -> Outcome {
    if !pre.offerings.contains_key(offering_id) {
        Err(ContractError::NotFound)
    } else {
        let off = pre.offerings[offering_id];
        let fund = find_fund(info.funds, off.list_price.denom);
        if off.seller == info.sender {
            Err(ContractError::InvalidBuyer)
        } else if fund is None || fund->0.amount < off.list_price.amount {
            Err(ContractError::InsufficientFunds)
        } else if pre.state.fee.atomics > DECIMAL_FRACTIONAL {
            Err(ContractError::Overflow)
        } else if payload is None {
            Err(ContractError::Encoding)
        } else {
            let net = net_of_fee(off.list_price.amount, pre.state.fee) as u128;
            Ok(
                (
                    LedgerView { offerings: pre.offerings.remove(offering_id), ..pre },
                    ResponseView {
                        messages: seq![
                            bank_send(off.seller, net, fund->0.denom),
                            asset_transfer(off.contract, info.sender, off.amount, payload->0),
                        ],
                        attributes: seq![
                            attribute("action", "buy_rwa"@),
                            attribute("buyer", info.sender),
                            attribute("seller", off.seller),
                            attribute("paid_price", price_text(fund->0)),
                            attribute("amount", decimal(off.amount as nat)),
                            attribute("rwa_contract", off.contract),
                        ],
                    },
                ),
            )
        }
    }
}

/// Withdrawing: the seller takes the asset back, and the offering is gone.
pub open spec fn withdraw(
    pre: LedgerView,
    info: MessageInfoView,
    offering_id: Seq<char>,
    payload: Option<Seq<u8>>,
) -> Outcome {
    if !pre.offerings.contains_key(offering_id) {
        Err(ContractError::NotFound)
    } else {
        let off = pre.offerings[offering_id];
        if off.seller != info.sender {
            Err(ContractError::Unauthorized)
        } else if payload is None {
            Err(ContractError::Encoding)
        } else {
            Ok(
                (
                    LedgerView { offerings: pre.offerings.remove(offering_id), ..pre },
                    ResponseView {
                        messages: seq![
                            asset_transfer(off.contract, off.seller, off.amount, payload->0),
                        ],
                        attributes: seq![
                            attribute("action", "withdraw_rwa"@),
                            attribute("seller", info.sender),
                        ],
                    },
                ),
            )
        }
    }
}

/// The price of renting for `duration`: the list price for each unit of time.
pub open spec fn rental_price(list_price: u128, duration: u64) -> nat {
    list_price as nat * duration as nat
}

/// Renting: the caller pays the list price times the duration, the seller gets
/// it less the fee, the caller gets the asset, and a rental is recorded that
/// ends `duration` after `now`. The duration is at least one unit of time. The
/// offering stays.
pub open spec fn rent(
    pre: LedgerView,
    now: u64,
    info: MessageInfoView,
    offering_id: Seq<char>,
    duration: u64,
    payload: Option<Seq<u8>>,
) -> Outcome {
    if !pre.offerings.contains_key(offering_id) {
        Err(ContractError::NotFound)
    } else {
        let off = pre.offerings[offering_id];
        let price = rental_price(off.list_price.amount, duration);
        let payment = find_fund(info.funds, off.list_price.denom);
        let fee_amount = pre.state.fee.mul_floor(price);
        let number = next_rental_number(pre.rentals);
        if off.seller == info.sender {
            Err(ContractError::InvalidRenter)
        } else if duration == 0 {
            Err(ContractError::InvalidDuration)
        } else if price > u128::MAX {
            Err(ContractError::Overflow)
        } else if payment is None || payment->0.amount < price {
            Err(ContractError::InsufficientFunds)
        } else if fee_amount > price {
            Err(ContractError::Overflow)
        } else if payload is None {
            Err(ContractError::Encoding)
        } else if number is Err {
            Err(number->Err_0)
        } else if now + duration > u64::MAX {
            Err(ContractError::Overflow)
        } else {
            let id = decimal(number->Ok_0 as nat);
            let rental = RentalView {
                id,
                offering_id,
                renter: info.sender,
                start_time: now,
                end_time: (now + duration) as u64,
                amount: off.amount,
            };
            Ok(
                (
                    LedgerView { rentals: pre.rentals.insert(id, rental), ..pre },
                    ResponseView {
                        messages: seq![
                            bank_send(
                                off.seller,
                                (price - fee_amount) as u128,
                                off.list_price.denom,
                            ),
                            asset_transfer(off.contract, info.sender, off.amount, payload->0),
                        ],
                        attributes: seq![
                            attribute("action", "rent_rwa"@),
                            attribute("rental_id", id),
                            attribute("offering_id", offering_id),
                            attribute("renter", info.sender),
                            attribute("duration", decimal(duration as nat)),
                        ],
                    },
                ),
            )
        }
    }
}

/// Ending a rental: once it has expired, its renter hands the asset back to the
/// seller of the offering, and the rental is gone.
pub open spec fn end_rental(
    pre: LedgerView,
    now: u64,
    info: MessageInfoView,
    rental_id: Seq<char>,
    payload: Option<Seq<u8>>,
) -> Outcome {
    if !pre.rentals.contains_key(rental_id) {
        Err(ContractError::RentalNotFound)
    } else {
        let rental = pre.rentals[rental_id];
        if now < rental.end_time {
            Err(ContractError::RentalNotExpired)
        } else if info.sender != rental.renter {
            Err(ContractError::Unauthorized)
        } else if !pre.offerings.contains_key(rental.offering_id) {
            Err(ContractError::NotFound)
        } else if payload is None {
            Err(ContractError::Encoding)
        } else {
            let off = pre.offerings[rental.offering_id];
            Ok(
                (
                    LedgerView { rentals: pre.rentals.remove(rental_id), ..pre },
                    ResponseView {
                        messages: seq![
                            asset_transfer(off.contract, off.seller, rental.amount, payload->0),
                        ],
                        attributes: seq![
                            attribute("action", "end_rental"@),
                            attribute("rental_id", rental_id),
                            attribute("renter", rental.renter),
                        ],
                    },
                ),
            )
        }
    }
}

/// Clawing back: once a rental has expired, the seller of its offering takes
/// the asset back, and the rental is gone.
pub open spec fn clawback(
    pre: LedgerView,
    now: u64,
    info: MessageInfoView,
    rental_id: Seq<char>,
    payload: Option<Seq<u8>>,
) -> Outcome {
    if !pre.rentals.contains_key(rental_id) {
        Err(ContractError::RentalNotFound)
    } else {
        let rental = pre.rentals[rental_id];
        if !pre.offerings.contains_key(rental.offering_id) {
            Err(ContractError::NotFound)
        } else {
            let off = pre.offerings[rental.offering_id];
            if info.sender != off.seller {
                Err(ContractError::Unauthorized)
            } else if now < rental.end_time {
                Err(ContractError::RentalNotExpired)
            } else if payload is None {
                Err(ContractError::Encoding)
            } else {
                Ok(
                    (
                        LedgerView { rentals: pre.rentals.remove(rental_id), ..pre },
                        ResponseView {
                            messages: seq![
                                asset_transfer(
                                    off.contract,
                                    off.seller,
                                    rental.amount,
                                    payload->0,
                                ),
                            ],
                            attributes: seq![
                                attribute("action", "clawback"@),
                                attribute("rental_id", rental_id),
                                attribute("seller", off.seller),
                            ],
                        },
                    ),
                )
            }
        }
    }
}

/// Changing the fee: the owner sets a new one.
pub open spec fn change_fee(pre: LedgerView, info: MessageInfoView, fee: Fraction) -> Outcome {
    if pre.state.owner != info.sender {
        Err(ContractError::Unauthorized)
    } else {
        Ok(
            (
                LedgerView { state: StateView { fee, ..pre.state }, ..pre },
                ResponseView {
                    messages: seq![],
                    attributes: seq![
                        attribute("action", "change_fee"@),
                        attribute("fee", fee.text()),
                    ],
                },
            ),
        )
    }
}

/// Withdrawing fees: the owner is paid `amount` of `denom`.
pub open spec fn withdraw_fees(
    pre: LedgerView,
    info: MessageInfoView,
    amount: u128,
    denom: Seq<char>,
) -> Outcome {
    if pre.state.owner != info.sender {
        Err(ContractError::Unauthorized)
    } else {
        Ok(
            (
                pre,
                ResponseView {
                    messages: seq![bank_send(pre.state.owner, amount, denom)],
                    attributes: seq![],
                },
            ),
        )
    }
}

/// The page size that a query gets: what it asks for, 10 where it asks for
/// nothing, and never more than 30.
pub open spec fn page_limit(limit: Option<u32>) -> nat {
    let asked = match limit {
        Some(n) => n,
        None => DEFAULT_LIMIT,
    };
    if asked <= MAX_LIMIT {
        asked as nat
    } else {
        MAX_LIMIT as nat
    }
}

/// An entry of the listing as a query reports it.
pub open spec fn offer_of(entry: (Seq<char>, OfferingView)) -> OfferView {
    OfferView {
        id: entry.0,
        amount: entry.1.amount,
        contract: entry.1.contract,
        seller: entry.1.seller,
        list_price: entry.1.list_price,
    }
}

/// One page of offers: the first entries of the listing after the cursor, as
/// many as the limit allows.
pub open spec fn offers_page(
    listing: Listing<OfferingView>,
    start_after: Option<Seq<char>>,
    limit: Option<u32>,
) -> Seq<OfferView> {
    page(listing, start_after, page_limit(limit)).map_values(
        |e: (Seq<char>, OfferingView)| offer_of(e),
    )
}

/// What a query after a rental reports: the rental, with the amount of the
/// offering it refers to.
pub open spec fn rental_info(pre: LedgerView, rental_id: Seq<char>) -> Result<
    RentalInfoView,
    ContractError,
> {
    if !pre.rentals.contains_key(rental_id) {
        Err(ContractError::RentalNotFound)
    } else {
        let rental = pre.rentals[rental_id];
        if !pre.offerings.contains_key(rental.offering_id) {
            Err(ContractError::NotFound)
        } else {
            Ok(
                RentalInfoView {
                    id: rental.id,
                    offering_id: rental.offering_id,
                    renter: rental.renter,
                    start_time: rental.start_time,
                    end_time: rental.end_time,
                    amount: pre.offerings[rental.offering_id].amount,
                },
            )
        }
    }
}

} // verus!
