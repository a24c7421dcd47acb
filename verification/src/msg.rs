//! The messages that the marketplace takes and the answers to its queries.

use vstd::prelude::*;
use crate::fraction::Fraction;
use crate::host::{views, Coin, CoinView};

verus! {

/// Sets the marketplace up; the caller becomes its owner.
#[derive(Debug, Clone, Copy, PartialEq, Eq, Structural)]
pub struct InstantiateMsg {
    pub fee: Fraction,
}

/// The listing instruction that comes with a deposit of the asset.
#[derive(Debug, PartialEq, Eq)]
pub struct SellRwa {
    pub list_price: Coin,
}

/// The notice of an asset custodian that `sender` has deposited `amount` units
/// with the marketplace, together with the listing instruction.
#[derive(Debug, PartialEq, Eq)]
pub struct ReceiveMsg {
    pub sender: String,
    pub amount: u128,
    pub msg: SellRwa,
}

/// The operations that change the ledger.
#[derive(Debug, PartialEq, Eq)]
pub enum ExecuteMsg {
    /// Buy an offering for the attached funds.
    Buy { offering_id: String },
    /// Take an offering back; only for its seller.
    WithdrawRwa { offering_id: String },
    /// List what a custodian reports as deposited.
    ReceiveRwa(ReceiveMsg),
    /// Pay fees out; only for the owner.
    WithdrawFees { amount: u128, denom: String },
    /// Set a new fee; only for the owner.
    ChangeFee { fee: Fraction },
    /// Rent an offering for `duration` units of time, for the attached funds.
    RentRwa { offering_id: String, duration: u64 },
    /// End an expired rental; only for its renter.
    EndRental { rental_id: String },
    /// Take the asset of an expired rental back; only for the seller.
    Clawback { rental_id: String },
}

/// The questions that can be asked of the ledger.
#[derive(Debug, PartialEq, Eq)]
pub enum QueryMsg {
    /// How many offerings were ever listed.
    GetCount {},
    /// The current fee.
    GetFee {},
    /// One page of the offerings, in ascending order of their ids, starting
    /// after `start_after`.
    AllOffers { start_after: Option<String>, limit: Option<u32> },
    /// A rental, with the amount of the offering it refers to.
    GetRental { rental_id: String },
}

/// How many offerings were ever listed.
#[derive(Debug, Clone, Copy, PartialEq, Eq, Structural)]
pub struct CountResponse {
    pub count: u64,
}

/// The current fee.
#[derive(Debug, Clone, Copy, PartialEq, Eq, Structural)]
pub struct FeeResponse {
    pub fee: Fraction,
}

/// An offering together with its id.
#[derive(Debug, PartialEq, Eq)]
pub struct Offer {
    pub id: String,
    pub amount: u128,
    pub contract: String,
    pub seller: String,
    pub list_price: Coin,
}

/// An offer as contracts speak of it.
pub struct OfferView {
    pub id: Seq<char>,
    pub amount: u128,
    pub contract: Seq<char>,
    pub seller: Seq<char>,
    pub list_price: CoinView,
}

impl View for Offer {
    type V = OfferView;

    open spec fn view(&self) -> OfferView {
        OfferView {
            id: self.id@,
            amount: self.amount,
            contract: self.contract@,
            seller: self.seller@,
            list_price: self.list_price@,
        }
    }
}

/// One page of offers, in ascending order of their ids.
#[derive(Debug, PartialEq, Eq)]
pub struct OffersResponse {
    pub offers: Vec<Offer>,
}

impl View for OffersResponse {
    type V = Seq<OfferView>;

    open spec fn view(&self) -> Seq<OfferView> {
        views(self.offers@)
    }
}

/// A rental as a query reports it.
#[derive(Debug, PartialEq, Eq)]
pub struct RentalInfo {
    pub id: String,
    pub offering_id: String,
    pub renter: String,
    pub start_time: u64,
    pub end_time: u64,
    pub amount: u128,
}

/// A reported rental as contracts speak of it.
pub struct RentalInfoView {
    pub id: Seq<char>,
    pub offering_id: Seq<char>,
    pub renter: Seq<char>,
    pub start_time: u64,
    pub end_time: u64,
    pub amount: u128,
}

impl View for RentalInfo {
    type V = RentalInfoView;

    open spec fn view(&self) -> RentalInfoView {
        RentalInfoView {
            id: self.id@,
            offering_id: self.offering_id@,
            renter: self.renter@,
            start_time: self.start_time,
            end_time: self.end_time,
            amount: self.amount,
        }
    }
}

/// The answer to a query after a rental.
#[derive(Debug, PartialEq, Eq)]
pub struct RentalResponse {
    pub rental: RentalInfo,
}

impl View for RentalResponse {
    type V = RentalInfoView;

    open spec fn view(&self) -> RentalInfoView {
        self.rental@
    }
}

/// The answer to a query, one variant for each question.
#[derive(Debug, PartialEq, Eq)]
pub enum QueryResponse {
    Count(CountResponse),
    Fee(FeeResponse),
    Offers(OffersResponse),
    Rental(RentalResponse),
}

/// An answer as contracts speak of it.
pub enum QueryResponseView {
    Count(u64),
    Fee(Fraction),
    Offers(Seq<OfferView>),
    Rental(RentalInfoView),
}

impl View for QueryResponse {
    type V = QueryResponseView;

    open spec fn view(&self) -> QueryResponseView {
        match self {
            QueryResponse::Count(c) => QueryResponseView::Count(c.count),
            QueryResponse::Fee(f) => QueryResponseView::Fee(f.fee),
            QueryResponse::Offers(o) => QueryResponseView::Offers(o@),
            QueryResponse::Rental(r) => QueryResponseView::Rental(r@),
        }
    }
}

} // verus!
