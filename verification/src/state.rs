//! The persisted state: the registry, the offerings and the rentals.

use vstd::prelude::*;
use crate::error::ContractError;
use crate::fraction::Fraction;
use crate::host::{views, Coin, CoinView};
use crate::store::{has_key, index_of, lemma_index_of, Store};
use crate::text::{parse_u64, parse_u64_spec};

verus! {

/// The registry: the protocol fee, the owner, and how many offerings were ever
/// listed.
#[derive(Debug, PartialEq, Eq)]
pub struct State {
    pub num_offerings: u64,
    pub fee: Fraction,
    pub owner: String,
}

/// The registry as contracts speak of it.
pub struct StateView {
    pub num_offerings: u64,
    pub fee: Fraction,
    pub owner: Seq<char>,
}

impl View for State {
    type V = StateView;

    open spec fn view(&self) -> StateView {
        StateView { num_offerings: self.num_offerings, fee: self.fee, owner: self.owner@ }
    }
}

impl Clone for State {
    fn clone(&self) -> (r: Self)
        ensures
            r == *self,
    {
        State { num_offerings: self.num_offerings, fee: self.fee, owner: self.owner.clone() }
    }
}

/// A quantity of a custodied asset listed at a price. Listing stores none with
/// an amount or a price of zero.
#[derive(Debug, PartialEq, Eq)]
pub struct Offering {
    pub amount: u128,
    pub contract: String,
    pub seller: String,
    pub list_price: Coin,
}

/// An offering as contracts speak of it.
pub struct OfferingView {
    pub amount: u128,
    pub contract: Seq<char>,
    pub seller: Seq<char>,
    pub list_price: CoinView,
}

impl View for Offering {
    type V = OfferingView;

    open spec fn view(&self) -> OfferingView {
        OfferingView {
            amount: self.amount,
            contract: self.contract@,
            seller: self.seller@,
            list_price: self.list_price@,
        }
    }
}

impl Clone for Offering {
    fn clone(&self) -> (r: Self)
        ensures
            r == *self,
    {
        Offering {
            amount: self.amount,
            contract: self.contract.clone(),
            seller: self.seller.clone(),
            list_price: self.list_price.clone(),
        }
    }
}

/// A lease of an offering's asset to a renter, from `start_time` to `end_time`.
/// Renting stores none that does not end after it starts.
#[derive(Debug, PartialEq, Eq)]
pub struct Rental {
    pub id: String,
    pub offering_id: String,
    pub renter: String,
    pub start_time: u64,
    pub end_time: u64,
    pub amount: u128,
}

/// A rental as contracts speak of it.
pub struct RentalView {
    pub id: Seq<char>,
    pub offering_id: Seq<char>,
    pub renter: Seq<char>,
    pub start_time: u64,
    pub end_time: u64,
    pub amount: u128,
}

impl View for Rental {
    type V = RentalView;

    open spec fn view(&self) -> RentalView {
        RentalView {
            id: self.id@,
            offering_id: self.offering_id@,
            renter: self.renter@,
            start_time: self.start_time,
            end_time: self.end_time,
            amount: self.amount,
        }
    }
}

impl Clone for Rental {
    fn clone(&self) -> (r: Self)
        ensures
            r == *self,
    {
        Rental {
            id: self.id.clone(),
            offering_id: self.offering_id.clone(),
            renter: self.renter.clone(),
            start_time: self.start_time,
            end_time: self.end_time,
            amount: self.amount,
        }
    }
}

/// Everything the marketplace persists.
pub struct Ledger {
    pub state: State,
    pub offerings: Store<Offering>,
    pub rentals: Store<Rental>,
}

/// The ledger as contracts speak of it: the registry and the two tables as
/// maps from ids to records.
#[verifier::ext_equal]
pub struct LedgerView {
    pub state: StateView,
    pub offerings: Map<Seq<char>, OfferingView>,
    pub rentals: Map<Seq<char>, RentalView>,
}

impl View for Ledger {
    type V = LedgerView;

    open spec fn view(&self) -> LedgerView {
        LedgerView { state: self.state@, offerings: self.offerings@, rentals: self.rentals@ }
    }
}

impl Ledger {
    /// Both tables hold each key once, in order.
    pub open spec fn wf(&self) -> bool {
        self.offerings.wf() && self.rentals.wf()
    }

    /// A ledger with this registry and no offering or rental.
    pub fn new(state: State) -> (r: Ledger)
        ensures
            r.wf(),
            r@ == (LedgerView { state: state@, offerings: Map::empty(), rentals: Map::empty() }),
    {
        Ledger { state, offerings: Store::new(), rentals: Store::new() }
    }
}

/// The first of the funds that is of the denomination, if there is one.
pub open spec fn find_fund(funds: Seq<CoinView>, denom: Seq<char>) -> Option<CoinView>
    decreases funds.len(),
{
    if funds.len() == 0 {
        None
    } else if funds[0].denom == denom {
        Some(funds[0])
    } else {
        find_fund(funds.drop_first(), denom)
    }
}

/// The first of the funds that is of the denomination; without one the payment
/// is insufficient.
pub fn get_fund(funds: Vec<Coin>, denom: String) -> (r: Result<Coin, ContractError>)
    ensures
        match find_fund(views(funds@), denom@) {
            Some(c) => r matches Ok(x) && x@ == c,
            None => r == Err::<Coin, ContractError>(ContractError::InsufficientFunds),
        },
{
    let ghost all = views(funds@);
    let mut i: usize = 0;
    assert(all.skip(0) =~= all);
    while i < funds.len()
        invariant
            i <= funds@.len(),
            all == views(funds@),
            find_fund(all, denom@) == find_fund(all.skip(i as int), denom@),
        decreases funds@.len() - i,
    {
        let ghost rest = all.skip(i as int);
        assert(rest[0] == funds@[i as int]@);
        if funds[i].denom == denom {
            return Ok(funds[i].clone());
        }
        assert(rest.drop_first() =~= all.skip(i + 1));
        i += 1;
    }
    Err(ContractError::InsufficientFunds)
}

/// Counts one more offering and returns the new count, which names it.
pub fn increment_offerings(store: &mut Ledger) -> (r: Result<u64, ContractError>)
    ensures
        match r {
            Ok(n) => {
                &&& old(store).state.num_offerings < u64::MAX
                &&& n == old(store).state.num_offerings + 1
                &&& *final(store) == (Ledger {
                    state: State { num_offerings: n, ..old(store).state },
                    ..*old(store)
                })
            },
            Err(e) => {
                &&& old(store).state.num_offerings == u64::MAX
                &&& e == ContractError::Overflow
                &&& *final(store) == *old(store)
            },
        },
{
    match store.state.num_offerings.checked_add(1) {
        Some(n) => {
            store.state.num_offerings = n;
            Ok(n)
        },
        None => Err(ContractError::Overflow),
    }
}

/// The number that a rental id writes; zero where it writes none.
pub open spec fn rental_number(id: Seq<char>) -> nat {
    match parse_u64_spec(id) {
        Some(n) => n as nat,
        None => 0,
    }
}

/// Every rental id is a decimal numeral of at most 64 bits.
pub open spec fn numbered<T>(rentals: Map<Seq<char>, T>) -> bool {
    forall|id: Seq<char>| #[trigger] rentals.contains_key(id) ==> parse_u64_spec(id) is Some
}

/// `n` is the highest number among the rental ids, or zero where there is none.
pub open spec fn is_highest<T>(rentals: Map<Seq<char>, T>, n: nat) -> bool {
    &&& forall|id: Seq<char>| #[trigger] rentals.contains_key(id) ==> rental_number(id) <= n
    &&& (n == 0 || exists|id: Seq<char>| #[trigger]
        rentals.contains_key(id) && rental_number(id) == n)
}

/// The highest number among the rental ids, or zero where there is none.
pub open spec fn highest<T>(rentals: Map<Seq<char>, T>) -> nat {
    choose|n: nat| is_highest(rentals, n)
}

/// Among numbers that stay below a bound there is a highest.
proof fn lemma_highest_below<T>(rentals: Map<Seq<char>, T>, bound: nat)
    requires
        forall|id: Seq<char>| #[trigger] rentals.contains_key(id) ==> rental_number(id) <= bound,
    ensures
        is_highest(rentals, highest(rentals)),
    decreases bound,
{
    if bound == 0 {
        assert(is_highest(rentals, 0));
    } else if exists|id: Seq<char>| #[trigger]
        rentals.contains_key(id) && rental_number(id) == bound {
        assert(is_highest(rentals, bound));
    } else {
        lemma_highest_below(rentals, (bound - 1) as nat);
    }
}

/// Among the numbers of the rental ids there is a highest.
pub proof fn lemma_highest_exists<T>(rentals: Map<Seq<char>, T>)
    ensures
        is_highest(rentals, highest(rentals)),
{
    lemma_highest_below(rentals, u64::MAX as nat);
}

/// There is only one highest number.
pub proof fn lemma_highest_unique<T>(rentals: Map<Seq<char>, T>, n: nat)
    requires
        is_highest(rentals, n),
    ensures
        highest(rentals) == n,
{
    let h = highest(rentals);
    assert(is_highest(rentals, h));
}

/// The number of the next rental: one more than the highest number in use, and
/// 1 where no rental is stored.
pub open spec fn next_rental_number<T>(rentals: Map<Seq<char>, T>) -> Result<u64, ContractError> {
    if !numbered(rentals) {
        Err(ContractError::InvalidId)
    } else if highest(rentals) >= u64::MAX {
        Err(ContractError::Overflow)
    } else {
        Ok((highest(rentals) + 1) as u64)
    }
}

/// The number of the next rental.
pub fn increment_rentals(store: &Ledger) -> (r: Result<u64, ContractError>)
    requires
        store.wf(),
    ensures
        r == next_rental_number(store@.rentals),
{
    let ghost s = store.rentals.listing();
    let ghost m = store@.rentals;
    let n: usize = store.rentals.len();
    let mut top: u64 = 0;
    let mut i: usize = 0;
    while i < n
        invariant
            store.wf(),
            s == store.rentals.listing(),
            m == store@.rentals,
            n == s.len(),
            i <= n,
            forall|j: int| 0 <= j < i ==> parse_u64_spec((#[trigger] s[j]).0) is Some,
            forall|j: int| 0 <= j < i ==> rental_number((#[trigger] s[j]).0) <= top,
            top == 0 || exists|j: int| 0 <= j < i && rental_number((#[trigger] s[j]).0) == top,
        decreases n - i,
    {
        let e = store.rentals.entry(i);
        proof {
            lemma_index_of(s, i as int);
        }
        match parse_u64(e.key.as_str()) {
            None => {
                assert(m.contains_key(s[i as int].0));
                return Err(ContractError::InvalidId);
            },
            Some(v) => {
                if v > top {
                    top = v;
                }
            },
        }
        i += 1;
    }
    proof {
        assert forall|id: Seq<char>| #[trigger] m.contains_key(id) implies parse_u64_spec(
            id,
        ) is Some && rental_number(id) <= top by {
            assert(has_key(s, id));
            let j = index_of(s, id);
            assert(s[j].0 == id);
        }
        if top != 0 {
            let j = choose|j: int| 0 <= j < n && rental_number((#[trigger] s[j]).0) == top;
            lemma_index_of(s, j);
            assert(m.contains_key(s[j].0));
        }
        lemma_highest_unique(m, top as nat);
    }
    match top.checked_add(1) {
        Some(next) => Ok(next),
        None => Err(ContractError::Overflow),
    }
}

} // verus!
