//! What the host hands to an operation and what it takes back: coins, the
//! caller, the time, and the response with its transfers.

use vstd::prelude::*;

verus! {

/// The views of the items of a sequence, in order.
pub open spec fn views<T: View>(s: Seq<T>) -> Seq<T::V> {
    Seq::new(s.len(), |i: int| s[i]@)
}

/// An amount of native currency of one denomination.
#[derive(Debug, PartialEq, Eq)]
pub struct Coin {
    pub denom: String,
    pub amount: u128,
}

/// A coin as contracts speak of it.
pub struct CoinView {
    pub denom: Seq<char>,
    pub amount: u128,
}

impl View for Coin {
    type V = CoinView;

    open spec fn view(&self) -> CoinView {
        CoinView { denom: self.denom@, amount: self.amount }
    }
}

impl Clone for Coin {
    fn clone(&self) -> (r: Self)
        ensures
            r == *self,
    {
        Coin { denom: self.denom.clone(), amount: self.amount }
    }
}

/// A coin of `amount` units of `denom`.
pub fn coin(amount: u128, denom: &str) -> (r: Coin)
    ensures
        r@ == (CoinView { denom: denom@, amount }),
{
    Coin { denom: denom.to_owned(), amount }
}

/// A single coin of `amount` units of `denom`, as a list of funds.
pub fn coins(amount: u128, denom: &str) -> (r: Vec<Coin>)
    ensures
        views(r@) == seq![CoinView { denom: denom@, amount }],
{
    let mut r: Vec<Coin> = Vec::new();
    r.push(coin(amount, denom));
    assert(views(r@) =~= seq![CoinView { denom: denom@, amount }]);
    r
}

/// The part of the execution context that operations read.
#[derive(Debug, Clone, Copy, PartialEq, Eq, Structural)]
pub struct Env {
    /// The current time, in seconds.
    pub block_time: u64,
}

/// Who calls an operation, and with which funds attached.
#[derive(Debug, PartialEq, Eq)]
pub struct MessageInfo {
    pub sender: String,
    pub funds: Vec<Coin>,
}

/// The caller and the funds as contracts speak of them.
pub struct MessageInfoView {
    pub sender: Seq<char>,
    pub funds: Seq<CoinView>,
}

impl View for MessageInfo {
    type V = MessageInfoView;

    open spec fn view(&self) -> MessageInfoView {
        MessageInfoView { sender: self.sender@, funds: views(self.funds@) }
    }
}

/// A key and a value that an operation reports about what it did.
#[derive(Debug, PartialEq, Eq)]
pub struct Attribute {
    pub key: String,
    pub value: String,
}

/// An attribute as contracts speak of it.
pub struct AttributeView {
    pub key: Seq<char>,
    pub value: Seq<char>,
}

impl View for Attribute {
    type V = AttributeView;

    open spec fn view(&self) -> AttributeView {
        AttributeView { key: self.key@, value: self.value@ }
    }
}

/// The attribute with this key and this value.
pub fn attr(key: &str, value: &str) -> (r: Attribute)
    ensures
        r@ == (AttributeView { key: key@, value: value@ }),
{
    Attribute { key: key.to_owned(), value: value.to_owned() }
}

/// A transfer that must follow an operation. The ledger only decides it; the
/// host carries it out.
#[derive(Debug, PartialEq, Eq)]
pub enum TransferMsg {
    /// Pay native currency to an address.
    Bank { to_address: String, coins: Vec<Coin> },
    /// Have the asset custodian at `contract_addr` move `amount` units of the
    /// asset to `recipient`; `msg` is that instruction as the custodian reads it.
    Asset { contract_addr: String, recipient: String, amount: u128, msg: Vec<u8> },
}

/// A transfer as contracts speak of it.
pub enum TransferMsgView {
    Bank { to_address: Seq<char>, coins: Seq<CoinView> },
    Asset { contract_addr: Seq<char>, recipient: Seq<char>, amount: u128, msg: Seq<u8> },
}

impl View for TransferMsg {
    type V = TransferMsgView;

    open spec fn view(&self) -> TransferMsgView {
        match self {
            TransferMsg::Bank { to_address, coins } => TransferMsgView::Bank {
                to_address: to_address@,
                coins: views(coins@),
            },
            TransferMsg::Asset { contract_addr, recipient, amount, msg } => TransferMsgView::Asset {
                contract_addr: contract_addr@,
                recipient: recipient@,
                amount: *amount,
                msg: msg@,
            },
        }
    }
}

/// The payment of one coin to an address.
pub open spec fn bank_send(
    to_address: Seq<char>,
    amount: u128,
    denom: Seq<char>,
) -> TransferMsgView {
    TransferMsgView::Bank { to_address, coins: seq![CoinView { denom, amount }] }
}

impl TransferMsg {
    /// The payment of `amount` units of `denom` to `to_address`.
    pub fn send(to_address: &str, amount: u128, denom: &str) -> (r: TransferMsg)
        ensures
            r@ == bank_send(to_address@, amount, denom@),
    {
        TransferMsg::Bank { to_address: to_address.to_owned(), coins: coins(amount, denom) }
    }

    /// The move of `amount` units of the asset held at `contract_addr` to
    /// `recipient`, with the instruction `msg` for the custodian.
    pub fn asset(contract_addr: &str, recipient: &str, amount: u128, msg: Vec<u8>) -> (r:
        TransferMsg)
        ensures
            r@ == (TransferMsgView::Asset {
                contract_addr: contract_addr@,
                recipient: recipient@,
                amount,
                msg: msg@,
            }),
    {
        TransferMsg::Asset {
            contract_addr: contract_addr.to_owned(),
            recipient: recipient.to_owned(),
            amount,
            msg,
        }
    }
}

/// What an operation answers: the transfers that must follow, in order, and
/// the attributes that describe what was done.
#[derive(Debug, PartialEq, Eq)]
pub struct Response {
    pub messages: Vec<TransferMsg>,
    pub attributes: Vec<Attribute>,
}

/// A response as contracts speak of it.
#[verifier::ext_equal]
pub struct ResponseView {
    pub messages: Seq<TransferMsgView>,
    pub attributes: Seq<AttributeView>,
}

impl View for Response {
    type V = ResponseView;

    open spec fn view(&self) -> ResponseView {
        ResponseView { messages: views(self.messages@), attributes: views(self.attributes@) }
    }
}

impl Response {
    /// A response without transfers or attributes.
    pub fn new() -> (r: Response)
        ensures
            r@ == (ResponseView { messages: seq![], attributes: seq![] }),
    {
        let r = Response { messages: Vec::new(), attributes: Vec::new() };
        assert(r@ =~= (ResponseView { messages: seq![], attributes: seq![] }));
        r
    }

    /// The response with one more attribute at the end.
    pub fn add_attribute(self, key: &str, value: &str) -> (r: Response)
        ensures
            r@ == (ResponseView {
                messages: self@.messages,
                attributes: self@.attributes.push(AttributeView { key: key@, value: value@ }),
            }),
    {
        let mut r = self;
        r.attributes.push(attr(key, value));
        assert(r@ =~= (ResponseView {
            messages: self@.messages,
            attributes: self@.attributes.push(AttributeView { key: key@, value: value@ }),
        }));
        r
    }

    /// The response with one more transfer at the end.
    pub fn add_message(self, msg: TransferMsg) -> (r: Response)
        ensures
            r@ == (ResponseView {
                messages: self@.messages.push(msg@),
                attributes: self@.attributes,
            }),
    {
        let mut r = self;
        r.messages.push(msg);
        assert(r@ =~= (ResponseView {
            messages: self@.messages.push(msg@),
            attributes: self@.attributes,
        }));
        r
    }
}

} // verus!
