//! The single-shot calls: their paths and bodies, and what their responses
//! mean.
use vstd::prelude::*;
use vstd::utf8::encode_utf8;
use crate::api::{Account, ApiResponse, DepositResponse, Order, PaymentMethod, ResponseKind};
use crate::history::{response_kind_of, API_URL};
use crate::json::{json_parse, Json};
use crate::text::str_eq;

verus! {

pub const ACCOUNTS_PATH: &'static str = "/accounts";

pub const PAYMENT_METHODS_PATH: &'static str = "/payment-methods";

pub const DEPOSIT_PATH: &'static str = "/deposits/payment-method";

pub const ORDERS_PATH: &'static str = "/orders";

/// Why a single-shot call did not give what was asked.
#[derive(Debug, PartialEq, Eq)]
pub enum EndpointError {
    /// The exchange answered with an error message.
    Exchange(String),
    /// The response decoded to another shape than the call returns.
    Unexpected(ResponseKind),
    /// No account holds the currency.
    NoAccount(String),
}

/// The error for a response of the wrong shape: the exchange's message, or
/// the shape that came.
pub open spec fn refusal(resp: ApiResponse, e: EndpointError) -> bool {
    match resp {
        ApiResponse::ApiError(a) => e matches EndpointError::Exchange(m) && m@ == a.message@,
        _ => e == EndpointError::Unexpected(resp.kind()),
    }
}

fn refuse(resp: ApiResponse) -> (e: EndpointError)
    ensures
        refusal(resp, e),
{
    match resp {
        ApiResponse::ApiError(a) => EndpointError::Exchange(a.message),
        other => EndpointError::Unexpected(response_kind_of(&other)),
    }
}

/// The accounts of an `/accounts` response. An empty array decodes as an
/// empty page of candles; here it is the empty list of accounts.
pub fn accounts_from(resp: ApiResponse) -> (r: Result<Vec<Account>, EndpointError>)
    ensures
        match resp {
            ApiResponse::Accounts(a) => r == Ok::<Vec<Account>, EndpointError>(a),
            ApiResponse::Candlesticks(c) if c.len() == 0 => r is Ok && r->Ok_0.len() == 0,
            _ => r is Err && refusal(resp, r->Err_0),
        },
{
    match resp {
        ApiResponse::Accounts(a) => Ok(a),
        ApiResponse::Candlesticks(c) if c.len() == 0 => Ok(Vec::new()),
        other => Err(refuse(other)),
    }
}

/// The payment methods of a `/payment-methods` response; an empty array is
/// the empty list.
pub fn payment_methods_from(resp: ApiResponse) -> (r: Result<Vec<PaymentMethod>, EndpointError>)
    ensures
        match resp {
            ApiResponse::PaymentMethods(p) => r == Ok::<Vec<PaymentMethod>, EndpointError>(p),
            ApiResponse::Candlesticks(c) if c.len() == 0 => r is Ok && r->Ok_0.len() == 0,
            _ => r is Err && refusal(resp, r->Err_0),
        },
{
    match resp {
        ApiResponse::PaymentMethods(p) => Ok(p),
        ApiResponse::Candlesticks(c) if c.len() == 0 => Ok(Vec::new()),
        other => Err(refuse(other)),
    }
}

/// The orders of an `/orders` response; an empty array is the empty list.
/// Any other shape is refused, never read as no orders.
pub fn orders_from(resp: ApiResponse) -> (r: Result<Vec<Order>, EndpointError>)
    ensures
        match resp {
            ApiResponse::Orders(o) => r == Ok::<Vec<Order>, EndpointError>(o),
            ApiResponse::Candlesticks(c) if c.len() == 0 => r is Ok && r->Ok_0.len() == 0,
            _ => r is Err && refusal(resp, r->Err_0),
        },
{
    match resp {
        ApiResponse::Orders(o) => Ok(o),
        ApiResponse::Candlesticks(c) if c.len() == 0 => Ok(Vec::new()),
        other => Err(refuse(other)),
    }
}

/// The receipt of a deposit.
pub fn deposit_from(resp: ApiResponse) -> (r: Result<DepositResponse, EndpointError>)
    ensures
        match resp {
            ApiResponse::DepositResponse(d) => r == Ok::<DepositResponse, EndpointError>(d),
            _ => r is Err && refusal(resp, r->Err_0),
        },
{
    match resp {
        ApiResponse::DepositResponse(d) => Ok(d),
        other => Err(refuse(other)),
    }
}

/// The order that was placed.
pub fn order_from(resp: ApiResponse) -> (r: Result<Order, EndpointError>)
    ensures
        match resp {
            ApiResponse::Order(o) => r == Ok::<Order, EndpointError>(o),
            _ => r is Err && refusal(resp, r->Err_0),
        },
{
    match resp {
        ApiResponse::Order(o) => Ok(o),
        other => Err(refuse(other)),
    }
}

/// The index of the first account in `currency`.
pub fn find_account(accounts: &Vec<Account>, currency: &str) -> (r: Option<usize>)
    ensures
        r is Some ==> r->0 < accounts.len() && accounts[r->0 as int].currency@ == currency@ && forall|k: int|
            0 <= k < r->0 ==> (#[trigger] accounts[k]).currency@ != currency@,
        r is None ==> forall|k: int|
            0 <= k < accounts.len() ==> (#[trigger] accounts[k]).currency@ != currency@,
{
    let mut i: usize = 0;
    while i < accounts.len()
        invariant
            i <= accounts.len(),
            forall|k: int| 0 <= k < i ==> (#[trigger] accounts[k]).currency@ != currency@,
        decreases accounts.len() - i,
    {
        if str_eq(accounts[i].currency.as_str(), currency) {
            return Some(i);
        }
        i = i + 1;
    }
    None
}

/// The first account in `currency`, or `NoAccount` naming the currency.
pub fn account_for(accounts: Vec<Account>, currency: &str) -> (r: Result<Account, EndpointError>)
    ensures
        r is Ok ==> exists|i: int|
            0 <= i < accounts.len() && r->Ok_0 == accounts[i] && accounts[i].currency@ == currency@
                && forall|k: int| 0 <= k < i ==> (#[trigger] accounts[k]).currency@ != currency@,
        r is Err ==> (r->Err_0 matches EndpointError::NoAccount(c) && c@ == currency@),
        r is Err ==> forall|k: int|
            0 <= k < accounts.len() ==> (#[trigger] accounts[k]).currency@ != currency@,
{
    let mut accounts = accounts;
    match find_account(&accounts, currency) {
        Some(i) => Ok(accounts.remove(i)),
        None => Err(EndpointError::NoAccount(String::from_str(currency))),
    }
}

/// `API_URL` followed by `path`.
pub fn request_url(path: &str) -> (r: String)
    ensures
        r@ == API_URL@ + path@,
{
    let mut url = String::new();
    url.push_str(API_URL);
    url.push_str(path);
    url
}

/// The URL of the latest tick of a product.
pub fn tick_url(product_id: &str) -> (r: String)
    ensures
        r@ == API_URL@ + "/products/"@ + product_id@ + "/ticker"@,
{
    let mut url = request_url("/products/");
    url.push_str(product_id);
    url.push_str("/ticker");
    url
}

/// The path that lists orders, of one product if it is given.
pub fn orders_path(product_id: Option<&str>) -> (r: String)
    ensures
        r@ == match product_id {
            Some(p) => ORDERS_PATH@ + "?product_id="@ + p@,
            None => ORDERS_PATH@,
        },
{
    let mut path = String::from_str(ORDERS_PATH);
    if let Some(p) = product_id {
        path.push_str("?product_id=");
        path.push_str(p);
    }
    path
}

pub open spec fn deposit_text(amount: Seq<char>, bank_id: Seq<char>) -> Seq<char> {
    "{\"amount\":"@ + amount + ",\"currency\":\"USD\",\"payment_method_id\":\""@ + bank_id + "\"}"@
}

pub open spec fn order_text(amount: Seq<char>, currency: Seq<char>) -> Seq<char> {
    "{\"funds\":"@ + amount + ",\"product_id\":\""@ + currency
        + "-USD\",\"side\":\"buy\",\"type\":\"market\"}"@
}

/// The text if it is JSON, else `None`.
fn checked_json(text: String) -> (r: Option<String>)
    ensures
        r is Some <==> json_parse(encode_utf8(text@)) is Some,
        r is Some ==> r->0@ == text@,
{
    match Json::parse(text.as_str().as_bytes()) {
        Some(_) => Some(text),
        None => None,
    }
}

/// The body of a deposit of `amount` US dollars (a JSON number) from the
/// payment method `bank_id`; `None` where the two do not make JSON.
pub fn deposit_payload(amount: &str, bank_id: &str) -> (r: Option<String>)
    ensures
        r is Some <==> json_parse(encode_utf8(deposit_text(amount@, bank_id@))) is Some,
        r is Some ==> r->0@ == deposit_text(amount@, bank_id@),
{
    let mut body = String::from_str("{\"amount\":");
    body.push_str(amount);
    body.push_str(",\"currency\":\"USD\",\"payment_method_id\":\"");
    body.push_str(bank_id);
    body.push_str("\"}");
    checked_json(body)
}

/// The body of a market order buying `currency` with `amount` US dollars
/// (a JSON number); `None` where the two do not make JSON.
pub fn order_payload(amount: &str, currency: &str) -> (r: Option<String>)
    ensures
        r is Some <==> json_parse(encode_utf8(order_text(amount@, currency@))) is Some,
        r is Some ==> r->0@ == order_text(amount@, currency@),
{
    let mut body = String::from_str("{\"funds\":");
    body.push_str(amount);
    body.push_str(",\"product_id\":\"");
    body.push_str(currency);
    body.push_str("-USD\",\"side\":\"buy\",\"type\":\"market\"}");
    checked_json(body)
}

} // verus!
