//! The exchange's responses, and the decoder that tells them apart by their
//! shape alone.
use vstd::prelude::*;
use crate::json::{
    copy_json, copy_number, get_member, json_parse, json_value, member, Json, JsonNumber, JsonValue,
    NumberValue,
};

verus! {

/// The latest trade of a product.
#[derive(Clone, Debug, PartialEq, Eq)]
pub struct Tick {
    pub trade_id: u64,
    pub price: String,
    pub size: String,
    pub bid: String,
    pub ask: String,
    pub volume: String,
    pub time: String,
}

/// One candle: its start time in seconds, then low, high, open, close and
/// volume as the exchange wrote them.
#[derive(Debug, PartialEq)]
pub struct Candlestick {
    pub time: u64,
    pub low: JsonNumber,
    pub high: JsonNumber,
    pub open: JsonNumber,
    pub close: JsonNumber,
    pub volume: JsonNumber,
}

#[derive(Clone, Debug, PartialEq, Eq)]
pub struct Account {
    pub id: String,
    pub currency: String,
    pub balance: String,
    pub available: String,
    pub hold: String,
    pub profile_id: String,
}

#[derive(Clone, Debug, PartialEq, Eq)]
pub struct DepositResponse {
    pub id: String,
    pub amount: String,
    pub currency: String,
    pub payout_at: String,
}

#[derive(Clone, Debug, PartialEq, Eq)]
pub struct Order {
    pub id: String,
    pub size: String,
    pub price: String,
    pub side: String,
    pub status: String,
    pub product_id: String,
}

/// A bank account or card; its JSON key `type` is `payment_type` here.
#[derive(Debug, PartialEq)]
pub struct PaymentMethod {
    pub id: String,
    pub payment_type: String,
    pub name: String,
    pub currency: String,
    pub primary_buy: bool,
    pub primary_sell: bool,
    pub allow_buy: bool,
    pub allow_sell: bool,
    pub allow_deposit: bool,
    pub allow_withdraw: bool,
    pub limits: Json,
}

/// An error the exchange reports.
#[derive(Clone, Debug, PartialEq, Eq)]
pub struct ApiError {
    pub message: String,
}

/// A decoded response: exactly one of the shapes the exchange sends.
#[derive(Debug, PartialEq)]
pub enum ApiResponse {
    ApiError(ApiError),
    Tick(Tick),
    Candlesticks(Vec<Candlestick>),
    Account(Account),
    Accounts(Vec<Account>),
    Order(Order),
    Orders(Vec<Order>),
    DepositResponse(DepositResponse),
    PaymentMethods(Vec<PaymentMethod>),
}

/// The shapes a response can have.
#[derive(Clone, Copy, Debug, PartialEq, Eq, Structural)]
pub enum ResponseKind {
    ApiError,
    Tick,
    Candlesticks,
    Account,
    Accounts,
    Order,
    Orders,
    DepositResponse,
    PaymentMethods,
}

#[derive(Clone, Copy, Debug, PartialEq, Eq, Structural)]
pub enum ResponseDecodeError {
    /// The body is not JSON text.
    NotJson,
    /// The body is JSON of none of the known shapes.
    UnknownShape,
}

// ---- what the shapes are ----

pub open spec fn str_member(v: JsonValue, key: Seq<char>) -> Option<Seq<char>> {
    match member(v, key) {
        Some(JsonValue::Str(s)) => Some(s),
        _ => None,
    }
}

pub open spec fn u64_member(v: JsonValue, key: Seq<char>) -> Option<u64> {
    match member(v, key) {
        Some(JsonValue::Number(NumberValue::PosInt(n))) => Some(n),
        _ => None,
    }
}

pub open spec fn bool_member(v: JsonValue, key: Seq<char>) -> Option<bool> {
    match member(v, key) {
        Some(JsonValue::Bool(b)) => Some(b),
        _ => None,
    }
}

/// An error object: a `message` text, and neither an `id` nor a `trade_id`,
/// which every other object the exchange sends carries.
pub open spec fn error_shape(v: JsonValue) -> bool {
    &&& str_member(v, "message"@) is Some
    &&& member(v, "id"@) is None
    &&& member(v, "trade_id"@) is None
}

pub open spec fn tick_read(t: Tick, v: JsonValue) -> bool {
    &&& u64_member(v, "trade_id"@) == Some(t.trade_id)
    &&& str_member(v, "price"@) == Some(t.price@)
    &&& str_member(v, "size"@) == Some(t.size@)
    &&& str_member(v, "bid"@) == Some(t.bid@)
    &&& str_member(v, "ask"@) == Some(t.ask@)
    &&& str_member(v, "volume"@) == Some(t.volume@)
    &&& str_member(v, "time"@) == Some(t.time@)
}

pub open spec fn tick_shape(v: JsonValue) -> bool {
    &&& u64_member(v, "trade_id"@) is Some
    &&& str_member(v, "price"@) is Some
    &&& str_member(v, "size"@) is Some
    &&& str_member(v, "bid"@) is Some
    &&& str_member(v, "ask"@) is Some
    &&& str_member(v, "volume"@) is Some
    &&& str_member(v, "time"@) is Some
}

pub open spec fn account_read(a: Account, v: JsonValue) -> bool {
    &&& str_member(v, "id"@) == Some(a.id@)
    &&& str_member(v, "currency"@) == Some(a.currency@)
    &&& str_member(v, "balance"@) == Some(a.balance@)
    &&& str_member(v, "available"@) == Some(a.available@)
    &&& str_member(v, "hold"@) == Some(a.hold@)
    &&& str_member(v, "profile_id"@) == Some(a.profile_id@)
}

pub open spec fn account_shape(v: JsonValue) -> bool {
    &&& str_member(v, "id"@) is Some
    &&& str_member(v, "currency"@) is Some
    &&& str_member(v, "balance"@) is Some
    &&& str_member(v, "available"@) is Some
    &&& str_member(v, "hold"@) is Some
    &&& str_member(v, "profile_id"@) is Some
}

pub open spec fn order_read(o: Order, v: JsonValue) -> bool {
    &&& str_member(v, "id"@) == Some(o.id@)
    &&& str_member(v, "size"@) == Some(o.size@)
    &&& str_member(v, "price"@) == Some(o.price@)
    &&& str_member(v, "side"@) == Some(o.side@)
    &&& str_member(v, "status"@) == Some(o.status@)
    &&& str_member(v, "product_id"@) == Some(o.product_id@)
}

pub open spec fn order_shape(v: JsonValue) -> bool {
    &&& str_member(v, "id"@) is Some
    &&& str_member(v, "size"@) is Some
    &&& str_member(v, "price"@) is Some
    &&& str_member(v, "side"@) is Some
    &&& str_member(v, "status"@) is Some
    &&& str_member(v, "product_id"@) is Some
}

pub open spec fn deposit_read(d: DepositResponse, v: JsonValue) -> bool {
    &&& str_member(v, "id"@) == Some(d.id@)
    &&& str_member(v, "amount"@) == Some(d.amount@)
    &&& str_member(v, "currency"@) == Some(d.currency@)
    &&& str_member(v, "payout_at"@) == Some(d.payout_at@)
}

pub open spec fn deposit_shape(v: JsonValue) -> bool {
    &&& str_member(v, "id"@) is Some
    &&& str_member(v, "amount"@) is Some
    &&& str_member(v, "currency"@) is Some
    &&& str_member(v, "payout_at"@) is Some
}

pub open spec fn payment_method_read(p: PaymentMethod, v: JsonValue) -> bool {
    &&& str_member(v, "id"@) == Some(p.id@)
    &&& str_member(v, "type"@) == Some(p.payment_type@)
    &&& str_member(v, "name"@) == Some(p.name@)
    &&& str_member(v, "currency"@) == Some(p.currency@)
    &&& bool_member(v, "primary_buy"@) == Some(p.primary_buy)
    &&& bool_member(v, "primary_sell"@) == Some(p.primary_sell)
    &&& bool_member(v, "allow_buy"@) == Some(p.allow_buy)
    &&& bool_member(v, "allow_sell"@) == Some(p.allow_sell)
    &&& bool_member(v, "allow_deposit"@) == Some(p.allow_deposit)
    &&& bool_member(v, "allow_withdraw"@) == Some(p.allow_withdraw)
    &&& member(v, "limits"@) == Some(json_value(p.limits))
}

pub open spec fn payment_method_shape(v: JsonValue) -> bool {
    &&& str_member(v, "id"@) is Some
    &&& str_member(v, "type"@) is Some
    &&& str_member(v, "name"@) is Some
    &&& str_member(v, "currency"@) is Some
    &&& bool_member(v, "primary_buy"@) is Some
    &&& bool_member(v, "primary_sell"@) is Some
    &&& bool_member(v, "allow_buy"@) is Some
    &&& bool_member(v, "allow_sell"@) is Some
    &&& bool_member(v, "allow_deposit"@) is Some
    &&& bool_member(v, "allow_withdraw"@) is Some
    &&& member(v, "limits"@) is Some
}

/// A candle: an array of six numbers, the first a non-negative integer.
pub open spec fn candle_shape(v: JsonValue) -> bool {
    &&& v matches JsonValue::Array(xs)
    &&& xs.len() == 6
    &&& xs[0] matches JsonValue::Number(NumberValue::PosInt(_))
    &&& xs[1] is Number
    &&& xs[2] is Number
    &&& xs[3] is Number
    &&& xs[4] is Number
    &&& xs[5] is Number
}

pub open spec fn candle_read(c: Candlestick, v: JsonValue) -> bool {
    &&& v matches JsonValue::Array(xs)
    &&& xs.len() == 6
    &&& xs[0] == JsonValue::Number(NumberValue::PosInt(c.time))
    &&& xs[1] == JsonValue::Number(c.low@)
    &&& xs[2] == JsonValue::Number(c.high@)
    &&& xs[3] == JsonValue::Number(c.open@)
    &&& xs[4] == JsonValue::Number(c.close@)
    &&& xs[5] == JsonValue::Number(c.volume@)
}

pub open spec fn all_candles(xs: Seq<JsonValue>) -> bool {
    forall|i: int| 0 <= i < xs.len() ==> candle_shape(#[trigger] xs[i])
}

pub open spec fn all_accounts(xs: Seq<JsonValue>) -> bool {
    forall|i: int| 0 <= i < xs.len() ==> account_shape(#[trigger] xs[i])
}

pub open spec fn all_orders(xs: Seq<JsonValue>) -> bool {
    forall|i: int| 0 <= i < xs.len() ==> order_shape(#[trigger] xs[i])
}

pub open spec fn all_payment_methods(xs: Seq<JsonValue>) -> bool {
    forall|i: int| 0 <= i < xs.len() ==> payment_method_shape(#[trigger] xs[i])
}

/// The shape a document decodes to. Objects: the error shape first, then
/// the shape with the most members (tick, account, order, deposit). Arrays:
/// candles first, so that an empty array is an empty page of candles, then
/// accounts, orders and payment methods. Anything else has no shape.
pub open spec fn response_kind(v: JsonValue) -> Option<ResponseKind> {
    match v {
        JsonValue::Array(xs) => if all_candles(xs) {
            Some(ResponseKind::Candlesticks)
        } else if all_accounts(xs) {
            Some(ResponseKind::Accounts)
        } else if all_orders(xs) {
            Some(ResponseKind::Orders)
        } else if all_payment_methods(xs) {
            Some(ResponseKind::PaymentMethods)
        } else {
            None
        },
        JsonValue::Object(_) => if error_shape(v) {
            Some(ResponseKind::ApiError)
        } else if tick_shape(v) {
            Some(ResponseKind::Tick)
        } else if account_shape(v) {
            Some(ResponseKind::Account)
        } else if order_shape(v) {
            Some(ResponseKind::Order)
        } else if deposit_shape(v) {
            Some(ResponseKind::DepositResponse)
        } else {
            None
        },
        _ => None,
    }
}

impl ApiResponse {
    pub open spec fn kind(&self) -> ResponseKind {
        match self {
            ApiResponse::ApiError(_) => ResponseKind::ApiError,
            ApiResponse::Tick(_) => ResponseKind::Tick,
            ApiResponse::Candlesticks(_) => ResponseKind::Candlesticks,
            ApiResponse::Account(_) => ResponseKind::Account,
            ApiResponse::Accounts(_) => ResponseKind::Accounts,
            ApiResponse::Order(_) => ResponseKind::Order,
            ApiResponse::Orders(_) => ResponseKind::Orders,
            ApiResponse::DepositResponse(_) => ResponseKind::DepositResponse,
            ApiResponse::PaymentMethods(_) => ResponseKind::PaymentMethods,
        }
    }
}

/// `r` holds what the document `v` says, in the shape `v` decodes to.
pub open spec fn decoded_from(r: ApiResponse, v: JsonValue) -> bool {
    &&& response_kind(v) == Some(r.kind())
    &&& match r {
        ApiResponse::ApiError(e) => str_member(v, "message"@) == Some(e.message@),
        ApiResponse::Tick(t) => tick_read(t, v),
        ApiResponse::Account(a) => account_read(a, v),
        ApiResponse::Order(o) => order_read(o, v),
        ApiResponse::DepositResponse(d) => deposit_read(d, v),
        ApiResponse::Candlesticks(cs) => v matches JsonValue::Array(xs) && cs.len() == xs.len()
            && forall|i: int| 0 <= i < xs.len() ==> candle_read(#[trigger] cs[i], xs[i]),
        ApiResponse::Accounts(a) => v matches JsonValue::Array(xs) && a.len() == xs.len()
            && forall|i: int| 0 <= i < xs.len() ==> account_read(#[trigger] a[i], xs[i]),
        ApiResponse::Orders(o) => v matches JsonValue::Array(xs) && o.len() == xs.len()
            && forall|i: int| 0 <= i < xs.len() ==> order_read(#[trigger] o[i], xs[i]),
        ApiResponse::PaymentMethods(p) => v matches JsonValue::Array(xs) && p.len() == xs.len()
            && forall|i: int| 0 <= i < xs.len() ==> payment_method_read(#[trigger] p[i], xs[i]),
    }
}

/// The document has at least one of the nine shapes.
pub open spec fn known_shape(v: JsonValue) -> bool {
    match v {
        JsonValue::Array(xs) => all_candles(xs) || all_accounts(xs) || all_orders(xs)
            || all_payment_methods(xs),
        JsonValue::Object(_) => error_shape(v) || tick_shape(v) || account_shape(v) || order_shape(
            v,
        ) || deposit_shape(v),
        _ => false,
    }
}

/// Decoding is total over the nine shapes: a document of a known shape
/// decodes, and any other does not. The error shape excludes every other
/// object shape, so an error always decodes as one; a tick always decodes
/// as a tick; a non-empty array of candles is never taken for a list of
/// objects, and the reverse. Where a document fits several object shapes,
/// or several list shapes, the one tried first wins.
pub proof fn lemma_decoding_total(v: JsonValue)
    ensures
        known_shape(v) <==> response_kind(v) is Some,
        error_shape(v) ==> !tick_shape(v) && !account_shape(v) && !order_shape(v) && !deposit_shape(v)
            && !payment_method_shape(v),
        v is Object && error_shape(v) ==> response_kind(v) == Some(ResponseKind::ApiError),
        v is Object && tick_shape(v) ==> response_kind(v) == Some(ResponseKind::Tick),
        v is Object && account_shape(v) && !tick_shape(v) ==> response_kind(v) == Some(
            ResponseKind::Account,
        ),
        v is Object && order_shape(v) && !tick_shape(v) && !account_shape(v) ==> response_kind(v)
            == Some(ResponseKind::Order),
        v is Object && deposit_shape(v) && !tick_shape(v) && !account_shape(v) && !order_shape(v)
            ==> response_kind(v) == Some(ResponseKind::DepositResponse),
        v matches JsonValue::Array(xs) && all_candles(xs) ==> response_kind(v) == Some(
            ResponseKind::Candlesticks,
        ),
        v matches JsonValue::Array(xs) && xs.len() > 0 && all_accounts(xs) ==> response_kind(v)
            == Some(ResponseKind::Accounts),
        v matches JsonValue::Array(xs) && xs.len() > 0 && all_orders(xs) && !all_accounts(xs)
            ==> response_kind(v) == Some(ResponseKind::Orders),
        v matches JsonValue::Array(xs) && xs.len() > 0 && all_payment_methods(xs) && !all_accounts(xs)
            && !all_orders(xs) ==> response_kind(v) == Some(ResponseKind::PaymentMethods),
{
    if let JsonValue::Array(xs) = v {
        if xs.len() > 0 {
            if all_accounts(xs) || all_orders(xs) || all_payment_methods(xs) {
                assert(!candle_shape(xs[0]));
            }
        }
    }
}

// ---- reading the shapes ----

fn str_member_of(j: &Json, key: &str) -> (r: Option<String>)
    ensures
        r is Some <==> str_member(json_value(*j), key@) is Some,
        r is Some ==> str_member(json_value(*j), key@) == Some(r->0@),
{
    match get_member(j, key) {
        Some(Json::Str(s)) => Some(s.clone()),
        _ => None,
    }
}

fn u64_member_of(j: &Json, key: &str) -> (r: Option<u64>)
    ensures
        r == u64_member(json_value(*j), key@),
{
    match get_member(j, key) {
        Some(Json::Number(JsonNumber::PosInt(n))) => Some(*n),
        _ => None,
    }
}

fn bool_member_of(j: &Json, key: &str) -> (r: Option<bool>)
    ensures
        r == bool_member(json_value(*j), key@),
{
    match get_member(j, key) {
        Some(Json::Bool(b)) => Some(*b),
        _ => None,
    }
}

fn number_of(j: &Json) -> (r: Option<JsonNumber>)
    ensures
        r is Some <==> json_value(*j) is Number,
        r is Some ==> json_value(*j) == JsonValue::Number(r->0@),
{
    match j {
        Json::Number(n) => Some(copy_number(n)),
        _ => None,
    }
}

fn read_error(j: &Json) -> (r: Option<ApiError>)
    ensures
        r is Some <==> error_shape(json_value(*j)),
        r is Some ==> str_member(json_value(*j), "message"@) == Some(r->0.message@),
{
    if get_member(j, "id").is_some() || get_member(j, "trade_id").is_some() {
        return None;
    }
    match str_member_of(j, "message") {
        Some(message) => Some(ApiError { message }),
        None => None,
    }
}

fn read_tick(j: &Json) -> (r: Option<Tick>)
    ensures
        r is Some <==> tick_shape(json_value(*j)),
        r is Some ==> tick_read(r->0, json_value(*j)),
{
    match (
        u64_member_of(j, "trade_id"),
        str_member_of(j, "price"),
        str_member_of(j, "size"),
        str_member_of(j, "bid"),
        str_member_of(j, "ask"),
        str_member_of(j, "volume"),
        str_member_of(j, "time"),
    ) {
        (Some(trade_id), Some(price), Some(size), Some(bid), Some(ask), Some(volume), Some(time)) => {
            Some(Tick { trade_id, price, size, bid, ask, volume, time })
        },
        _ => None,
    }
}

fn read_account(j: &Json) -> (r: Option<Account>)
    ensures
        r is Some <==> account_shape(json_value(*j)),
        r is Some ==> account_read(r->0, json_value(*j)),
{
    match (
        str_member_of(j, "id"),
        str_member_of(j, "currency"),
        str_member_of(j, "balance"),
        str_member_of(j, "available"),
        str_member_of(j, "hold"),
        str_member_of(j, "profile_id"),
    ) {
        (Some(id), Some(currency), Some(balance), Some(available), Some(hold), Some(profile_id)) => {
            Some(Account { id, currency, balance, available, hold, profile_id })
        },
        _ => None,
    }
}

fn read_order(j: &Json) -> (r: Option<Order>)
    ensures
        r is Some <==> order_shape(json_value(*j)),
        r is Some ==> order_read(r->0, json_value(*j)),
{
    match (
        str_member_of(j, "id"),
        str_member_of(j, "size"),
        str_member_of(j, "price"),
        str_member_of(j, "side"),
        str_member_of(j, "status"),
        str_member_of(j, "product_id"),
    ) {
        (Some(id), Some(size), Some(price), Some(side), Some(status), Some(product_id)) => {
            Some(Order { id, size, price, side, status, product_id })
        },
        _ => None,
    }
}

fn read_deposit(j: &Json) -> (r: Option<DepositResponse>)
    ensures
        r is Some <==> deposit_shape(json_value(*j)),
        r is Some ==> deposit_read(r->0, json_value(*j)),
{
    match (
        str_member_of(j, "id"),
        str_member_of(j, "amount"),
        str_member_of(j, "currency"),
        str_member_of(j, "payout_at"),
    ) {
        (Some(id), Some(amount), Some(currency), Some(payout_at)) => {
            Some(DepositResponse { id, amount, currency, payout_at })
        },
        _ => None,
    }
}

fn read_payment_method(j: &Json) -> (r: Option<PaymentMethod>)
    ensures
        r is Some <==> payment_method_shape(json_value(*j)),
        r is Some ==> payment_method_read(r->0, json_value(*j)),
{
    let limits = match get_member(j, "limits") {
        Some(l) => copy_json(l),
        None => return None,
    };
    match (
        str_member_of(j, "id"),
        str_member_of(j, "type"),
        str_member_of(j, "name"),
        str_member_of(j, "currency"),
        bool_member_of(j, "primary_buy"),
        bool_member_of(j, "primary_sell"),
        bool_member_of(j, "allow_buy"),
        bool_member_of(j, "allow_sell"),
        bool_member_of(j, "allow_deposit"),
        bool_member_of(j, "allow_withdraw"),
    ) {
        (
            Some(id),
            Some(payment_type),
            Some(name),
            Some(currency),
            Some(primary_buy),
            Some(primary_sell),
            Some(allow_buy),
            Some(allow_sell),
            Some(allow_deposit),
            Some(allow_withdraw),
        ) => Some(
            PaymentMethod {
                id,
                payment_type,
                name,
                currency,
                primary_buy,
                primary_sell,
                allow_buy,
                allow_sell,
                allow_deposit,
                allow_withdraw,
                limits,
            },
        ),
        _ => None,
    }
}

fn read_candle(j: &Json) -> (r: Option<Candlestick>)
    ensures
        r is Some <==> candle_shape(json_value(*j)),
        r is Some ==> candle_read(r->0, json_value(*j)),
{
    match j {
        Json::Array(xs) => {
            let ghost vs = match json_value(*j) {
                JsonValue::Array(vs) => vs,
                _ => Seq::empty(),
            };
            assert(forall|i: int|
                #![trigger vs[i]]
                #![trigger xs[i]]
                0 <= i < xs.len() ==> vs[i] == json_value(xs[i]));
            if xs.len() != 6 {
                return None;
            }
            assert(vs[0] == json_value(xs[0]));
            let time = match &xs[0] {
                Json::Number(JsonNumber::PosInt(t)) => *t,
                _ => return None,
            };
            match (number_of(&xs[1]), number_of(&xs[2]), number_of(&xs[3]), number_of(&xs[4]), number_of(&xs[5])) {
                (Some(low), Some(high), Some(open), Some(close), Some(volume)) => {
                    Some(Candlestick { time, low, high, open, close, volume })
                },
                _ => None,
            }
        },
        _ => None,
    }
}

fn read_candles(items: &Vec<Json>) -> (r: Option<Vec<Candlestick>>)
    ensures
        r is Some <==> forall|i: int| 0 <= i < items.len() ==> candle_shape(json_value(#[trigger] items[i])),
        r is Some ==> r->0.len() == items.len() && forall|i: int|
            0 <= i < items.len() ==> candle_read(#[trigger] r->0[i], json_value(items[i])),
{
    let mut out: Vec<Candlestick> = Vec::new();
    let mut i: usize = 0;
    while i < items.len()
        invariant
            i <= items.len(),
            out.len() == i,
            forall|k: int| 0 <= k < i ==> candle_shape(json_value(#[trigger] items[k])),
            forall|k: int| 0 <= k < i ==> candle_read(#[trigger] out[k], json_value(items[k])),
        decreases items.len() - i,
    {
        match read_candle(&items[i]) {
            Some(c) => out.push(c),
            None => return None,
        }
        i = i + 1;
    }
    Some(out)
}

fn read_accounts(items: &Vec<Json>) -> (r: Option<Vec<Account>>)
    ensures
        r is Some <==> forall|i: int| 0 <= i < items.len() ==> account_shape(json_value(#[trigger] items[i])),
        r is Some ==> r->0.len() == items.len() && forall|i: int|
            0 <= i < items.len() ==> account_read(#[trigger] r->0[i], json_value(items[i])),
{
    let mut out: Vec<Account> = Vec::new();
    let mut i: usize = 0;
    while i < items.len()
        invariant
            i <= items.len(),
            out.len() == i,
            forall|k: int| 0 <= k < i ==> account_shape(json_value(#[trigger] items[k])),
            forall|k: int| 0 <= k < i ==> account_read(#[trigger] out[k], json_value(items[k])),
        decreases items.len() - i,
    {
        match read_account(&items[i]) {
            Some(a) => out.push(a),
            None => return None,
        }
        i = i + 1;
    }
    Some(out)
}

fn read_orders(items: &Vec<Json>) -> (r: Option<Vec<Order>>)
    ensures
        r is Some <==> forall|i: int| 0 <= i < items.len() ==> order_shape(json_value(#[trigger] items[i])),
        r is Some ==> r->0.len() == items.len() && forall|i: int|
            0 <= i < items.len() ==> order_read(#[trigger] r->0[i], json_value(items[i])),
{
    let mut out: Vec<Order> = Vec::new();
    let mut i: usize = 0;
    while i < items.len()
        invariant
            i <= items.len(),
            out.len() == i,
            forall|k: int| 0 <= k < i ==> order_shape(json_value(#[trigger] items[k])),
            forall|k: int| 0 <= k < i ==> order_read(#[trigger] out[k], json_value(items[k])),
        decreases items.len() - i,
    {
        match read_order(&items[i]) {
            Some(o) => out.push(o),
            None => return None,
        }
        i = i + 1;
    }
    Some(out)
}

fn read_payment_methods(items: &Vec<Json>) -> (r: Option<Vec<PaymentMethod>>)
    ensures
        r is Some <==> forall|i: int|
            0 <= i < items.len() ==> payment_method_shape(json_value(#[trigger] items[i])),
        r is Some ==> r->0.len() == items.len() && forall|i: int|
            0 <= i < items.len() ==> payment_method_read(#[trigger] r->0[i], json_value(items[i])),
{
    let mut out: Vec<PaymentMethod> = Vec::new();
    let mut i: usize = 0;
    while i < items.len()
        invariant
            i <= items.len(),
            out.len() == i,
            forall|k: int| 0 <= k < i ==> payment_method_shape(json_value(#[trigger] items[k])),
            forall|k: int| 0 <= k < i ==> payment_method_read(#[trigger] out[k], json_value(items[k])),
        decreases items.len() - i,
    {
        match read_payment_method(&items[i]) {
            Some(p) => out.push(p),
            None => return None,
        }
        i = i + 1;
    }
    Some(out)
}

/// Decodes a document into the one shape it has; see `response_kind` for
/// the order in which the shapes are tried.
pub fn decode(j: &Json) -> (r: Result<ApiResponse, ResponseDecodeError>)
    ensures
        r is Ok <==> response_kind(json_value(*j)) is Some,
        r is Ok ==> decoded_from(r->Ok_0, json_value(*j)),
        r is Err ==> r->Err_0 == ResponseDecodeError::UnknownShape,
{
    match j {
        Json::Array(items) => {
            let ghost xs = match json_value(*j) {
                JsonValue::Array(xs) => xs,
                _ => Seq::empty(),
            };
            assert(xs.len() == items.len());
            assert(forall|i: int|
                #![trigger xs[i]]
                #![trigger items[i]]
                0 <= i < items.len() ==> xs[i] == json_value(items[i]));
            if let Some(cs) = read_candles(items) {
                return Ok(ApiResponse::Candlesticks(cs));
            }
            if let Some(a) = read_accounts(items) {
                return Ok(ApiResponse::Accounts(a));
            }
            if let Some(o) = read_orders(items) {
                return Ok(ApiResponse::Orders(o));
            }
            if let Some(p) = read_payment_methods(items) {
                return Ok(ApiResponse::PaymentMethods(p));
            }
            Err(ResponseDecodeError::UnknownShape)
        },
        Json::Object(_) => {
            if let Some(e) = read_error(j) {
                return Ok(ApiResponse::ApiError(e));
            }
            if let Some(t) = read_tick(j) {
                return Ok(ApiResponse::Tick(t));
            }
            if let Some(a) = read_account(j) {
                return Ok(ApiResponse::Account(a));
            }
            if let Some(o) = read_order(j) {
                return Ok(ApiResponse::Order(o));
            }
            if let Some(d) = read_deposit(j) {
                return Ok(ApiResponse::DepositResponse(d));
            }
            Err(ResponseDecodeError::UnknownShape)
        },
        _ => Err(ResponseDecodeError::UnknownShape),
    }
}

/// Decodes a response body: `NotJson` where serde_json rejects the text,
/// else as `decode` does on the document it reads.
pub fn decode_response(body: &[u8]) -> (r: Result<ApiResponse, ResponseDecodeError>)
    ensures
        json_parse(body@) is None ==> r == Err::<ApiResponse, ResponseDecodeError>(
            ResponseDecodeError::NotJson,
        ),
        json_parse(body@) matches Some(v) ==> {
            &&& r is Ok <==> response_kind(v) is Some
            &&& r is Ok ==> decoded_from(r->Ok_0, v)
            &&& r is Err ==> r->Err_0 == ResponseDecodeError::UnknownShape
        },
{
    match Json::parse(body) {
        Some(j) => decode(&j),
        None => Err(ResponseDecodeError::NotJson),
    }
}

} // verus!
