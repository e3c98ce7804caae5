use hodl::api::{Account, ApiError, ApiResponse, Order, ResponseKind};
use hodl::endpoints::{
    account_for, accounts_from, deposit_from, deposit_payload, find_account, order_from, order_payload,
    orders_from, orders_path, payment_methods_from, request_url, tick_url, EndpointError,
};

fn account(id: &str, currency: &str) -> Account {
    Account {
        id: id.to_string(),
        currency: currency.to_string(),
        balance: "1".to_string(),
        available: "1".to_string(),
        hold: "0".to_string(),
        profile_id: "p".to_string(),
    }
}

fn order(id: &str) -> Order {
    Order {
        id: id.to_string(),
        size: "1".to_string(),
        price: "2".to_string(),
        side: "buy".to_string(),
        status: "done".to_string(),
        product_id: "BTC-USD".to_string(),
    }
}

fn api_error(m: &str) -> ApiResponse {
    ApiResponse::ApiError(ApiError { message: m.to_string() })
}

#[test]
fn accounts_and_lookup() {
    let list = vec![account("a", "USD"), account("b", "BTC"), account("c", "BTC")];
    assert_eq!(accounts_from(ApiResponse::Accounts(list.clone())), Ok(list.clone()));
    assert_eq!(accounts_from(ApiResponse::Candlesticks(vec![])), Ok(vec![]));
    assert_eq!(accounts_from(api_error("no")), Err(EndpointError::Exchange("no".to_string())));
    assert_eq!(
        accounts_from(ApiResponse::Order(order("o"))),
        Err(EndpointError::Unexpected(ResponseKind::Order))
    );
    assert_eq!(find_account(&list, "BTC"), Some(1));
    assert_eq!(find_account(&list, "ETH"), None);
    assert_eq!(account_for(list.clone(), "BTC"), Ok(account("b", "BTC")));
    assert_eq!(account_for(list, "ETH"), Err(EndpointError::NoAccount("ETH".to_string())));
}

#[test]
fn orders_deposits_and_payment_methods() {
    assert_eq!(orders_from(ApiResponse::Orders(vec![order("1")])), Ok(vec![order("1")]));
    assert_eq!(
        orders_from(ApiResponse::Account(account("a", "USD"))),
        Err(EndpointError::Unexpected(ResponseKind::Account))
    );
    assert_eq!(orders_from(ApiResponse::Candlesticks(vec![])), Ok(vec![]));
    assert_eq!(orders_from(api_error("bad")), Err(EndpointError::Exchange("bad".to_string())));
    assert_eq!(order_from(ApiResponse::Order(order("9"))), Ok(order("9")));
    assert_eq!(order_from(api_error("funds")), Err(EndpointError::Exchange("funds".to_string())));
    assert_eq!(
        deposit_from(ApiResponse::Orders(vec![])),
        Err(EndpointError::Unexpected(ResponseKind::Orders))
    );
    assert_eq!(payment_methods_from(ApiResponse::Candlesticks(vec![])).map(|v| v.len()), Ok(0));
}

#[test]
fn request_paths() {
    assert_eq!(orders_path(None), "/orders");
    assert_eq!(orders_path(Some("BTC-USD")), "/orders?product_id=BTC-USD");
    assert_eq!(tick_url("ETH-USD"), "https://api.pro.coinbase.com/products/ETH-USD/ticker");
    assert_eq!(request_url("/accounts"), "https://api.pro.coinbase.com/accounts");
}

#[test]
fn payloads_are_checked_json() {
    assert_eq!(
        deposit_payload("12.5", "bank-1"),
        Some("{\"amount\":12.5,\"currency\":\"USD\",\"payment_method_id\":\"bank-1\"}".to_string())
    );
    assert_eq!(deposit_payload("12.5", "a\"b"), None);
    assert_eq!(deposit_payload("NaN", "bank-1"), None);
    assert_eq!(
        order_payload("5.25", "BTC"),
        Some("{\"funds\":5.25,\"product_id\":\"BTC-USD\",\"side\":\"buy\",\"type\":\"market\"}".to_string())
    );
    assert_eq!(order_payload("inf", "BTC"), None);
}
