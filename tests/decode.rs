use hodl::api::{decode, decode_response, ApiResponse, ResponseDecodeError};
use hodl::history::{candle_row, csv_header};
use hodl::json::{Json, JsonNumber};

fn decoded(text: &str) -> Result<ApiResponse, ResponseDecodeError> {
    decode_response(text.as_bytes())
}

#[test]
fn decodes_one_candle_and_renders_csv() {
    let r = decoded("[[1577836800,100,110,105,108,50]]").unwrap();
    let cs = match r {
        ApiResponse::Candlesticks(cs) => cs,
        other => panic!("unexpected {:?}", other),
    };
    assert_eq!(cs.len(), 1);
    assert_eq!(cs[0].time, 1577836800);
    assert_eq!(cs[0].low, JsonNumber::PosInt(100));
    assert_eq!(cs[0].high, JsonNumber::PosInt(110));
    assert_eq!(cs[0].open, JsonNumber::PosInt(105));
    assert_eq!(cs[0].close, JsonNumber::PosInt(108));
    assert_eq!(cs[0].volume, JsonNumber::PosInt(50));
    let mut out = csv_header();
    out.extend(candle_row(&cs[0]));
    assert_eq!(
        String::from_utf8(out).unwrap(),
        "time,low,high,open,close,volume\n1577836800,100,110,105,108,50\n"
    );
}

#[test]
fn candle_row_keeps_fractions_and_signs() {
    let r = decoded("[[1,1.5,2,-3,4,5.25]]").unwrap();
    match r {
        ApiResponse::Candlesticks(cs) => {
            assert_eq!(cs[0].open, JsonNumber::NegInt(-3));
            assert_eq!(String::from_utf8(candle_row(&cs[0])).unwrap(), "1,1.5,2,-3,4,5.25\n");
        }
        other => panic!("unexpected {:?}", other),
    }
}

#[test]
fn empty_array_is_an_empty_page_of_candles() {
    assert_eq!(decoded("[]"), Ok(ApiResponse::Candlesticks(Vec::new())));
}

#[test]
fn decodes_error_object() {
    match decoded("{\"message\":\"rate limit exceeded\"}") {
        Ok(ApiResponse::ApiError(e)) => assert_eq!(e.message, "rate limit exceeded"),
        other => panic!("unexpected {:?}", other),
    }
}

#[test]
fn message_beside_an_id_is_not_an_error() {
    assert_eq!(
        decoded("{\"message\":\"x\",\"id\":\"1\"}"),
        Err(ResponseDecodeError::UnknownShape)
    );
}

#[test]
fn decodes_tick() {
    let text = "{\"trade_id\":4729088,\"price\":\"333.99\",\"size\":\"0.193\",\"bid\":\"333.98\",\
                \"ask\":\"333.99\",\"volume\":\"5957.11914015\",\"time\":\"2015-11-14T20:46:03.511254Z\"}";
    match decoded(text) {
        Ok(ApiResponse::Tick(t)) => {
            assert_eq!(t.trade_id, 4729088);
            assert_eq!(t.price, "333.99");
            assert_eq!(t.time, "2015-11-14T20:46:03.511254Z");
        }
        other => panic!("unexpected {:?}", other),
    }
}

#[test]
fn decodes_accounts_and_single_account() {
    let acct = "{\"id\":\"a1\",\"currency\":\"BTC\",\"balance\":\"1.0\",\"available\":\"0.5\",\
                \"hold\":\"0.5\",\"profile_id\":\"p\"}";
    match decoded(acct) {
        Ok(ApiResponse::Account(a)) => assert_eq!(a.currency, "BTC"),
        other => panic!("unexpected {:?}", other),
    }
    match decoded(&format!("[{}]", acct)) {
        Ok(ApiResponse::Accounts(v)) => {
            assert_eq!(v.len(), 1);
            assert_eq!(v[0].balance, "1.0");
        }
        other => panic!("unexpected {:?}", other),
    }
}

#[test]
fn decodes_orders_deposit_and_payment_methods() {
    let order = "{\"id\":\"o1\",\"size\":\"1\",\"price\":\"10\",\"side\":\"buy\",\"status\":\"pending\",\
                 \"product_id\":\"BTC-USD\"}";
    match decoded(order) {
        Ok(ApiResponse::Order(o)) => assert_eq!(o.status, "pending"),
        other => panic!("unexpected {:?}", other),
    }
    match decoded(&format!("[{},{}]", order, order)) {
        Ok(ApiResponse::Orders(v)) => assert_eq!(v.len(), 2),
        other => panic!("unexpected {:?}", other),
    }
    let deposit = "{\"id\":\"d1\",\"amount\":\"10.00\",\"currency\":\"USD\",\"payout_at\":\"2020-01-01\"}";
    match decoded(deposit) {
        Ok(ApiResponse::DepositResponse(d)) => assert_eq!(d.amount, "10.00"),
        other => panic!("unexpected {:?}", other),
    }
    let pm = "[{\"id\":\"p1\",\"type\":\"ach_bank_account\",\"name\":\"Bank\",\"currency\":\"USD\",\
              \"primary_buy\":true,\"primary_sell\":false,\"allow_buy\":true,\"allow_sell\":true,\
              \"allow_deposit\":true,\"allow_withdraw\":false,\"limits\":{\"buy\":[1,2]}}]";
    match decoded(pm) {
        Ok(ApiResponse::PaymentMethods(v)) => {
            assert_eq!(v[0].payment_type, "ach_bank_account");
            assert!(v[0].primary_buy);
            assert!(!v[0].allow_withdraw);
            assert_eq!(
                v[0].limits,
                Json::Object(vec![(
                    "buy".to_string(),
                    Json::Array(vec![Json::Number(JsonNumber::PosInt(1)), Json::Number(JsonNumber::PosInt(2))])
                )])
            );
        }
        other => panic!("unexpected {:?}", other),
    }
}

#[test]
fn unknown_shapes_and_bad_text_are_errors() {
    assert_eq!(decoded("not json"), Err(ResponseDecodeError::NotJson));
    assert_eq!(decoded("{\"foo\":1}"), Err(ResponseDecodeError::UnknownShape));
    assert_eq!(decoded("42"), Err(ResponseDecodeError::UnknownShape));
    assert_eq!(decoded("[[1,2,3]]"), Err(ResponseDecodeError::UnknownShape));
    assert_eq!(decoded("[[-1,2,3,4,5,6]]"), Err(ResponseDecodeError::UnknownShape));
    assert_eq!(decoded("{\"message\":5}"), Err(ResponseDecodeError::UnknownShape));
}

#[test]
fn decode_reads_a_built_document() {
    let j = Json::Object(vec![("message".to_string(), Json::Str("down".to_string()))]);
    match decode(&j) {
        Ok(ApiResponse::ApiError(e)) => assert_eq!(e.message, "down"),
        other => panic!("unexpected {:?}", other),
    }
    assert_eq!(decode(&Json::Null), Err(ResponseDecodeError::UnknownShape));
}

#[test]
fn json_parse_keeps_the_tree() {
    let j = Json::parse(b"{\"a\":[true,null,\"x\",-2,1.5]}").unwrap();
    assert_eq!(
        j,
        Json::Object(vec![(
            "a".to_string(),
            Json::Array(vec![
                Json::Bool(true),
                Json::Null,
                Json::Str("x".to_string()),
                Json::Number(JsonNumber::NegInt(-2)),
                Json::Number(JsonNumber::Float("1.5".to_string())),
            ])
        )])
    );
    assert_eq!(Json::parse(b"{"), None);
}
