use sma_controller::config::{Config, ControlConfig, InverterConfig};
use sma_controller::decimal::Decimal;
use sma_controller::inverter::{
    get_values_body, login_body, login_sid, param_write_result, power_limit_from_reply,
    power_limit_from_text, power_limit_read, set_param_body, status_is_success, InverterError, LoginReply, LoginResult,
    ParamReply, POWER_LIMIT_PARAM, VERIFY_DELAY_SECS,
};
use sma_controller::json::JsonValue;

fn config() -> Config {
    Config {
        inverter: InverterConfig {
            host: "10.0.0.7".to_string(),
            port: 18443,
            right: "istl".to_string(),
            password: "pw".to_string(),
            max_power_watts: 180000,
        },
        control: ControlConfig {
            csv_dir: "/tmp".to_string(),
            price_threshold_eur_mwh: Decimal { negative: false, magnitude: 80, scale: 0 },
            limit_power_watts: 500,
            poll_interval_secs: 60,
        },
    }
}

fn obj(entries: Vec<(&str, JsonValue)>) -> JsonValue {
    JsonValue::Object(entries.into_iter().map(|(k, v)| (k.to_string(), v)).collect())
}

fn reading(val: JsonValue) -> JsonValue {
    obj(vec![(POWER_LIMIT_PARAM, obj(vec![("1", JsonValue::Array(vec![obj(vec![("val", val)])]))]))])
}

fn values_reply(devices: Vec<(&str, JsonValue)>) -> JsonValue {
    obj(vec![("result", obj(devices))])
}

#[test]
fn constants() {
    assert_eq!(POWER_LIMIT_PARAM, "6802_00866900");
    assert_eq!(VERIFY_DELAY_SECS, 5);
}

#[test]
fn success_statuses() {
    assert!(status_is_success(200));
    assert!(status_is_success(204));
    assert!(status_is_success(299));
    assert!(!status_is_success(199));
    assert!(!status_is_success(300));
    assert!(!status_is_success(401));
}

#[test]
fn login_outcomes() {
    let ok = || Some(LoginReply { result: Some(LoginResult { sid: "abc123".to_string() }), err: None });
    assert_eq!(login_sid(200, ok()), Ok("abc123".to_string()));
    assert_eq!(login_sid(500, ok()), Err(InverterError::HttpStatus(500)));
    assert_eq!(login_sid(200, None), Err(InverterError::MalformedReply));
    assert_eq!(
        login_sid(
            200,
            Some(LoginReply {
                result: Some(LoginResult { sid: "x".to_string() }),
                err: Some(JsonValue::Number(Some(401)))
            })
        ),
        Err(InverterError::Rejected)
    );
    assert_eq!(
        login_sid(200, Some(LoginReply { result: None, err: None })),
        Err(InverterError::MissingResult)
    );
    assert_eq!(
        login_sid(200, Some(LoginReply { result: Some(LoginResult { sid: String::new() }), err: None })),
        Err(InverterError::EmptySid)
    );
}

#[test]
fn write_outcomes() {
    let accepted = Some(ParamReply { result: Some(obj(vec![])), err: None });
    assert_eq!(param_write_result(200, &accepted), Ok(()));
    assert_eq!(param_write_result(200, &Some(ParamReply { result: None, err: None })), Ok(()));
    assert_eq!(param_write_result(503, &accepted), Err(InverterError::HttpStatus(503)));
    assert_eq!(param_write_result(200, &None), Err(InverterError::MalformedReply));
    assert_eq!(
        param_write_result(200, &Some(ParamReply { result: None, err: Some(JsonValue::Number(Some(503))) })),
        Err(InverterError::Rejected)
    );
}

#[test]
fn read_takes_the_value() {
    let r = values_reply(vec![("0199-xxxxx385", reading(JsonValue::Number(Some(180000))))]);
    assert_eq!(power_limit_from_reply(&r), Ok(180000));
    assert_eq!(power_limit_read(200, &Some(r)), Ok(180000));
}

#[test]
fn read_takes_the_first_device_with_the_parameter() {
    let r = values_reply(vec![
        ("a", obj(vec![("other", JsonValue::Null)])),
        ("b", reading(JsonValue::Number(Some(500)))),
        ("c", reading(JsonValue::Number(Some(700)))),
    ]);
    assert_eq!(power_limit_from_reply(&r), Ok(500));
    let r = values_reply(vec![("a", JsonValue::Str("x".to_string())), ("b", reading(JsonValue::Null))]);
    assert_eq!(power_limit_from_reply(&r), Err(InverterError::UnexpectedValueShape));
}

#[test]
fn read_cuts_large_values_to_32_bits() {
    let r = values_reply(vec![("d", reading(JsonValue::Number(Some(4_294_967_296 + 5))))]);
    assert_eq!(power_limit_from_reply(&r), Ok(5));
}

#[test]
fn read_errors() {
    assert_eq!(power_limit_read(404, &Some(obj(vec![]))), Err(InverterError::HttpStatus(404)));
    assert_eq!(power_limit_read(200, &None), Err(InverterError::MalformedReply));
    assert_eq!(
        power_limit_from_reply(&obj(vec![("err", JsonValue::Null), ("result", obj(vec![]))])),
        Err(InverterError::Rejected)
    );
    assert_eq!(power_limit_from_reply(&obj(vec![])), Err(InverterError::MissingResult));
    assert_eq!(power_limit_from_reply(&JsonValue::Array(vec![])), Err(InverterError::MissingResult));
    assert_eq!(
        power_limit_from_reply(&obj(vec![("result", JsonValue::Array(vec![]))])),
        Err(InverterError::ResultNotObject)
    );
    assert_eq!(power_limit_from_reply(&values_reply(vec![])), Err(InverterError::ParamNotFound));
    assert_eq!(
        power_limit_from_reply(&values_reply(vec![("d", reading(JsonValue::Number(None)))])),
        Err(InverterError::UnexpectedValueShape)
    );
    let no_array = obj(vec![(POWER_LIMIT_PARAM, obj(vec![("1", obj(vec![("val", JsonValue::Number(Some(1)))]))]))]);
    assert_eq!(
        power_limit_from_reply(&values_reply(vec![("d", no_array)])),
        Err(InverterError::UnexpectedValueShape)
    );
    let empty_array = obj(vec![(POWER_LIMIT_PARAM, obj(vec![("1", JsonValue::Array(vec![]))]))]);
    assert_eq!(
        power_limit_from_reply(&values_reply(vec![("d", empty_array)])),
        Err(InverterError::UnexpectedValueShape)
    );
}

#[test]
fn urls() {
    let c = config();
    assert_eq!(c.login_url(), "https://10.0.0.7:18443/dyn/login.json");
    assert_eq!(c.set_param_url("S1"), "https://10.0.0.7:18443/dyn/setParamValues.json?sid=S1");
    assert_eq!(c.get_values_url("S1"), "https://10.0.0.7:18443/dyn/getValues.json?sid=S1");
    assert_eq!(c.logout_url("S1"), "https://10.0.0.7:18443/dyn/logout.json?sid=S1");
}

#[test]
fn bodies() {
    assert_eq!(
        set_param_body(500),
        "{\"destDev\":[],\"values\":[{\"6802_00866900\":{\"1\":[500]}}]}"
    );
    assert_eq!(
        set_param_body(0),
        "{\"destDev\":[],\"values\":[{\"6802_00866900\":{\"1\":[0]}}]}"
    );
    assert_eq!(get_values_body(), "{\"destDev\":[],\"keys\":[\"6802_00866900\"]}");
    assert_eq!(login_body("istl", "pw"), "{\"right\":\"istl\",\"pass\":\"pw\"}");
    assert_eq!(
        login_body("usr", "a\"b\\c\nd\u{1}é/\u{7f}\t"),
        "{\"right\":\"usr\",\"pass\":\"a\\\"b\\\\c\\nd\\u0001é/\u{7f}\\t\"}"
    );
    assert_eq!(login_body("", "\u{1f}\u{8}\u{c}\r"), "{\"right\":\"\",\"pass\":\"\\u001f\\b\\f\\r\"}");
}

#[test]
fn read_from_reply_text() {
    let text = "{\"result\":{\"0199-xxxxx385\":{\"6802_00866900\":{\"1\":[{\"val\":180000}]}}}}";
    assert_eq!(power_limit_from_text(200, text), Ok(180000));
    assert_eq!(power_limit_from_text(401, text), Err(InverterError::HttpStatus(401)));
    assert_eq!(power_limit_from_text(200, "not json"), Err(InverterError::MalformedReply));
    assert_eq!(power_limit_from_text(200, "{\"err\":401}"), Err(InverterError::Rejected));
    assert_eq!(
        power_limit_from_text(200, "{\"result\":{\"a\":{\"6802_00866900\":{\"1\":[{\"val\":null}]}}}}"),
        Err(InverterError::UnexpectedValueShape)
    );
    // members in name order: "a" before "b"
    assert_eq!(
        power_limit_from_text(
            200,
            "{\"result\":{\"b\":{\"6802_00866900\":{\"1\":[{\"val\":7}]}},\"a\":{\"6802_00866900\":{\"1\":[{\"val\":5}]}}}}"
        ),
        Ok(5)
    );
    assert_eq!(
        power_limit_from_text(200, "{\"result\":{\"d\":{\"6802_00866900\":{\"1\":[{\"val\":-3}]}}}}"),
        Err(InverterError::UnexpectedValueShape)
    );
}
