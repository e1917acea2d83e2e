use stella::json::{element, member, object_get, JsonObject, JsonValue};
use stella::text::{chars_of, same_text};
use stella::wallpaper_changer::{
    forecast_from_body, forecast_temperature, get_map_from_string, map_value, temperature_reading,
    Temperature,
};

fn obj(members: Vec<(&str, JsonValue)>) -> JsonValue {
    JsonValue::Object(members.into_iter().map(|(k, v)| (k.to_string(), v)).collect())
}

fn forecast_with(value: JsonValue) -> JsonObject {
    let daily = JsonValue::Array(vec![obj(vec![
        ("Date", JsonValue::Str("2024-01-01".to_string())),
        ("RealFeelTemperature", obj(vec![
            ("Minimum", obj(vec![("Value", value), ("Unit", JsonValue::Str("C".to_string()))])),
            ("Maximum", obj(vec![("Value", JsonValue::Number("40".to_string()))])),
        ])),
    ])]);
    vec![
        ("Headline".to_string(), obj(vec![])),
        ("DailyForecasts".to_string(), daily),
    ]
}

#[test]
fn reads_the_minimum_felt_temperature() {
    assert_eq!(forecast_temperature(&forecast_with(JsonValue::Number("18.3".to_string()))), Some(Temperature::Cold));
    assert_eq!(forecast_temperature(&forecast_with(JsonValue::Number("25.6".to_string()))), Some(Temperature::Hot));
    assert_eq!(forecast_temperature(&forecast_with(JsonValue::Number("22".to_string()))), Some(Temperature::Cold));
}

#[test]
fn a_value_that_is_no_number_is_unreadable() {
    assert_eq!(forecast_temperature(&forecast_with(JsonValue::Str("25.6".to_string()))), None);
    assert_eq!(forecast_temperature(&forecast_with(JsonValue::Null)), None);
    assert_eq!(forecast_temperature(&forecast_with(JsonValue::Bool(true))), None);
}

#[test]
fn a_missing_forecast_member_is_unreadable() {
    let f: JsonObject = vec![("Headline".to_string(), obj(vec![]))];
    assert_eq!(forecast_temperature(&f), None);
}

#[test]
fn a_forecast_of_the_wrong_shape_is_unreadable() {
    let f: JsonObject = vec![("DailyForecasts".to_string(), obj(vec![]))];
    assert_eq!(forecast_temperature(&f), None);
    let f: JsonObject = vec![("DailyForecasts".to_string(), JsonValue::Array(vec![]))];
    assert_eq!(forecast_temperature(&f), None);
}

#[test]
fn the_first_member_of_a_name_counts() {
    let mut f = forecast_with(JsonValue::Number("30".to_string()));
    f.push(("DailyForecasts".to_string(), JsonValue::Null));
    assert_eq!(forecast_temperature(&f), Some(Temperature::Hot));
}

#[test]
fn map_value_cases() {
    assert_eq!(map_value(None).unwrap_err(), "None type");
    assert_eq!(map_value(Some(Err("connection refused".to_string()))).unwrap_err(), "connection refused");
    let m = map_value(Some(Ok(r#"{"a": null, "b": [1, 2.50]}"#.to_string()))).unwrap();
    assert_eq!(m.len(), 2);
    assert_eq!(m[0].0, "a");
    assert!(matches!(m[0].1, JsonValue::Null));
    match &m[1].1 {
        JsonValue::Array(items) => {
            assert!(matches!(&items[0], JsonValue::Number(n) if n == "1"));
            assert!(matches!(&items[1], JsonValue::Number(n) if n == "2.5"));
        }
        other => panic!("{:?}", other),
    }
}

#[test]
fn the_body_text_is_parsed() {
    let m = get_map_from_string(&r#"{"k": "v", "t": true}"#.to_string()).unwrap();
    assert_eq!(m.len(), 2);
    assert!(matches!(&m[0].1, JsonValue::Str(x) if x == "v"));
    assert!(matches!(m[1].1, JsonValue::Bool(true)));
}

#[test]
fn a_body_that_is_no_json_object_is_refused() {
    assert!(forecast_from_body(Some(Ok("not json".to_string()))).is_none());
    assert!(forecast_from_body(Some(Ok("[1, 2]".to_string()))).is_none());
    assert!(forecast_from_body(Some(Ok("{}".to_string()))).is_some());
    assert_eq!(forecast_from_body(None).unwrap().unwrap_err(), "None type");
    assert_eq!(forecast_from_body(Some(Err("timeout".to_string()))).unwrap().unwrap_err(), "timeout");
}

#[test]
fn a_weather_reply_gives_its_temperature() {
    let reply = r#"{"Headline": {"Text": "Sunny"}, "DailyForecasts": [{"Date": "2024-01-01",
        "RealFeelTemperature": {"Minimum": {"Value": 22.4, "Unit": "C"}, "Maximum": {"Value": 31.0}}}]}"#;
    let forecast = forecast_from_body(Some(Ok(reply.to_string()))).unwrap();
    assert_eq!(temperature_reading(forecast), Ok(Some(Temperature::Hot)));
    let reply = r#"{"DailyForecasts": [{"RealFeelTemperature": {"Minimum": {"Value": 22}}}]}"#;
    let forecast = forecast_from_body(Some(Ok(reply.to_string()))).unwrap();
    assert_eq!(temperature_reading(forecast), Ok(Some(Temperature::Cold)));
    let reply = r#"{"Code": "Unauthorized"}"#;
    let forecast = forecast_from_body(Some(Ok(reply.to_string()))).unwrap();
    assert_eq!(temperature_reading(forecast), Ok(None));
}

#[test]
fn temperature_reading_cases() {
    assert_eq!(temperature_reading(Err("None type".to_string())), Err("None type".to_string()));
    assert_eq!(
        temperature_reading(Ok(forecast_with(JsonValue::Number("12".to_string())))),
        Ok(Some(Temperature::Cold))
    );
    assert_eq!(temperature_reading(Ok(vec![])), Ok(None));
}

#[test]
fn json_lookups_give_null_when_missing() {
    let null = JsonValue::Null;
    let v = obj(vec![("a", JsonValue::Array(vec![JsonValue::Bool(true)]))]);
    assert!(matches!(member(&v, "a", &null), JsonValue::Array(_)));
    assert!(matches!(member(&v, "b", &null), JsonValue::Null));
    assert!(matches!(member(&JsonValue::Bool(false), "a", &null), JsonValue::Null));
    let arr = member(&v, "a", &null);
    assert!(matches!(element(arr, 0, &null), JsonValue::Bool(true)));
    assert!(matches!(element(arr, 1, &null), JsonValue::Null));
    assert!(matches!(element(&v, 0, &null), JsonValue::Null));
    let members: JsonObject = vec![("k".to_string(), JsonValue::Number("1".to_string()))];
    assert!(matches!(object_get(&members, "k"), Some(JsonValue::Number(_))));
    assert!(object_get(&members, "K").is_none());
}

#[test]
fn text_helpers() {
    assert_eq!(chars_of("héllo"), vec!['h', 'é', 'l', 'l', 'o']);
    assert!(same_text("abc", "abc"));
    assert!(!same_text("abc", "abd"));
    assert!(!same_text("abc", "ab"));
}
