//! The wallpaper changer: what it observes (time of day, outside temperature,
//! headphones), how it reads the weather forecast, and the decisions of each
//! round of its watch loop.
//!
//! Hot is above 22 degrees Celsius, cold is 22 degrees or below. Day is from
//! 06.00 to 18.00, night from 18.00 to 06.00, at UTC+4 (Mauritius).
pub mod ble_device;
pub mod devices;

use self::devices::Earphone;
use crate::decimal::{is_number_text, number_exceeds, number_text_exceeds};
use crate::json::{
    element, is_object_text, member, object_get, object_member, object_members_of, parse_json,
    value_element, value_member, JsonObject, JsonValue,
};
use vstd::prelude::*;

verus! {

/// The part of the day that picks a wallpaper.
#[derive(Debug, Clone, Copy, PartialEq, Eq, Structural)]
pub enum TimeOfDay {
    Day,
    Night,
}

/// The outside temperature, as far as the wallpaper is concerned.
#[derive(Debug, Clone, Copy, PartialEq, Eq, Structural)]
pub enum Temperature {
    Hot,
    Cold,
}

/// What the wallpaper on screen was chosen for; nothing before the first choice.
#[derive(Debug, Clone, Copy, PartialEq, Eq, Structural)]
pub struct Condition {
    pub time_day: Option<TimeOfDay>,
    pub temperature: Option<Temperature>,
    pub earphone: Option<Earphone>,
}

impl Condition {
    pub fn new() -> (c: Self)
        ensures
            c.time_day is None,
            c.temperature is None,
            c.earphone is None,
    {
        Condition { time_day: None, temperature: None, earphone: None }
    }
}

/// Values whose variant can be told apart from the variant of another value
/// of the same type.
pub trait Variant {
    spec fn variant_index(&self) -> nat;

    fn variant(&self) -> (r: u8)
        ensures
            r as nat == self.variant_index(),
    ;
}

impl Variant for TimeOfDay {
    open spec fn variant_index(&self) -> nat {
        match self {
            TimeOfDay::Day => 0,
            TimeOfDay::Night => 1,
        }
    }

    fn variant(&self) -> (r: u8) {
        match self {
            TimeOfDay::Day => 0,
            TimeOfDay::Night => 1,
        }
    }
}

impl Variant for Temperature {
    open spec fn variant_index(&self) -> nat {
        match self {
            Temperature::Hot => 0,
            Temperature::Cold => 1,
        }
    }

    fn variant(&self) -> (r: u8) {
        match self {
            Temperature::Hot => 0,
            Temperature::Cold => 1,
        }
    }
}

impl Variant for Earphone {
    open spec fn variant_index(&self) -> nat {
        match self {
            Earphone::Activated => 0,
            Earphone::Deactivated => 1,
        }
    }

    fn variant(&self) -> (r: u8) {
        match self {
            Earphone::Activated => 0,
            Earphone::Deactivated => 1,
        }
    }
}

impl<T> Variant for Option<T> {
    open spec fn variant_index(&self) -> nat {
        match self {
            None => 0,
            Some(_) => 1,
        }
    }

    fn variant(&self) -> (r: u8) {
        match self {
            None => 0,
            Some(_) => 1,
        }
    }
}

/// Whether two values are of the same variant, whatever they hold.
pub fn are_variants_same<T: Variant>(variant1: &T, variant2: &T) -> (r: bool)
    ensures
        r == (variant1.variant_index() == variant2.variant_index()),
{
    variant1.variant() == variant2.variant()
}

impl TimeOfDay {
    pub open spec fn name(self) -> Seq<char> {
        match self {
            TimeOfDay::Day => "Day"@,
            TimeOfDay::Night => "Night"@,
        }
    }

    /// The variant's name, as it is printed.
    pub fn to_string(&self) -> (r: String)
        ensures
            r@ == self.name(),
    {
        match self {
            TimeOfDay::Day => String::from_str("Day"),
            TimeOfDay::Night => String::from_str("Night"),
        }
    }
}

impl Temperature {
    pub open spec fn name(self) -> Seq<char> {
        match self {
            Temperature::Hot => "Hot"@,
            Temperature::Cold => "Cold"@,
        }
    }

    /// The variant's name, as it is printed.
    pub fn to_string(&self) -> (r: String)
        ensures
            r@ == self.name(),
    {
        match self {
            Temperature::Hot => String::from_str("Hot"),
            Temperature::Cold => String::from_str("Cold"),
        }
    }
}

// ---------------------------------------------------------------- time of day

/// Mauritius time is UTC + 4 hours.
pub const UTC_OFFSET_SECS: u64 = 14400;

/// The part of the day an hour (0 to 23) falls in.
pub open spec fn time_of_day_at(hour: nat) -> Option<TimeOfDay> {
    if 6 <= hour && hour <= 17 {
        Some(TimeOfDay::Day)
    } else if hour <= 23 {
        Some(TimeOfDay::Night)
    } else {
        None
    }
}

/// Day runs from hour 6 to hour 17 (06.00 to 18.00); every other hour of the
/// clock is night; an hour past 23 is no hour.
pub proof fn lemma_time_of_day_hours(hour: nat)
    ensures
        hour <= 23 ==> (time_of_day_at(hour) == Some(TimeOfDay::Day) <==> 6 <= hour && hour <= 17),
        hour <= 23 ==> (time_of_day_at(hour) == Some(TimeOfDay::Night) <==> !(6 <= hour && hour
            <= 17)),
        hour > 23 ==> time_of_day_at(hour) is None,
{
}

/// The part of the day of an hour on the clock; an hour past 23 is an error.
pub fn time_of_day(hour: u32) -> (r: Result<TimeOfDay, String>)
    ensures
        time_of_day_at(hour as nat) matches Some(t) ==> r == Ok::<TimeOfDay, String>(t),
        time_of_day_at(hour as nat) is None ==> (r matches Err(e) && e@ == "Invalid time"@),
        hour <= 23 ==> (r == Ok::<TimeOfDay, String>(TimeOfDay::Day) <==> 6 <= hour && hour <= 17),
        hour <= 23 ==> (r == Ok::<TimeOfDay, String>(TimeOfDay::Night) <==> !(6 <= hour && hour
            <= 17)),
        hour > 23 ==> r is Err,
{
    if 6 <= hour && hour <= 17 {
        Ok(TimeOfDay::Day)
    } else if hour <= 23 {
        Ok(TimeOfDay::Night)
    } else {
        Err(String::from_str("Invalid time"))
    }
}

/// The hour that a clock in Mauritius shows `utc_secs` seconds after
/// 1970-01-01 00:00 UTC (leap seconds are not counted, as in Unix time).
pub open spec fn mauritius_hour(utc_secs: nat) -> nat {
    (((utc_secs + UTC_OFFSET_SECS) % 86400) / 3600) as nat
}

/// The part of the day in Mauritius at a moment given in Unix seconds.
pub fn time_of_day_at_utc(utc_secs: u64) -> (t: TimeOfDay)
    ensures
        time_of_day_at(mauritius_hour(utc_secs as nat)) == Some(t),
        t == TimeOfDay::Day <==> 6 <= (utc_secs + 14400) % 86400 / 3600 && (utc_secs + 14400)
            % 86400 / 3600 <= 17,
{
    let local_secs = (utc_secs % 86400 + UTC_OFFSET_SECS) % 86400;
    proof {
        vstd::arithmetic::div_mod::lemma_add_mod_noop_right(
            UTC_OFFSET_SECS as int,
            utc_secs as int,
            86400,
        );
    }
    let currhour = (local_secs / 3600) as u32;
    assert(currhour as nat == mauritius_hour(utc_secs as nat));
    match time_of_day(currhour) {
        Ok(t) => t,
        Err(_) => TimeOfDay::Night,
    }
}

#[verifier::external_type_specification]
#[verifier::external_body]
pub struct ExSystemTime(std::time::SystemTime);

/// `std::time::SystemTime::now()`: the system clock's reading. Nothing is
/// claimed of it: it depends on when it is called.
#[verifier::external_body]
fn system_time_now() -> std::time::SystemTime {
    std::time::SystemTime::now()
}

/// `t.duration_since(UNIX_EPOCH)`: how long after 1970-01-01 00:00 UTC the
/// reading is, `None` when it is before (the error case of `duration_since`).
/// Nothing more is claimed.
#[verifier::external_body]
fn since_unix_epoch(t: &std::time::SystemTime) -> Option<std::time::Duration> {
    match t.duration_since(std::time::UNIX_EPOCH) {
        Ok(d) => Some(d),
        Err(_) => None,
    }
}

/// `Duration::as_secs`: the whole seconds of a duration. Nothing is claimed.
#[verifier::external_body]
fn whole_seconds(d: &std::time::Duration) -> u64 {
    d.as_secs()
}

/// The part of the day in Mauritius for a clock reading in Unix seconds;
/// `Err("Invalid time")` when there is no reading.
pub fn time_of_day_from_clock(now: Option<u64>) -> (r: Result<TimeOfDay, String>)
    ensures
        now matches Some(s) ==> (r matches Ok(t) && time_of_day_at(mauritius_hour(s as nat)) == Some(
            t,
        )),
        now is None ==> (r matches Err(e) && e@ == "Invalid time"@),
{
    match now {
        Some(secs) => Ok(time_of_day_at_utc(secs)),
        None => Err(String::from_str("Invalid time")),
    }
}

/// The part of the day now, in Mauritius; an error when the system clock
/// reads before 1970.
pub fn check_time() -> (r: Result<TimeOfDay, String>)
    ensures
        r is Ok || (r matches Err(e) && e@ == "Invalid time"@),
{
    let now = system_time_now();
    let secs = match since_unix_epoch(&now) {
        Some(d) => Some(whole_seconds(&d)),
        None => None,
    };
    time_of_day_from_clock(secs)
}

// ---------------------------------------------------------------- temperature

/// Above this many degrees Celsius it is hot.
pub const HOT_ABOVE_CELSIUS: u8 = 22;

/// The temperature class of a reading written as decimal text, if it is one.
pub open spec fn temperature_of_text(s: Seq<char>) -> Option<Temperature> {
    if is_number_text(s) {
        Some(
            if number_text_exceeds(s, HOT_ABOVE_CELSIUS as nat) {
                Temperature::Hot
            } else {
                Temperature::Cold
            },
        )
    } else {
        None
    }
}

/// A reading is hot exactly when the number it spells is above 22, and cold
/// exactly when it is a number of 22 or below; text that is no number has no
/// class.
pub proof fn lemma_temperature_classes(s: Seq<char>)
    ensures
        temperature_of_text(s) is Some <==> is_number_text(s),
        temperature_of_text(s) == Some(Temperature::Hot) <==> is_number_text(s)
            && number_text_exceeds(s, 22),
        temperature_of_text(s) == Some(Temperature::Cold) <==> is_number_text(s)
            && !number_text_exceeds(s, 22),
{
}

/// Hot above 22 degrees, cold at 22 or below; `None` for text that is not a
/// decimal number.
pub fn classify_temperature(text: &str) -> (r: Option<Temperature>)
    ensures
        r == temperature_of_text(text@),
        r is Some <==> is_number_text(text@),
        r == Some(Temperature::Hot) <==> is_number_text(text@) && number_text_exceeds(text@, 22),
        r == Some(Temperature::Cold) <==> is_number_text(text@) && !number_text_exceeds(text@, 22),
{
    proof {
        lemma_temperature_classes(text@);
    }
    match number_exceeds(text, HOT_ABOVE_CELSIUS) {
        Some(true) => Some(Temperature::Hot),
        Some(false) => Some(Temperature::Cold),
        None => None,
    }
}

/// `forecast["DailyForecasts"][0]["RealFeelTemperature"]["Minimum"]["Value"]`:
/// the minimum felt temperature of the first day of the forecast. `None` when
/// the forecast has no `DailyForecasts` member at all.
pub open spec fn forecast_value(forecast: Seq<(String, JsonValue)>) -> Option<JsonValue> {
    match object_member(forecast, "DailyForecasts"@) {
        Some(daily) => Some(
            value_member(
                value_member(
                    value_member(value_element(daily, 0), "RealFeelTemperature"@),
                    "Minimum"@,
                ),
                "Value"@,
            ),
        ),
        None => None,
    }
}

/// The temperature class the forecast gives, if its value is a number.
pub open spec fn forecast_temperature_of(forecast: Seq<(String, JsonValue)>) -> Option<Temperature> {
    match forecast_value(forecast) {
        Some(JsonValue::Number(text)) => temperature_of_text(text@),
        _ => None,
    }
}

/// Reads the temperature class out of a daily forecast; `None` when the
/// forecast holds no number where the minimum felt temperature belongs.
pub fn forecast_temperature(forecast: &JsonObject) -> (r: Option<Temperature>)
    ensures
        r == forecast_temperature_of(forecast@),
{
    let null = JsonValue::Null;
    let daily = match object_get(forecast, "DailyForecasts") {
        Some(d) => d,
        None => return None,
    };
    let first = element(daily, 0, &null);
    let feel = member(first, "RealFeelTemperature", &null);
    let minimum = member(feel, "Minimum", &null);
    let value = member(minimum, "Value", &null);
    match value {
        JsonValue::Number(text) => classify_temperature(text.as_str()),
        _ => None,
    }
}

/// The members of the JSON object that `k` holds.
pub fn get_map_from_string(k: &String) -> (r: Result<JsonObject, String>)
    requires
        is_object_text(k@),
    ensures
        r matches Ok(m) && m@ == object_members_of(k@),
{
    match parse_json(k.as_str()) {
        Some(JsonValue::Object(members)) => Ok(members),
        _ => Err(String::from_str("not a JSON object")),
    }
}

/// The forecast, if one was fetched and fetching it worked; otherwise why not.
/// A fetched body must be a JSON object.
pub fn map_value(body: Option<Result<String, String>>) -> (r: Result<JsonObject, String>)
    requires
        body matches Some(Ok(k)) ==> is_object_text(k@),
    ensures
        body matches Some(Ok(k)) ==> (r matches Ok(m) && m@ == object_members_of(k@)),
        body matches Some(Err(e)) ==> r == Err::<JsonObject, String>(e),
        body is None ==> (r matches Err(e) && e@ == "None type"@),
{
    match body {
        Some(k) => match k {
            Ok(k) => get_map_from_string(&k),
            Err(e) => Err(e),
        },
        None => Err(String::from_str("None type")),
    }
}

/// `map_value` for any body: `None` when a fetched body is not a JSON object,
/// what `map_value` gives otherwise.
pub fn forecast_from_body(body: Option<Result<String, String>>) -> (r: Option<
    Result<JsonObject, String>,
>)
    ensures
        r is None <==> (body matches Some(Ok(k)) && !is_object_text(k@)),
        body matches Some(Ok(k)) ==> (is_object_text(k@) ==> (r matches Some(Ok(m)) && m@
            == object_members_of(k@))),
        body matches Some(Err(e)) ==> r == Some(Err::<JsonObject, String>(e)),
        body is None ==> (r matches Some(Err(e)) && e@ == "None type"@),
{
    if let Some(Ok(k)) = &body {
        match parse_json(k.as_str()) {
            Some(JsonValue::Object(_)) => {},
            _ => return None,
        }
    }
    Some(map_value(body))
}

/// What a forecast says of the temperature: the error when there is no
/// forecast, `Ok(None)` when it holds no readable temperature.
pub fn temperature_reading(forecast: Result<JsonObject, String>) -> (r: Result<
    Option<Temperature>,
    String,
>)
    ensures
        forecast matches Ok(m) ==> r == Ok::<Option<Temperature>, String>(
            forecast_temperature_of(m@),
        ),
        forecast matches Err(e) ==> r == Err::<Option<Temperature>, String>(e),
{
    match forecast {
        Ok(map) => Ok(forecast_temperature(&map)),
        Err(e) => Err(e),
    }
}

// ---------------------------------------------------------------- wallpaper

pub open spec fn time_token(t: TimeOfDay) -> Seq<char> {
    match t {
        TimeOfDay::Day => "day"@,
        TimeOfDay::Night => "night"@,
    }
}

pub open spec fn temperature_token(t: Temperature) -> Seq<char> {
    match t {
        Temperature::Hot => "hot"@,
        Temperature::Cold => "cold"@,
    }
}

pub open spec fn earphone_token(e: Earphone) -> Seq<char> {
    match e {
        Earphone::Activated => "Headphone"@,
        Earphone::Deactivated => "No_Headphone"@,
    }
}

/// Every part of the condition is known.
pub open spec fn is_complete(c: Condition) -> bool {
    c.time_day is Some && c.temperature is Some && c.earphone is Some
}

/// `<time>_<temperature>_<earphone>`, the wallpaper's file name without extension.
pub open spec fn wallpaper_name_of(c: Condition) -> Seq<char> {
    time_token(c.time_day.unwrap()) + "_"@ + temperature_token(c.temperature.unwrap()) + "_"@
        + earphone_token(c.earphone.unwrap())
}

/// Where the wallpapers are kept.
pub open spec fn wallpaper_dir() -> Seq<char> {
    "file:///home/akame/Prog/Stella_desktop/lofi_wallpaper/"@
}

fn time_token_string(t: TimeOfDay) -> (r: String)
    ensures
        r@ == time_token(t),
{
    match t {
        TimeOfDay::Day => String::from_str("day"),
        TimeOfDay::Night => String::from_str("night"),
    }
}

fn temperature_token_str(t: Temperature) -> (r: &'static str)
    ensures
        r@ == temperature_token(t),
{
    match t {
        Temperature::Hot => "hot",
        Temperature::Cold => "cold",
    }
}

fn earphone_token_str(e: Earphone) -> (r: &'static str)
    ensures
        r@ == earphone_token(e),
{
    match e {
        Earphone::Activated => "Headphone",
        Earphone::Deactivated => "No_Headphone",
    }
}

/// The name of the wallpaper for a condition, such as `day_hot_Headphone`.
pub fn wallpaper_name(condition: &Condition) -> (r: String)
    requires
        is_complete(*condition),
    ensures
        r@ == wallpaper_name_of(*condition),
        r@ == (if condition.time_day == Some(TimeOfDay::Day) {
            "day"@
        } else {
            "night"@
        }) + "_"@ + (if condition.temperature == Some(Temperature::Hot) {
            "hot"@
        } else {
            "cold"@
        }) + "_"@ + (if condition.earphone == Some(Earphone::Activated) {
            "Headphone"@
        } else {
            "No_Headphone"@
        }),
{
    proof {
        lemma_wallpaper_name_spelling(*condition);
    }
    let mut name = time_token_string(condition.time_day.unwrap());
    name.append("_");
    name.append(temperature_token_str(condition.temperature.unwrap()));
    name.append("_");
    name.append(earphone_token_str(condition.earphone.unwrap()));
    name
}

/// The picture URI that the desktop is set to for a condition.
pub fn wallpaper_uri(condition: &Condition) -> (r: String)
    requires
        is_complete(*condition),
    ensures
        r@ == wallpaper_dir() + wallpaper_name_of(*condition) + ".png"@,
        r@ == "file:///home/akame/Prog/Stella_desktop/lofi_wallpaper/"@ + wallpaper_name_of(*condition)
            + ".png"@,
{
    proof {
        lemma_wallpaper_name_spelling(*condition);
    }
    let mut uri = String::from_str("file:///home/akame/Prog/Stella_desktop/lofi_wallpaper/");
    let name = wallpaper_name(condition);
    uri.append(name.as_str());
    uri.append(".png");
    uri
}

/// Every complete condition's wallpaper is named `<time>_<temperature>_<earphone>`
/// with the fixed word for each part; in particular the eight names are
/// `day_hot_Headphone`, ..., `night_cold_No_Headphone`.
pub proof fn lemma_wallpaper_name_spelling(c: Condition)
    requires
        is_complete(c),
    ensures
        c == (Condition { time_day: Some(TimeOfDay::Day), temperature: Some(Temperature::Hot), earphone: Some(Earphone::Activated) }) ==> wallpaper_name_of(c) == "day"@ + "_"@ + "hot"@ + "_"@
            + "Headphone"@,
        c == (Condition { time_day: Some(TimeOfDay::Day), temperature: Some(Temperature::Hot), earphone: Some(Earphone::Deactivated) }) ==> wallpaper_name_of(c) == "day"@ + "_"@ + "hot"@ + "_"@
            + "No_Headphone"@,
        c == (Condition { time_day: Some(TimeOfDay::Day), temperature: Some(Temperature::Cold), earphone: Some(Earphone::Activated) }) ==> wallpaper_name_of(c) == "day"@ + "_"@ + "cold"@ + "_"@
            + "Headphone"@,
        c == (Condition { time_day: Some(TimeOfDay::Day), temperature: Some(Temperature::Cold), earphone: Some(Earphone::Deactivated) }) ==> wallpaper_name_of(c) == "day"@ + "_"@ + "cold"@ + "_"@
            + "No_Headphone"@,
        c == (Condition { time_day: Some(TimeOfDay::Night), temperature: Some(Temperature::Hot), earphone: Some(Earphone::Activated) }) ==> wallpaper_name_of(c) == "night"@ + "_"@ + "hot"@ + "_"@
            + "Headphone"@,
        c == (Condition { time_day: Some(TimeOfDay::Night), temperature: Some(Temperature::Hot), earphone: Some(Earphone::Deactivated) }) ==> wallpaper_name_of(c) == "night"@ + "_"@ + "hot"@ + "_"@
            + "No_Headphone"@,
        c == (Condition { time_day: Some(TimeOfDay::Night), temperature: Some(Temperature::Cold), earphone: Some(Earphone::Activated) }) ==> wallpaper_name_of(c) == "night"@ + "_"@ + "cold"@ + "_"@
            + "Headphone"@,
        c == (Condition { time_day: Some(TimeOfDay::Night), temperature: Some(Temperature::Cold), earphone: Some(Earphone::Deactivated) }) ==> wallpaper_name_of(c) == "night"@ + "_"@ + "cold"@ + "_"@
            + "No_Headphone"@,
        c.earphone == Some(Earphone::Activated) ==> wallpaper_name_of(c).subrange(
            wallpaper_name_of(c).len() - "Headphone"@.len(),
            wallpaper_name_of(c).len() as int,
        ) == "Headphone"@,
{
    let a = time_token(c.time_day.unwrap()) + "_"@ + temperature_token(c.temperature.unwrap())
        + "_"@;
    if c.earphone == Some(Earphone::Activated) {
        let n = wallpaper_name_of(c);
        assert(n == a + "Headphone"@);
        assert(n.subrange(n.len() - "Headphone"@.len(), n.len() as int) =~= "Headphone"@);
    }
}

/// Different conditions never share a wallpaper: the name tells the
/// condition apart.
pub proof fn lemma_wallpaper_names_distinct(c1: Condition, c2: Condition)
    requires
        is_complete(c1),
        is_complete(c2),
        c1 != c2,
    ensures
        wallpaper_name_of(c1) != wallpaper_name_of(c2),
{
    reveal_strlit("day");
    reveal_strlit("night");
    reveal_strlit("hot");
    reveal_strlit("cold");
    reveal_strlit("Headphone");
    reveal_strlit("No_Headphone");
    reveal_strlit("_");
    let n1 = wallpaper_name_of(c1);
    let n2 = wallpaper_name_of(c2);
    let t1 = time_token(c1.time_day.unwrap());
    let t2 = time_token(c2.time_day.unwrap());
    let h1 = temperature_token(c1.temperature.unwrap());
    let h2 = temperature_token(c2.temperature.unwrap());
    let e1 = earphone_token(c1.earphone.unwrap());
    let e2 = earphone_token(c2.earphone.unwrap());
    if c1.time_day != c2.time_day {
        assert(n1[0] == t1[0]);
        assert(n2[0] == t2[0]);
    } else if c1.temperature != c2.temperature {
        let i: int = t1.len() as int + 1;
        assert(n1[i] == h1[0]);
        assert(n2[i] == h2[0]);
    } else {
        assert(c1.earphone != c2.earphone);
        let i: int = t1.len() as int + 1 + h1.len() as int + 1;
        assert(n1[i] == e1[0]);
        assert(n2[i] == e2[0]);
    }
}

// ---------------------------------------------------------------- watch loop

/// What the watch loop carries from one round to the next: the condition of
/// the wallpaper on screen, and the temperature class of the last reading,
/// used when no fresh forecast can be had. Its fields are kept well formed.
#[derive(Debug)]
pub struct ChangerState {
    condition: Condition,
    last_temperature: Temperature,
}

/// The values a `ChangerState` holds.
#[derive(Debug, Clone, Copy)]
pub struct ChangerModel {
    pub condition: Condition,
    pub last_temperature: Temperature,
}

impl View for ChangerState {
    type V = ChangerModel;

    closed spec fn view(&self) -> ChangerModel {
        ChangerModel { condition: self.condition, last_temperature: self.last_temperature }
    }
}

/// Headphones and time of day are known together, and once they are, the
/// temperature is known too.
pub open spec fn state_wf(s: ChangerModel) -> bool {
    &&& (s.condition.earphone is Some) == (s.condition.time_day is Some)
    &&& s.condition.time_day is Some ==> s.condition.temperature is Some
}

/// A fresh forecast is wanted on the first round and whenever the time of day
/// has changed.
pub open spec fn needs_forecast(c: Condition, time_day: TimeOfDay) -> bool {
    c.time_day != Some(time_day)
}

/// The wallpaper is changed on the first round and whenever the headphones or
/// the time of day have changed.
pub open spec fn needs_change(c: Condition, earphone: Earphone, time_day: TimeOfDay) -> bool {
    c.earphone != Some(earphone) || c.time_day != Some(time_day)
}

/// A forecast is fetched exactly when the time of day on screen is not the
/// one observed (in particular on the first round, and at dawn and dusk); the
/// wallpaper changes exactly when the headphones or the time of day on screen
/// are not the ones observed.
pub proof fn lemma_round_triggers(c: Condition, earphone: Earphone, time_day: TimeOfDay)
    ensures
        needs_forecast(c, time_day) <==> c.time_day != Some(time_day),
        c.time_day is None ==> needs_forecast(c, time_day),
        c.time_day == Some(TimeOfDay::Night) && time_day == TimeOfDay::Day ==> needs_forecast(
            c,
            time_day,
        ),
        c.time_day == Some(TimeOfDay::Day) && time_day == TimeOfDay::Night ==> needs_forecast(
            c,
            time_day,
        ),
        c.time_day == Some(time_day) ==> !needs_forecast(c, time_day),
        needs_change(c, earphone, time_day) <==> (c.earphone != Some(earphone) || c.time_day
            != Some(time_day)),
{
}

/// The headphone state a round goes by: a failed check counts as none in use.
pub open spec fn earphone_in_use(earphone: Result<Earphone, String>) -> Earphone {
    match earphone {
        Ok(e) => e,
        Err(_) => Earphone::Deactivated,
    }
}

/// The temperature class a round goes by: the fresh reading, or the last one.
pub open spec fn round_temperature(s: ChangerModel, reading: Result<Temperature, String>) -> Temperature {
    match reading {
        Ok(t) => t,
        Err(_) => s.last_temperature,
    }
}

/// The state after a round that observed `earphone` and `time_day`.
pub open spec fn next_state(
    s: ChangerModel,
    earphone: Earphone,
    time_day: TimeOfDay,
    reading: Result<Temperature, String>,
) -> ChangerModel {
    let temp = round_temperature(s, reading);
    ChangerModel {
        condition: if needs_change(s.condition, earphone, time_day) {
            Condition {
                time_day: Some(time_day),
                temperature: Some(temp),
                earphone: Some(earphone),
            }
        } else {
            s.condition
        },
        last_temperature: temp,
    }
}

/// The first half of a round, once the headphones and the clock were checked.
pub enum RoundPlan {
    /// The clock could not be read: the loop ends with this error.
    Stop(String),
    /// Go on with these observations; fetch a forecast first if asked.
    Proceed { earphone: Earphone, time_day: TimeOfDay, fetch_forecast: bool },
}

impl ChangerState {
    #[verifier::type_invariant]
    spec fn well_formed(self) -> bool {
        state_wf(self@)
    }

    /// Nothing on screen yet; the usual temperature (23 degrees) is hot.
    pub fn new() -> (s: Self)
        ensures
            state_wf(s@),
            s@.condition.time_day is None,
            s@.condition.temperature is None,
            s@.condition.earphone is None,
            s@.last_temperature == Temperature::Hot,
    {
        ChangerState { condition: Condition::new(), last_temperature: Temperature::Hot }
    }

    /// Decides, from the headphone and clock checks, whether the round goes
    /// on and whether it needs a fresh forecast.
    pub fn plan_round(
        &self,
        earphone: Result<Earphone, String>,
        time_day: Result<TimeOfDay, String>,
    ) -> (r: RoundPlan)
        ensures
            time_day matches Err(e) ==> r == RoundPlan::Stop(e),
            time_day matches Ok(t) ==> r == (RoundPlan::Proceed {
                earphone: earphone_in_use(earphone),
                time_day: t,
                fetch_forecast: needs_forecast(self@.condition, t),
            }),
        time_day matches Ok(t) ==> (r matches RoundPlan::Proceed { fetch_forecast, .. }
            && fetch_forecast == (self@.condition.time_day != Some(t))),
    {
        let earphone = match earphone {
            Ok(x) => x,
            Err(_) => Earphone::Deactivated,
        };
        let new_time_day = match time_day {
            Ok(x) => x,
            Err(x) => return RoundPlan::Stop(x),
        };
        let fetch = are_variants_same(&self.condition.time_day, &None) || !are_variants_same(
            &self.condition.time_day.unwrap(),
            &new_time_day,
        );
        proof {
            if self.condition.time_day is Some {
                let t = self.condition.time_day.unwrap();
                assert((t.variant_index() == new_time_day.variant_index()) == (t == new_time_day));
            }
        }
        RoundPlan::Proceed { earphone, time_day: new_time_day, fetch_forecast: fetch }
    }

    /// Finishes a round: takes the fresh temperature reading (or keeps the last
    /// one when there is none) and, when the headphones or the time of day have
    /// changed, the new condition whose wallpaper is to be put on screen.
    pub fn finish_round(
        &mut self,
        earphone: Earphone,
        time_day: TimeOfDay,
        reading: Result<Temperature, String>,
    ) -> (change: Option<Condition>)
        ensures
            final(self)@ == next_state(old(self)@, earphone, time_day, reading),
            state_wf(final(self)@),
            needs_change(old(self)@.condition, earphone, time_day) ==> change == Some(
                final(self)@.condition,
            ),
            !needs_change(old(self)@.condition, earphone, time_day) ==> change is None,
    {
        proof {
            use_type_invariant(&*self);
        }
        let temp = match reading {
            Ok(t) => t,
            Err(_) => self.last_temperature,
        };
        let change = are_variants_same(&self.condition.earphone, &None)
            || !are_variants_same(&self.condition.earphone.unwrap(), &earphone)
            || !are_variants_same(&self.condition.time_day.unwrap(), &time_day);
        proof {
            if self.condition.earphone is Some {
                let e = self.condition.earphone.unwrap();
                let t = self.condition.time_day.unwrap();
                assert((e.variant_index() == earphone.variant_index()) == (e == earphone));
                assert((t.variant_index() == time_day.variant_index()) == (t == time_day));
            }
        }
        self.last_temperature = temp;
        if change {
            self.condition = Condition {
                time_day: Some(time_day),
                temperature: Some(temp),
                earphone: Some(earphone),
            };
            Some(self.condition)
        } else {
            None
        }
    }

    /// The condition of the wallpaper on screen.
    pub fn condition(&self) -> (c: Condition)
        ensures
            c == self@.condition,
    {
        self.condition
    }

    /// The temperature class of the last reading.
    pub fn last_temperature(&self) -> (t: Temperature)
        ensures
            t == self@.last_temperature,
    {
        self.last_temperature
    }
}

/// After any round, the condition on screen is the one just observed: the
/// headphones and time of day it was chosen for are those of the round.
pub proof fn lemma_round_tracks_observations(
    s: ChangerModel,
    earphone: Earphone,
    time_day: TimeOfDay,
    reading: Result<Temperature, String>,
)
    ensures
        next_state(s, earphone, time_day, reading).condition.earphone == Some(earphone),
        next_state(s, earphone, time_day, reading).condition.time_day == Some(time_day),
{
}

/// A round that sees again what the previous round saw neither fetches a
/// forecast nor changes the wallpaper.
pub proof fn lemma_round_settles(
    s: ChangerModel,
    earphone: Earphone,
    time_day: TimeOfDay,
    reading: Result<Temperature, String>,
)
    ensures
        !needs_forecast(next_state(s, earphone, time_day, reading).condition, time_day),
        !needs_change(next_state(s, earphone, time_day, reading).condition, earphone, time_day),
{
}

/// Every round keeps the state well formed, and a change always puts a
/// complete condition on screen.
pub proof fn lemma_round_keeps_wf(
    s: ChangerModel,
    earphone: Earphone,
    time_day: TimeOfDay,
    reading: Result<Temperature, String>,
)
    requires
        state_wf(s),
    ensures
        state_wf(next_state(s, earphone, time_day, reading)),
        needs_change(s.condition, earphone, time_day) ==> is_complete(
            next_state(s, earphone, time_day, reading).condition,
        ),
{
}

} // verus!
