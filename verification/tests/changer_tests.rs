use stella::wallpaper_changer::devices::Earphone;
use stella::wallpaper_changer::{
    are_variants_same, check_time, time_of_day, time_of_day_at_utc, time_of_day_from_clock, wallpaper_name, wallpaper_uri, ChangerState,
    Condition, RoundPlan, Temperature, TimeOfDay,
};

fn full(t: TimeOfDay, h: Temperature, e: Earphone) -> Condition {
    Condition { time_day: Some(t), temperature: Some(h), earphone: Some(e) }
}

#[test]
fn hours_of_the_day() {
    assert_eq!(time_of_day(0), Ok(TimeOfDay::Night));
    assert_eq!(time_of_day(5), Ok(TimeOfDay::Night));
    assert_eq!(time_of_day(6), Ok(TimeOfDay::Day));
    assert_eq!(time_of_day(12), Ok(TimeOfDay::Day));
    assert_eq!(time_of_day(17), Ok(TimeOfDay::Day));
    assert_eq!(time_of_day(18), Ok(TimeOfDay::Night));
    assert_eq!(time_of_day(23), Ok(TimeOfDay::Night));
}

#[test]
fn an_hour_past_23_is_invalid() {
    assert_eq!(time_of_day(24), Err(String::from("Invalid time")));
    assert_eq!(time_of_day(u32::MAX), Err(String::from("Invalid time")));
}

#[test]
fn the_clock_always_gives_a_time_of_day() {
    assert!(check_time().is_ok());
}

#[test]
fn variant_names() {
    assert_eq!(TimeOfDay::Day.to_string(), "Day");
    assert_eq!(TimeOfDay::Night.to_string(), "Night");
    assert_eq!(Temperature::Hot.to_string(), "Hot");
    assert_eq!(Temperature::Cold.to_string(), "Cold");
    assert_eq!(Earphone::Activated.to_string(), "Activated");
    assert_eq!(Earphone::Deactivated.to_string(), "Deactivated");
}

#[test]
fn variants_compare_by_kind() {
    assert!(are_variants_same(&TimeOfDay::Day, &TimeOfDay::Day));
    assert!(!are_variants_same(&TimeOfDay::Day, &TimeOfDay::Night));
    assert!(are_variants_same(&None::<TimeOfDay>, &None));
    assert!(!are_variants_same(&Some(TimeOfDay::Day), &None));
    assert!(are_variants_same(&Some(TimeOfDay::Day), &Some(TimeOfDay::Night)));
    assert!(!are_variants_same(&Earphone::Activated, &Earphone::Deactivated));
}

#[test]
fn new_condition_is_empty() {
    let c = Condition::new();
    assert_eq!(c.time_day, None);
    assert_eq!(c.temperature, None);
    assert_eq!(c.earphone, None);
}

#[test]
fn wallpaper_names_and_uris() {
    let c = full(TimeOfDay::Day, Temperature::Hot, Earphone::Activated);
    assert_eq!(wallpaper_name(&c), "day_hot_Headphone");
    assert_eq!(
        wallpaper_uri(&c),
        "file:///home/akame/Prog/Stella_desktop/lofi_wallpaper/day_hot_Headphone.png"
    );
    let c = full(TimeOfDay::Night, Temperature::Cold, Earphone::Deactivated);
    assert_eq!(wallpaper_name(&c), "night_cold_No_Headphone");
}

#[test]
fn every_condition_has_its_own_wallpaper() {
    let mut names = Vec::new();
    for t in [TimeOfDay::Day, TimeOfDay::Night] {
        for h in [Temperature::Hot, Temperature::Cold] {
            for e in [Earphone::Activated, Earphone::Deactivated] {
                names.push(wallpaper_name(&full(t, h, e)));
            }
        }
    }
    let mut sorted = names.clone();
    sorted.sort();
    sorted.dedup();
    assert_eq!(sorted.len(), 8);
}

fn proceed(plan: RoundPlan) -> (Earphone, TimeOfDay, bool) {
    match plan {
        RoundPlan::Proceed { earphone, time_day, fetch_forecast } => (earphone, time_day, fetch_forecast),
        RoundPlan::Stop(e) => panic!("stopped: {}", e),
    }
}

#[test]
fn a_clock_error_stops_the_loop() {
    let s = ChangerState::new();
    match s.plan_round(Ok(Earphone::Activated), Err(String::from("Invalid time"))) {
        RoundPlan::Stop(e) => assert_eq!(e, "Invalid time"),
        RoundPlan::Proceed { .. } => panic!("expected a stop"),
    }
}

#[test]
fn a_failed_headphone_check_counts_as_none() {
    let s = ChangerState::new();
    let (e, _, _) = proceed(s.plan_round(Err(String::from("no card")), Ok(TimeOfDay::Day)));
    assert_eq!(e, Earphone::Deactivated);
}

#[test]
fn first_round_fetches_and_changes() {
    let mut s = ChangerState::new();
    assert_eq!(s.last_temperature(), Temperature::Hot);
    let (e, t, fetch) = proceed(s.plan_round(Ok(Earphone::Activated), Ok(TimeOfDay::Day)));
    assert!(fetch);
    let change = s.finish_round(e, t, Ok(Temperature::Cold));
    assert_eq!(change, Some(full(TimeOfDay::Day, Temperature::Cold, Earphone::Activated)));
    assert_eq!(s.condition(), full(TimeOfDay::Day, Temperature::Cold, Earphone::Activated));
    assert_eq!(s.last_temperature(), Temperature::Cold);
}

#[test]
fn first_round_without_forecast_uses_the_usual_temperature() {
    let mut s = ChangerState::new();
    let change = s.finish_round(Earphone::Deactivated, TimeOfDay::Night, Err(String::from("offline")));
    assert_eq!(change, Some(full(TimeOfDay::Night, Temperature::Hot, Earphone::Deactivated)));
}

#[test]
fn repeating_a_round_changes_nothing() {
    let mut s = ChangerState::new();
    s.finish_round(Earphone::Activated, TimeOfDay::Day, Ok(Temperature::Cold));
    let (e, t, fetch) = proceed(s.plan_round(Ok(Earphone::Activated), Ok(TimeOfDay::Day)));
    assert!(!fetch);
    let change = s.finish_round(e, t, Err(String::from("None type")));
    assert_eq!(change, None);
    assert_eq!(s.condition(), full(TimeOfDay::Day, Temperature::Cold, Earphone::Activated));
}

#[test]
fn a_new_temperature_alone_does_not_change_the_wallpaper() {
    let mut s = ChangerState::new();
    s.finish_round(Earphone::Activated, TimeOfDay::Day, Ok(Temperature::Cold));
    let change = s.finish_round(Earphone::Activated, TimeOfDay::Day, Ok(Temperature::Hot));
    assert_eq!(change, None);
    assert_eq!(s.condition().temperature, Some(Temperature::Cold));
    assert_eq!(s.last_temperature(), Temperature::Hot);
}

#[test]
fn headphones_change_the_wallpaper_without_a_forecast() {
    let mut s = ChangerState::new();
    s.finish_round(Earphone::Activated, TimeOfDay::Day, Ok(Temperature::Cold));
    let (e, t, fetch) = proceed(s.plan_round(Ok(Earphone::Deactivated), Ok(TimeOfDay::Day)));
    assert!(!fetch);
    let change = s.finish_round(e, t, Err(String::from("None type")));
    assert_eq!(change, Some(full(TimeOfDay::Day, Temperature::Cold, Earphone::Deactivated)));
}

#[test]
fn nightfall_fetches_a_forecast_and_changes() {
    let mut s = ChangerState::new();
    s.finish_round(Earphone::Activated, TimeOfDay::Day, Ok(Temperature::Hot));
    let (e, t, fetch) = proceed(s.plan_round(Ok(Earphone::Activated), Ok(TimeOfDay::Night)));
    assert!(fetch);
    let change = s.finish_round(e, t, Ok(Temperature::Cold));
    assert_eq!(change, Some(full(TimeOfDay::Night, Temperature::Cold, Earphone::Activated)));
}

#[test]
fn a_failed_forecast_keeps_the_last_reading() {
    let mut s = ChangerState::new();
    s.finish_round(Earphone::Activated, TimeOfDay::Day, Ok(Temperature::Cold));
    let change = s.finish_round(Earphone::Activated, TimeOfDay::Night, Err(String::from("timeout")));
    assert_eq!(change, Some(full(TimeOfDay::Night, Temperature::Cold, Earphone::Activated)));
    assert_eq!(s.last_temperature(), Temperature::Cold);
}

#[test]
fn the_time_of_day_is_taken_in_mauritius() {
    // 00:00 UTC is 04:00 in Mauritius.
    assert_eq!(time_of_day_at_utc(0), TimeOfDay::Night);
    assert_eq!(time_of_day_at_utc(2 * 3600 - 1), TimeOfDay::Night);
    assert_eq!(time_of_day_at_utc(2 * 3600), TimeOfDay::Day);
    assert_eq!(time_of_day_at_utc(14 * 3600 - 1), TimeOfDay::Day);
    assert_eq!(time_of_day_at_utc(14 * 3600), TimeOfDay::Night);
    assert_eq!(time_of_day_at_utc(20 * 3600), TimeOfDay::Night);
    assert_eq!(time_of_day_at_utc(1_700_000_000), TimeOfDay::Night);
    assert_eq!(time_of_day_at_utc(1_700_020_000), TimeOfDay::Day);
    assert_eq!(time_of_day_at_utc(u64::MAX), time_of_day_at_utc(u64::MAX % 86400));
}

#[test]
fn clock_readings_give_the_time_of_day() {
    assert_eq!(time_of_day_from_clock(Some(2 * 3600)), Ok(TimeOfDay::Day));
    assert_eq!(time_of_day_from_clock(Some(0)), Ok(TimeOfDay::Night));
    assert_eq!(time_of_day_from_clock(None), Err(String::from("Invalid time")));
}
