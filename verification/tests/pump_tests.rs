use soil_watering::pump::{describe_elapsed, Pump};
use soil_watering::text::append_decimal;
use std::time::{Duration, Instant};

fn numeral(n: u64) -> String {
    let mut out = String::new();
    append_decimal(&mut out, n);
    out
}

#[test]
fn numerals_have_no_leading_zeros() {
    assert_eq!(numeral(0), "0");
    assert_eq!(numeral(7), "7");
    assert_eq!(numeral(10), "10");
    assert_eq!(numeral(101), "101");
    assert_eq!(numeral(1234567890), "1234567890");
    assert_eq!(numeral(u64::MAX), "18446744073709551615");
}

#[test]
fn numeral_is_appended_to_what_is_there() {
    let mut out = String::from("n=");
    append_decimal(&mut out, 42);
    append_decimal(&mut out, 0);
    assert_eq!(out, "n=420");
}

#[test]
fn seconds_below_a_minute() {
    assert_eq!(describe_elapsed(Some(45)), "45 sec ago");
}

#[test]
fn minutes_are_rounded_down() {
    assert_eq!(describe_elapsed(Some(125)), "2 min ago");
}

#[test]
fn hours_are_rounded_down() {
    assert_eq!(describe_elapsed(Some(7300)), "2 hr ago");
}

#[test]
fn never_activated() {
    assert_eq!(describe_elapsed(None), "Never");
    assert_eq!(Pump::new().time_since_last_on_str(), "Never");
}

#[test]
fn unit_changes_at_sixty_and_at_thirty_six_hundred() {
    assert_eq!(describe_elapsed(Some(0)), "0 sec ago");
    assert_eq!(describe_elapsed(Some(59)), "59 sec ago");
    assert_eq!(describe_elapsed(Some(60)), "1 min ago");
    assert_eq!(describe_elapsed(Some(119)), "1 min ago");
    assert_eq!(describe_elapsed(Some(3599)), "59 min ago");
    assert_eq!(describe_elapsed(Some(3600)), "1 hr ago");
    assert_eq!(describe_elapsed(Some(7199)), "1 hr ago");
    assert_eq!(describe_elapsed(Some(86400)), "24 hr ago");
    assert_eq!(describe_elapsed(Some(u64::MAX)), "5124095576030431 hr ago");
}

#[test]
fn new_pump_is_off() {
    assert!(!Pump::new().is_on());
}

#[test]
fn on_and_off_drive_the_output() {
    let mut pump = Pump::new();
    pump.on();
    assert!(pump.is_on());
    pump.off();
    assert!(!pump.is_on());
    pump.off();
    assert!(!pump.is_on());
}

#[test]
fn switching_off_keeps_the_activation_stamp() {
    let mut pump = Pump::new();
    pump.on();
    pump.off();
    let text = pump.time_since_last_on_str();
    assert_ne!(text, "Never");
    assert!(text.ends_with(" sec ago"));
    assert!(text == "0 sec ago" || text == "1 sec ago" || text == "2 sec ago");
}

#[test]
fn switching_off_before_any_activation_leaves_never() {
    let mut pump = Pump::new();
    pump.off();
    assert_eq!(pump.time_since_last_on_str(), "Never");
}

#[test]
fn description_counts_from_the_given_stamp() {
    let mut pump = Pump::new();
    let stamp = Instant::now();
    pump.on_at(stamp);
    assert!(pump.is_on());
    assert_eq!(pump.time_since_last_on_str_at(stamp), "0 sec ago");
    assert_eq!(
        pump.time_since_last_on_str_at(stamp + Duration::from_secs(45)),
        "45 sec ago"
    );
    assert_eq!(
        pump.time_since_last_on_str_at(stamp + Duration::from_secs(125)),
        "2 min ago"
    );
    assert_eq!(
        pump.time_since_last_on_str_at(stamp + Duration::from_secs(7300)),
        "2 hr ago"
    );
}

#[test]
fn part_of_a_second_is_dropped() {
    let mut pump = Pump::new();
    let stamp = Instant::now();
    pump.on_at(stamp);
    assert_eq!(
        pump.time_since_last_on_str_at(stamp + Duration::from_millis(59_999)),
        "59 sec ago"
    );
    assert_eq!(
        pump.time_since_last_on_str_at(stamp + Duration::from_millis(60_000)),
        "1 min ago"
    );
}

#[test]
fn stamp_later_than_the_reading_counts_as_zero() {
    let mut pump = Pump::new();
    let now = Instant::now();
    pump.on_at(now + Duration::from_secs(3600));
    assert_eq!(pump.time_since_last_on_str_at(now), "0 sec ago");
    assert_eq!(pump.time_since_last_on_str(), "0 sec ago");
}

#[test]
fn never_activated_at_any_reading() {
    let pump = Pump::new();
    let now = Instant::now();
    assert_eq!(pump.time_since_last_on_str_at(now), "Never");
    assert_eq!(
        pump.time_since_last_on_str_at(now + Duration::from_secs(7300)),
        "Never"
    );
}

#[test]
fn switching_off_does_not_reset_the_count() {
    let mut pump = Pump::new();
    let stamp = Instant::now();
    pump.on_at(stamp);
    pump.off();
    assert!(!pump.is_on());
    assert_eq!(
        pump.time_since_last_on_str_at(stamp + Duration::from_secs(5)),
        "5 sec ago"
    );
    pump.off();
    assert_eq!(
        pump.time_since_last_on_str_at(stamp + Duration::from_secs(125)),
        "2 min ago"
    );
}

#[test]
fn a_new_activation_replaces_the_stamp() {
    let mut pump = Pump::new();
    let first = Instant::now();
    let second = first + Duration::from_secs(100);
    pump.on_at(first);
    assert_eq!(
        pump.time_since_last_on_str_at(first + Duration::from_secs(130)),
        "2 min ago"
    );
    pump.off();
    pump.on_at(second);
    assert_eq!(
        pump.time_since_last_on_str_at(first + Duration::from_secs(130)),
        "30 sec ago"
    );
}

#[test]
fn activation_by_the_clock_replaces_an_earlier_stamp() {
    let mut pump = Pump::new();
    let now = Instant::now();
    pump.on_at(now + Duration::from_secs(3600));
    pump.off();
    pump.on();
    let later = Instant::now() + Duration::from_secs(600);
    assert_eq!(pump.time_since_last_on_str_at(later), "10 min ago");
}
