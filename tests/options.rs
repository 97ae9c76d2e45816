use ppnd::options::{next_round, Delay, Precision, Repeat};

#[test]
fn precision_in_range() {
    assert_eq!(Precision::from_string("0".to_string()), Ok(0));
    assert_eq!(Precision::from_string("8".to_string()), Ok(8));
    assert_eq!(Precision::from_string("+3".to_string()), Ok(3));
}

#[test]
fn precision_out_of_range() {
    let e = Err("precision must be an integer value from 0 to 8".to_string());
    assert_eq!(Precision::from_string("9".to_string()), e);
    assert_eq!(Precision::from_string("-1".to_string()), e);
    assert_eq!(Precision::from_string("three".to_string()), e);
    assert_eq!(Precision::from_string("".to_string()), e);
    assert_eq!(Precision::from_string("+".to_string()), e);
    assert_eq!(Precision::from_string("99999999999999999999".to_string()), e);
}

#[test]
fn repeat_range() {
    let e = Err("repeat must be an integer value from 1 to 60".to_string());
    assert_eq!(Repeat::from_string("1".to_string()), Ok(1));
    assert_eq!(Repeat::from_string("60".to_string()), Ok(60));
    assert_eq!(Repeat::from_string("0".to_string()), e);
    assert_eq!(Repeat::from_string("61".to_string()), e);
    assert_eq!(Repeat::from_string("65537".to_string()), e);
}

#[test]
fn delay_range() {
    let e = Err("delay must be an integer value from 1 to 60".to_string());
    assert_eq!(Delay::from_string("1".to_string()), Ok(1));
    assert_eq!(Delay::from_string("60".to_string()), Ok(60));
    assert_eq!(Delay::from_string("0".to_string()), e);
    assert_eq!(Delay::from_string("61".to_string()), e);
    assert_eq!(Delay::from_string("5s".to_string()), e);
}

#[test]
fn help_texts() {
    assert_eq!(Precision::opt_help(), "precision of scaled byte count (0-8)\n(default: 3)");
    assert_eq!(Repeat::opt_help(), "query /proc/net/dev COUNT times (1-60)\n(default: 1)");
    assert_eq!(Delay::opt_help(), "delay between queries in SECONDS (1-60)\n(default: 5)");
}

#[test]
fn defaults() {
    assert_eq!(Precision::DEFAULT, 3);
    assert_eq!(Precision::MAX, 8);
    assert_eq!(Repeat::DEFAULT, 1);
    assert_eq!(Delay::DEFAULT, 5);
}

#[test]
fn timestamp_only_when_repeating() {
    assert!(!ppnd::options::shows_timestamp(1));
    assert!(ppnd::options::shows_timestamp(2));
    assert!(ppnd::options::shows_timestamp(60));
}

#[test]
fn rounds_count_down() {
    assert_eq!(next_round(3), (2, true));
    assert_eq!(next_round(2), (1, true));
    assert_eq!(next_round(1), (0, false));
    assert_eq!(next_round(0), (0, false));
}
