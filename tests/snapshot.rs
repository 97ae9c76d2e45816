use ppnd::bytescale::Scale;
use ppnd::ifregex::build;
use ppnd::ifstats::IFStats;
use ppnd::snapshot::{report_lines, snapshot_report};
use ppnd::text::{split_lines, split_whitespace};

const NETDEV: &str = "Inter-|   Receive                                                |  Transmit
 face |bytes    packets errs drop fifo frame compressed multicast|bytes    packets errs drop fifo colls carrier compressed
    lo: 4096 40 0 0 0 0 0 0 4096 40 0 0 0 0 0 0
  eth0: 1536 12 0 0 0 0 0 3 2048 10 0 0 0 0 0 0
";

fn report(line: &str, scale: Scale, precision: usize) -> String {
    IFStats::new(line).unwrap().report(&scale, precision)
}

#[test]
fn loopback_excluded_by_default() {
    let re = build().unwrap();
    let r = snapshot_report(NETDEV, &re, &Scale::Dyn10, 3, false).unwrap();
    let eth0 = report("  eth0: 1536 12 0 0 0 0 0 3 2048 10 0 0 0 0 0 0", Scale::Dyn10, 3);
    assert_eq!(r, eth0);
    assert!(r.contains("RX Bytes      1.536 kB  |  TX Bytes      2.048 kB\n"));
    assert!(!r.contains("lo:"));
}

#[test]
fn loopback_shown_on_request() {
    let re = build().unwrap();
    let r = snapshot_report(NETDEV, &re, &Scale::Dyn10, 3, true).unwrap();
    let lo = report("    lo: 4096 40 0 0 0 0 0 0 4096 40 0 0 0 0 0 0", Scale::Dyn10, 3);
    let eth0 = report("  eth0: 1536 12 0 0 0 0 0 3 2048 10 0 0 0 0 0 0", Scale::Dyn10, 3);
    assert_eq!(r, lo + &eth0);
}

#[test]
fn empty_snapshot_reports_nothing() {
    let re = build().unwrap();
    assert_eq!(snapshot_report("", &re, &Scale::Dyn2, 3, true), Ok(String::new()));
}

#[test]
fn names_with_punctuation_do_not_match() {
    let re = build().unwrap();
    let text = "eth0.100: 1 1 1 1 1 1 1 1 1 1 1 1 1 1 1 1\nbr-lan: 1 1 1 1 1 1 1 1 1 1 1 1 1 1 1 1\n";
    assert_eq!(snapshot_report(text, &re, &Scale::Raw, 0, true), Ok(String::new()));
}

#[test]
fn only_lines_of_interface_shape_are_read() {
    let re = build().unwrap();
    let good = "  eth0: 1 2 3 4 5 6 7 8 9 10 11 12 13 14 15 16";
    let text = format!(
        "{}\neth1: 1 2 3 4 5 6 7 8 9 10 11 12 13 14 15\neth2: 1 2 3 4 5 6 7 8 9 10 11 12 13 14 15 x\n",
        good
    );
    let r = snapshot_report(&text, &re, &Scale::Raw, 0, false);
    assert_eq!(r, Ok(report(good, Scale::Raw, 0)));
}

#[test]
fn matched_line_that_overflows_fails() {
    let re = build().unwrap();
    let text = "eth0: 18446744073709551616 0 0 0 0 0 0 0 0 0 0 0 0 0 0 0\n";
    let r = snapshot_report(text, &re, &Scale::Raw, 0, false);
    assert_eq!(r, Err("error parsing /proc/net/dev interface data".to_string()));
}

#[test]
fn marked_lines_are_reported() {
    let lines = vec!["header", "eth0: 100 1 0 0 0 0 0 0 200 2 0 0 0 0 0 0", "lo: 1 1 0 0 0 0 0 0 1 1 0 0 0 0 0 0"];
    let r = report_lines(&lines, &vec![false, true, true], &Scale::Dyn10, 3, false);
    assert_eq!(r, Ok(report(lines[1], Scale::Dyn10, 3)));
    let r = report_lines(&lines, &vec![false, false, true], &Scale::Dyn10, 3, true);
    assert_eq!(r, Ok(report(lines[2], Scale::Dyn10, 3)));
}

#[test]
fn marked_bad_line_fails_whole_report() {
    let lines = vec!["eth0: 100 1 0 0 0 0 0 0 200 2 0 0 0 0 0 0", "header"];
    let r = report_lines(&lines, &vec![true, true], &Scale::Dyn10, 3, false);
    assert_eq!(r, Err("error parsing /proc/net/dev interface data".to_string()));
    let r = report_lines(&lines, &vec![true, false], &Scale::Dyn10, 3, false);
    assert!(r.is_ok());
}

#[test]
fn lines_split_like_std() {
    for text in ["", "a", "a\n", "a\r\nb", "a\n\nb\n", "\n", "x\ry\n", "a\r", "é ü\nß"] {
        let ours: Vec<&str> = split_lines(text);
        let std: Vec<&str> = text.lines().collect();
        assert_eq!(ours, std, "{:?}", text);
    }
}

#[test]
fn whitespace_split_like_std() {
    for text in ["", "  ", "a", " a  b\tc\n", "x\u{a0}y\u{3000}z", "eth0: 1 2"] {
        let ours: Vec<&str> = split_whitespace(text);
        let std: Vec<&str> = text.split_whitespace().collect();
        assert_eq!(ours, std, "{:?}", text);
    }
}
