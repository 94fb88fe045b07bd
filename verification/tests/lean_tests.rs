use gear_trading::lean::{DayBars, Lean};
use gear_trading::lean::{date_of_stamp, file_stem_start, parse_bar_line, parse_int_field,
    path_is_zip};
use gear_trading::quote::Bar;

#[test]
fn zip_suffix() {
    assert!(path_is_zip(&String::from("20240115.zip")));
    assert!(path_is_zip(&String::from("fx/eurusd/20240115.zip")));
    assert!(!path_is_zip(&String::from("20240115.csv")));
    assert!(!path_is_zip(&String::from("zip")));
    assert!(!path_is_zip(&String::from("")));
}

#[test]
fn stem_and_date() {
    let path = String::from("fx/eurusd/20240115.zip");
    let start = file_stem_start(&path);
    assert_eq!(start, 10);
    assert_eq!(date_of_stamp(&path, start), Some((2024, 1, 15)));

    let flat = String::from("19991231.zip");
    assert_eq!(file_stem_start(&flat), 0);
    assert_eq!(date_of_stamp(&flat, 0), Some((1999, 12, 31)));

    let bad = String::from("fx/eurusd/2024x115.zip");
    assert_eq!(date_of_stamp(&bad, 10), None);
    let short = String::from("202401");
    assert_eq!(date_of_stamp(&short, 0), None);
}

#[test]
fn int_fields() {
    let line = String::from("60000,-25,7");
    assert_eq!(parse_int_field(&line, 0), Some((60000, 5)));
    assert_eq!(parse_int_field(&line, 6), Some((-25, 9)));
    assert_eq!(parse_int_field(&line, 10), Some((7, 11)));
    assert_eq!(parse_int_field(&String::from(",x"), 0), None);
    assert_eq!(parse_int_field(&String::from("12a4"), 0), None);
}

#[test]
fn bar_lines() {
    let line = String::from("60000,1001000,1002000,1000500,1001500,12345");
    assert_eq!(
        parse_bar_line(&line),
        Some(Bar { t: 60000, o: 1_001_000, h: 1_002_000, l: 1_000_500, c: 1_001_500 }),
    );
    let no_volume = String::from("60000,1001000,1002000,1000500,1001500");
    assert_eq!(
        parse_bar_line(&no_volume),
        Some(Bar { t: 60000, o: 1_001_000, h: 1_002_000, l: 1_000_500, c: 1_001_500 }),
    );
    assert_eq!(parse_bar_line(&String::from("60000,1001000")), None);
    assert_eq!(parse_bar_line(&String::from("60000,abc,1,2,3")), None);
    assert_eq!(parse_bar_line(&String::from("")), None);
}

#[test]
fn day_bars_cursor() {
    let mut bars = DayBars::new(vec![
        String::from("readme.txt"),
        String::from("20240115.zip"),
        String::from("notes.csv"),
        String::from("20240116.zip"),
    ]);
    let first = bars.next_zip_path().unwrap();
    assert_eq!(first, String::from("20240115.zip"));
    let second = bars.next_zip_path().unwrap();
    assert_eq!(second, String::from("20240116.zip"));
    assert!(bars.next_zip_path().is_none());
    assert!(bars.next_zip_path().is_none());
}

#[test]
fn empty_day_bars() {
    let mut bars = DayBars::empty();
    assert!(bars.next_zip_path().is_none());
}

#[test]
fn list_entries_wraps_paths() {
    let lean = Lean { dir: String::from("data/forex") };
    let mut bars = lean.list_entries(vec![String::from("20240115.zip")]);
    assert_eq!(bars.next_zip_path().unwrap(), String::from("20240115.zip"));
    assert!(bars.next_zip_path().is_none());
}
