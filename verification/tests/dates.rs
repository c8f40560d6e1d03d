use chrono::Datelike;
use freefall_sync::data::{
    last_known_strip, latest_strip, mark_synced, month_of, FreefallEntry, ReaderDate, ReaderEntry,
};
use freefall_sync::error::{Error, ErrorKind};

fn title_date(year: &str, month: &str, day: &str) -> Result<ReaderDate, Error> {
    ReaderDate::from_title(year.to_string(), month.to_string(), day.to_string())
}

fn text_of(year: i32, month: u32, day: u32) -> String {
    ReaderDate::from_ymd(year, month, day).unwrap().to_text()
}

fn entry(i: i32) -> ReaderEntry {
    ReaderEntry { i, ..ReaderEntry::default() }
}

#[test]
fn month_table_names_each_month() {
    let names =
        ["Jan", "Feb", "Mar", "Apr", "May", "Jun", "Jul", "Aug", "Sep", "Oct", "Nov", "Dec"];
    for (at, name) in names.iter().enumerate() {
        assert_eq!(month_of(name), Some(at as u32 + 1), "{}", name);
    }
}

#[test]
fn month_table_gives_each_month_once() {
    let names =
        ["Jan", "Feb", "Mar", "Apr", "May", "Jun", "Jul", "Aug", "Sep", "Oct", "Nov", "Dec"];
    for a in names {
        for b in names {
            assert_eq!(month_of(a) == month_of(b), a == b);
        }
    }
}

#[test]
fn month_is_named_by_three_letters_and_no_more() {
    for token in ["January", "Janx", "Jan ", "September", "Sept", "Decem\u{e9}", "JanJan"] {
        assert_eq!(month_of(token), None, "{:?}", token);
    }
}

#[test]
fn from_title_fails_on_a_month_written_out() {
    match ReaderDate::from_title("2020".to_string(), "January".to_string(), "5".to_string()) {
        Err(Error::Month { month }) => assert_eq!(month, "January"),
        other => panic!("{:?}", other),
    }
    for token in ["Janx", "JAN", "jan", "Ja", "", "M\u{e4}r"] {
        let read = ReaderDate::from_title("2020".to_string(), token.to_string(), "5".to_string());
        match read {
            Err(error) => {
                assert_eq!(error.kind(), ErrorKind::Parse);
                assert!(error.message().contains(&format!("{:?}", token)), "{}", error.message());
            },
            Ok(date) => panic!("{:?}", date),
        }
    }
}

#[test]
fn month_table_refuses_other_tokens() {
    for token in ["", "J", "Ja", "jan", "JAN", "Foo", "Jaa", " Jan", "1", "M\u{e4}r", "aa\u{17f}"] {
        assert_eq!(month_of(token), None, "{:?}", token);
    }
}

#[test]
fn from_title_reads_a_title() {
    let date = title_date("2020", "Jan", "5").unwrap();
    assert_eq!((date.year(), date.month(), date.day()), (2020, 1, 5));
    assert_eq!(date.to_text(), "2020-01-05");
    let date = title_date("1998", "Mar", "30").unwrap();
    assert_eq!(date.to_text(), "1998-03-30");
}

#[test]
fn from_title_fails_on_an_unknown_month() {
    match title_date("2020", "jan", "5") {
        Err(Error::Month { month }) => assert_eq!(month, "jan"),
        other => panic!("{:?}", other),
    }
    match title_date("x", "Ja", "y") {
        Err(error) => assert_eq!(error.kind(), ErrorKind::Parse),
        other => panic!("{:?}", other),
    }
}

#[test]
fn from_title_fails_on_what_is_no_number() {
    match title_date("20x0", "Jan", "5") {
        Err(Error::Number { text }) => assert_eq!(text, "20x0"),
        other => panic!("{:?}", other),
    }
    match title_date("2020", "Jan", "") {
        Err(Error::Number { text }) => assert_eq!(text, ""),
        other => panic!("{:?}", other),
    }
    match title_date("99999999999", "Jan", "-1") {
        Err(Error::Number { text }) => assert_eq!(text, "99999999999"),
        other => panic!("{:?}", other),
    }
}

#[test]
fn from_title_fails_on_a_day_that_is_none() {
    match title_date("2021", "Feb", "30") {
        Err(Error::Date { year, month, day }) => assert_eq!((year, month, day), (2021, 2, 30)),
        other => panic!("{:?}", other),
    }
    match title_date("2021", "Apr", "0") {
        Err(Error::Date { year, month, day }) => assert_eq!((year, month, day), (2021, 4, 0)),
        other => panic!("{:?}", other),
    }
    match title_date("400000", "Jan", "1") {
        Err(error) => assert_eq!(error.kind(), ErrorKind::Parse),
        other => panic!("{:?}", other),
    }
}

#[test]
fn from_ymd_knows_the_calendar() {
    assert!(ReaderDate::from_ymd(2020, 2, 29).is_some());
    assert!(ReaderDate::from_ymd(2021, 2, 29).is_none());
    assert!(ReaderDate::from_ymd(1900, 2, 29).is_none());
    assert!(ReaderDate::from_ymd(2000, 2, 29).is_some());
    assert!(ReaderDate::from_ymd(-4, 2, 29).is_some());
    assert!(ReaderDate::from_ymd(2021, 4, 30).is_some());
    assert!(ReaderDate::from_ymd(2021, 4, 31).is_none());
    assert!(ReaderDate::from_ymd(2021, 12, 31).is_some());
    assert!(ReaderDate::from_ymd(2021, 13, 1).is_none());
    assert!(ReaderDate::from_ymd(2021, 0, 1).is_none());
    assert!(ReaderDate::from_ymd(2021, 1, 0).is_none());
    assert!(ReaderDate::from_ymd(2021, 1, 32).is_none());
}

#[test]
fn from_ymd_keeps_to_the_years_of_a_date() {
    assert!(ReaderDate::from_ymd(262142, 12, 31).is_some());
    assert!(ReaderDate::from_ymd(262143, 1, 1).is_none());
    assert!(ReaderDate::from_ymd(-262143, 1, 1).is_some());
    assert!(ReaderDate::from_ymd(-262144, 12, 31).is_none());
    assert!(ReaderDate::from_ymd(i32::MAX, 1, 1).is_none());
    assert!(ReaderDate::from_ymd(i32::MIN, 1, 1).is_none());
}

#[test]
fn from_ymd_agrees_with_chrono() {
    for year in [-262144, -262143, -401, -400, -1, 0, 1, 1900, 2000, 2020, 2021, 262142, 262143] {
        for month in 0..14 {
            for day in [0, 1, 28, 29, 30, 31, 32] {
                assert_eq!(
                    ReaderDate::from_ymd(year, month, day).is_some(),
                    chrono::NaiveDate::from_ymd_opt(year, month, day).is_some(),
                    "{} {} {}",
                    year,
                    month,
                    day
                );
            }
        }
    }
}

#[test]
fn to_text_writes_year_month_and_day() {
    assert_eq!(text_of(2020, 1, 5), "2020-01-05");
    assert_eq!(text_of(1998, 12, 31), "1998-12-31");
    assert_eq!(text_of(5, 3, 9), "0005-03-09");
    assert_eq!(text_of(0, 1, 1), "0000-01-01");
    assert_eq!(text_of(9999, 12, 31), "9999-12-31");
}

#[test]
fn to_text_signs_the_years_out_of_four_digits() {
    assert_eq!(text_of(10000, 1, 1), "+10000-01-01");
    assert_eq!(text_of(262142, 12, 31), "+262142-12-31");
    assert_eq!(text_of(-1, 1, 1), "-0001-01-01");
    assert_eq!(text_of(-262143, 1, 1), "-262143-01-01");
}

#[test]
fn to_text_agrees_with_chrono() {
    for year in [-262143, -10000, -9999, -1, 0, 1, 999, 2020, 9999, 10000, 262142] {
        for (month, day) in [(1, 1), (2, 28), (10, 9), (12, 31)] {
            assert_eq!(
                text_of(year, month, day),
                chrono::NaiveDate::from_ymd_opt(year, month, day).unwrap().to_string()
            );
        }
    }
}

#[test]
fn from_iso_reads_what_to_text_writes() {
    for (year, month, day) in [(2020, 1, 5), (1998, 12, 31), (5, 3, 9), (2000, 2, 29)] {
        let date = ReaderDate::from_ymd(year, month, day).unwrap();
        assert_eq!(ReaderDate::from_iso(&date.to_text()), Some(date));
    }
}

#[test]
fn from_iso_refuses_what_is_no_date() {
    assert_eq!(ReaderDate::from_iso(""), None);
    assert_eq!(ReaderDate::from_iso("2020-02-30"), None);
    assert_eq!(ReaderDate::from_iso("2020-13-01"), None);
    assert_eq!(ReaderDate::from_iso("2020/01/05"), None);
    assert_eq!(ReaderDate::from_iso("January 5, 2020"), None);
}

#[test]
fn from_iso_agrees_with_chrono() {
    for text in ["2020-01-05", "2020-1-5", " 2020-01-05", "2020-01-05 ", "20-01-05", "x"] {
        let expected = chrono::NaiveDate::parse_from_str(text, "%Y-%m-%d").ok();
        let found = ReaderDate::from_iso(text);
        assert_eq!(
            found.map(|d| (d.year(), d.month(), d.day())),
            expected.map(|d| (d.year(), d.month(), d.day())),
            "{:?}",
            text
        );
    }
}

#[test]
fn from_parts_takes_a_known_day() {
    let date = ReaderDate::from_parts(Some((2020, 1, 5))).unwrap();
    assert_eq!(date, ReaderDate::from_ymd(2020, 1, 5).unwrap());
    assert_eq!(ReaderDate::from_parts(None), None);
}

#[test]
fn latest_strip_is_that_of_the_last_entry() {
    let feed = vec![
        FreefallEntry { i: 1, h: None, prefix: None, ext: None },
        FreefallEntry { i: 3502, h: Some(300), prefix: Some("fc".to_string()), ext: None },
    ];
    assert_eq!(latest_strip(&feed), Some(3502));
    assert_eq!(latest_strip(&Vec::new()), None);
}

#[test]
fn last_known_strip_is_that_of_the_last_entry() {
    assert_eq!(last_known_strip(&vec![entry(7), entry(3498)]), Some(3498));
    assert_eq!(last_known_strip(&Vec::new()), None);
}

#[test]
fn mark_synced_touches_the_last_entry_only() {
    let mut record = vec![entry(7), ReaderEntry { height: Some(9), ..entry(3498) }];
    mark_synced(&mut record, 3502, 1_600_000_000);
    assert_eq!(record.len(), 2);
    assert_eq!(record[0].i, 7);
    assert_eq!(record[0].checked, None);
    assert_eq!(record[1].i, 3502);
    assert_eq!(record[1].checked, Some(1_600_000_000));
    assert_eq!(record[1].height, Some(9));
    let mut empty: Vec<ReaderEntry> = Vec::new();
    mark_synced(&mut empty, 1, 2);
    assert!(empty.is_empty());
}

#[test]
fn default_entry_knows_nothing() {
    let entry = ReaderEntry::default();
    assert_eq!(entry.i, 0);
    assert!(entry.single.is_none() && entry.height.is_none() && entry.width.is_none());
    assert!(entry.prefix.is_none() && entry.suffix.is_none() && entry.extra.is_none());
    assert!(entry.extra_height.is_none() && entry.extra_original.is_none());
    assert!(entry.checked.is_none());
}

#[test]
fn failures_are_told_in_words() {
    let told = |error: Error| error.message();
    assert_eq!(told(Error::Month { month: "jan".to_string() }), "invalid month \"jan\"");
    assert_eq!(told(Error::Number { text: "x".to_string() }), "invalid number \"x\"");
    assert_eq!(
        told(Error::Date { year: -5, month: 13, day: 4294967295 }),
        "invalid or out-of-range date -5-13-4294967295"
    );
    assert_eq!(
        told(Error::Title { body: "<html>".to_string() }),
        "Failed to find date via regex: <html>"
    );
    assert_eq!(
        told(Error::UnsupportedFormat { path: "/a.gif".to_string() }),
        "Unsupported image type for image \"/a.gif\""
    );
    assert_eq!(told(Error::Location { path: "/a".to_string() }), "No address for image \"/a\"");
    assert_eq!(told(Error::FeedPrefix), "Prefix match failed");
    assert_eq!(told(Error::FeedSuffix), "Suffix match failed");
    assert_eq!(told(Error::Network { detail: "refused".to_string() }), "Failed to fetch: refused");
    assert_eq!(told(Error::Io { detail: "denied".to_string() }), "Failed to read or write: denied");
    assert_eq!(told(Error::Json { detail: "eof".to_string() }), "Failed to parse: eof");
    assert_eq!(told(Error::BinOverfull { index: 34 }), "The bin in progress is full: bin 34");
    assert_eq!(
        told(Error::Leftover { index: -1, detail: "denied".to_string() }),
        "Failed to remove the bin in progress: bin -1: denied"
    );
    for error in [
        Error::EmptyFeed,
        Error::EmptyRecord,
        Error::MissingImage,
        Error::MissingExtraImage,
        Error::Unexpected,
    ] {
        assert!(!error.message().is_empty());
    }
}

#[test]
fn failures_have_their_kinds() {
    let text = || "x".to_string();
    let kinds = [
        (Error::Network { detail: text() }, ErrorKind::Network),
        (Error::FeedPrefix, ErrorKind::Parse),
        (Error::FeedSuffix, ErrorKind::Parse),
        (Error::Json { detail: text() }, ErrorKind::Parse),
        (Error::EmptyFeed, ErrorKind::Parse),
        (Error::EmptyRecord, ErrorKind::Parse),
        (Error::Title { body: text() }, ErrorKind::Parse),
        (Error::Month { month: text() }, ErrorKind::Parse),
        (Error::Number { text: text() }, ErrorKind::Parse),
        (Error::Date { year: 1, month: 2, day: 3 }, ErrorKind::Parse),
        (Error::MissingImage, ErrorKind::MissingImage),
        (Error::MissingExtraImage, ErrorKind::MissingExtraImage),
        (Error::Location { path: text() }, ErrorKind::Parse),
        (Error::UnsupportedFormat { path: text() }, ErrorKind::UnsupportedFormat),
        (Error::Io { detail: text() }, ErrorKind::Io),
        (Error::BinOverfull { index: 1 }, ErrorKind::Consistency),
        (Error::Leftover { index: 1, detail: text() }, ErrorKind::Consistency),
        (Error::Unexpected, ErrorKind::Protocol),
    ];
    for (error, kind) in kinds {
        assert_eq!(error.kind(), kind, "{:?}", error);
    }
}
