use freefall_sync::data::{FreefallEntry, ReaderEntry};
use freefall_sync::error::{Error, ErrorKind};
use freefall_sync::plan::Config;
use freefall_sync::sync::{Action, Event, Fault, Phase, Run, Waiting};
use std::collections::BTreeMap;

const NOW: i64 = 1_600_000_000;

#[derive(Clone, Debug, PartialEq)]
struct Store {
    record: Vec<(i32, Option<i64>)>,
    in_progress: BTreeMap<String, Vec<Option<String>>>,
    filed: BTreeMap<String, Vec<Option<String>>>,
    images: BTreeMap<String, String>,
}

struct Site {
    latest: i32,
    broken_page: Option<i32>,
    feed: Option<String>,
    image_ending: &'static str,
}

fn site(latest: i32) -> Site {
    Site { latest, broken_page: None, feed: None, image_ending: "png" }
}

fn date_of(number: i32) -> String {
    format!("2020-10-{:02}", number % 28 + 1)
}

fn page_of(site: &Site, number: i32) -> String {
    format!(
        "<html><title>Freefall {} Oct {}, 2020</title>\n<img src=\"/ff{}00/fc{:05}.{}\">\n<img src=\"/linkpages/next.gif\"></html>",
        number,
        number % 28 + 1,
        (number - 1) / 100 + 1,
        number,
        site.image_ending
    )
}

fn number_of(url: &str, latest: i32) -> i32 {
    if url == "http://freefall.purrsia.com/default.htm" {
        latest
    } else {
        let at = url.rfind("/fc").unwrap();
        url[at + 3..at + 8].parse().unwrap()
    }
}

fn store(last_known: i32, checked: Option<i64>) -> Store {
    let mut in_progress = BTreeMap::new();
    if last_known % 100 != 99 {
        let first = last_known / 100 * 100;
        let dates = (first..=last_known).map(|n| Some(date_of(n))).collect();
        in_progress.insert(format!("dates_{}.json", last_known / 100), dates);
    }
    Store {
        record: vec![(1, None), (last_known, checked)],
        in_progress,
        filed: BTreeMap::new(),
        images: BTreeMap::new(),
    }
}

fn entry(i: i32, checked: Option<i64>) -> ReaderEntry {
    ReaderEntry { i, checked, ..ReaderEntry::default() }
}

fn feed_entries(json: &str) -> Result<Vec<FreefallEntry>, String> {
    let value: serde_json::Value = serde_json::from_str(json).map_err(|e| e.to_string())?;
    let list = value.as_array().ok_or("no array")?;
    Ok(list
        .iter()
        .map(|item| FreefallEntry {
            i: item["i"].as_i64().unwrap() as i32,
            h: item["h"].as_i64().map(|h| h as i32),
            prefix: item["prefix"].as_str().map(str::to_string),
            ext: item["ext"].as_str().map(str::to_string),
        })
        .collect())
}

fn named(action: &Action) -> String {
    match action {
        Action::FetchFeed { url } => format!("feed {}", url),
        Action::ParseFeed { json } => format!("parse {}", json),
        Action::LoadRecord => "load record".to_string(),
        Action::LoadBin { index, file } => format!("load bin {} {}", index, file),
        Action::FetchPage { number, url } => format!("page {} {}", number, url),
        Action::FetchImage { url } => format!("image {}", url),
        Action::SaveImage { file } => format!("save image {}", file),
        Action::FileBin { index, file } => format!("file bin {} {}", index, file),
        Action::RemoveBin { index, file } => format!("remove bin {} {}", index, file),
        Action::SaveBin { index, file } => format!("save bin {} {}", index, file),
        Action::ReadClock => "clock".to_string(),
        Action::SaveRecord => "save record".to_string(),
        Action::Finish => "finish".to_string(),
        Action::Abort => "abort".to_string(),
    }
}

fn answer(site: &Site, store: &mut Store, sync: &Run, held: &mut Option<String>, action: Action) -> Event {
    let failed = |fault: Fault, detail: &str| Event::Failed { fault, detail: detail.to_string() };
    match action {
        Action::FetchFeed { .. } => Event::Text(match &site.feed {
            Some(feed) => feed.clone(),
            None => format!("FreefallData([{{\"i\":1,\"h\":null}},{{\"i\":{}}}])", site.latest),
        }),
        Action::ParseFeed { json } => match feed_entries(&json) {
            Ok(entries) => Event::Feed(entries),
            Err(detail) => failed(Fault::Json, &detail),
        },
        Action::LoadRecord => {
            Event::Record(store.record.iter().map(|(i, checked)| entry(*i, *checked)).collect())
        },
        Action::LoadBin { file, .. } => Event::Bin(store.in_progress.get(&file).cloned()),
        Action::FetchPage { number, url } => {
            assert_eq!(number_of(&url, site.latest), number);
            if site.broken_page == Some(number) {
                failed(Fault::Network, "connection refused")
            } else {
                Event::Text(page_of(site, number))
            }
        },
        Action::FetchImage { url } => {
            *held = Some(url);
            Event::Completed
        },
        Action::SaveImage { file } => {
            store.images.insert(file, held.take().unwrap());
            Event::Completed
        },
        Action::FileBin { file, .. } => {
            store.filed.insert(file, sync.bin().clone());
            Event::Completed
        },
        Action::RemoveBin { file, .. } => match store.in_progress.remove(&file) {
            Some(_) => Event::Completed,
            None => failed(Fault::Io, "no such file"),
        },
        Action::SaveBin { file, .. } => {
            store.in_progress.insert(file, sync.bin().clone());
            Event::Completed
        },
        Action::ReadClock => Event::Time(NOW),
        Action::SaveRecord => {
            store.record = sync.record().iter().map(|entry| (entry.i, entry.checked)).collect();
            Event::Completed
        },
        Action::Finish | Action::Abort => unreachable!(),
    }
}

fn run(site: &Site, store: &mut Store) -> (Run, Vec<String>) {
    let (mut sync, mut action) = Run::begin(Config::default());
    let mut log = Vec::new();
    let mut held = None;
    loop {
        log.push(named(&action));
        if matches!(action, Action::Finish | Action::Abort) {
            return (sync, log);
        }
        let event = answer(site, store, &sync, &mut held, action);
        let next = sync.step(event);
        sync = next.0;
        action = next.1;
    }
}

fn until(waiting: Waiting, site: &Site, store: &mut Store) -> Run {
    let (mut sync, mut action) = Run::begin(Config::default());
    let mut held = None;
    while sync.waiting() != waiting {
        assert!(!matches!(action, Action::Finish | Action::Abort));
        let event = answer(site, store, &sync, &mut held, action);
        let next = sync.step(event);
        sync = next.0;
        action = next.1;
    }
    sync
}

fn error_of(sync: &Run) -> &Error {
    sync.error().as_ref().unwrap()
}

#[test]
fn run_begins_with_the_feed() {
    let (sync, action) = Run::begin(Config::default());
    assert_eq!(named(&action), "feed http://freefall.purrsia.com/fabsdata.js");
    assert_eq!(sync.phase(), Phase::CheckUpToDate);
    assert_eq!(sync.waiting(), Waiting::Feed);
    assert!(sync.error().is_none());
    assert!(sync.bin().is_empty() && sync.record().is_empty());
}

#[test]
fn run_fetches_the_strips_that_are_missing() {
    let mut store = store(3498, Some(7));
    let (sync, log) = run(&site(3502), &mut store);
    assert_eq!(sync.phase(), Phase::Done);
    assert_eq!((sync.last_known(), sync.latest(), sync.current()), (3498, 3502, 3502));
    assert_eq!(
        log,
        vec![
            "feed http://freefall.purrsia.com/fabsdata.js",
            "parse [{\"i\":1,\"h\":null},{\"i\":3502}]",
            "load record",
            "load bin 34 dates_34.json",
            "page 3499 http://freefall.purrsia.com/ff3500/fc03499.htm",
            "image http://freefall.purrsia.com/ff3500/fc03499.png",
            "save image 3499.png",
            "file bin 34 dates_34.json",
            "remove bin 34 dates_34.json",
            "page 3500 http://freefall.purrsia.com/ff3500/fc03500.htm",
            "image http://freefall.purrsia.com/ff3500/fc03500.png",
            "save image 3500.png",
            "page 3501 http://freefall.purrsia.com/ff3600/fc03501.htm",
            "image http://freefall.purrsia.com/ff3600/fc03501.png",
            "save image 3501.png",
            "page 3502 http://freefall.purrsia.com/default.htm",
            "image http://freefall.purrsia.com/ff3600/fc03502.png",
            "save image 3502.png",
            "save bin 35 dates_35.json",
            "clock",
            "save record",
            "finish",
        ]
    );
    assert_eq!(store.record, vec![(1, None), (3498 + 4, Some(NOW))]);
    let images: Vec<&str> = store.images.keys().map(String::as_str).collect();
    assert_eq!(images, vec!["3499.png", "3500.png", "3501.png", "3502.png"]);
    assert_eq!(store.images["3500.png"], "http://freefall.purrsia.com/ff3500/fc03500.png");
    assert_eq!(
        store.in_progress["dates_35.json"],
        vec![Some(date_of(3500)), Some(date_of(3501)), Some(date_of(3502))]
    );
    assert_eq!(store.in_progress.len(), 1);
    assert_eq!(store.filed.len(), 1);
    assert_eq!(store.filed["dates_34.json"].len(), 100);
    assert_eq!(store.filed["dates_34.json"][99], Some(date_of(3499)));
    assert_eq!(store.filed["dates_34.json"][0], Some(date_of(3400)));
}

#[test]
fn run_that_finds_the_copy_up_to_date_fetches_nothing() {
    let mut store = store(3502, Some(7));
    let before = store.clone();
    let (sync, log) = run(&site(3502), &mut store);
    assert_eq!(sync.phase(), Phase::Done);
    assert_eq!(
        log,
        vec![
            "feed http://freefall.purrsia.com/fabsdata.js",
            "parse [{\"i\":1,\"h\":null},{\"i\":3502}]",
            "load record",
            "clock",
            "save record",
            "finish",
        ]
    );
    assert_eq!(store.record, vec![(1, None), (3502, Some(NOW))]);
    assert_eq!(store.in_progress, before.in_progress);
    assert_eq!(store.filed, before.filed);
    assert!(store.images.is_empty());
}

#[test]
fn last_strip_of_a_bin_files_the_bin() {
    let mut store = store(3498, None);
    let (sync, log) = run(&site(3499), &mut store);
    assert_eq!(sync.phase(), Phase::Done);
    assert!(sync.bin().is_empty());
    assert_eq!(
        log[4..],
        [
            "page 3499 http://freefall.purrsia.com/default.htm",
            "image http://freefall.purrsia.com/ff3500/fc03499.png",
            "save image 3499.png",
            "file bin 34 dates_34.json",
            "remove bin 34 dates_34.json",
            "clock",
            "save record",
            "finish",
        ]
    );
    assert_eq!(store.filed["dates_34.json"].len(), 100);
    assert!(store.in_progress.is_empty());
    assert_eq!(store.record, vec![(1, None), (3499, Some(NOW))]);
}

#[test]
fn run_after_the_last_strip_of_a_bin_begins_a_new_bin() {
    let mut store = store(3499, None);
    assert!(store.in_progress.is_empty());
    let (sync, log) = run(&site(3501), &mut store);
    assert_eq!(sync.phase(), Phase::Done);
    assert_eq!(log[3], "page 3500 http://freefall.purrsia.com/ff3500/fc03500.htm");
    assert!(!log.iter().any(|line| line.starts_with("load bin")));
    assert_eq!(store.in_progress["dates_35.json"], vec![Some(date_of(3500)), Some(date_of(3501))]);
    assert!(store.filed.is_empty());
}

#[test]
fn bin_is_filed_at_a_hundred_dates_and_never_holds_more() {
    let mut store = store(95, None);
    let site = site(320);
    let (mut sync, mut action) = Run::begin(Config::default());
    let mut held = None;
    let mut filed = Vec::new();
    while !matches!(action, Action::Finish | Action::Abort) {
        assert!(sync.bin().len() <= 100);
        if let Action::FileBin { index, .. } = &action {
            assert_eq!(sync.bin().len(), 100);
            assert_eq!(sync.current() % 100, 99);
            assert_eq!(*index, sync.current() / 100);
            filed.push(*index);
        } else if !matches!(action, Action::RemoveBin { .. }) {
            assert!(sync.bin().len() < 100);
        }
        let event = answer(&site, &mut store, &sync, &mut held, action);
        let next = sync.step(event);
        sync = next.0;
        action = next.1;
    }
    assert_eq!(sync.phase(), Phase::Failed);
    assert_eq!(filed, vec![0, 1]);
    assert!(matches!(error_of(&sync), Error::Leftover { index: 1, .. }));
}

#[test]
fn run_that_fails_leaves_the_record_alone() {
    let mut store = store(3400, Some(7));
    let before = store.clone();
    let (sync, log) = run(&Site { broken_page: Some(3403), ..site(3405) }, &mut store);
    assert_eq!(sync.phase(), Phase::Failed);
    assert_eq!(log.last().unwrap(), "abort");
    assert!(!log.iter().any(|line| line == "save record" || line == "clock"));
    match error_of(&sync) {
        Error::Network { detail } => assert_eq!(detail, "connection refused"),
        other => panic!("{:?}", other),
    }
    assert_eq!(error_of(&sync).kind(), ErrorKind::Network);
    assert_eq!(store.record, before.record);
    assert_eq!(store.in_progress, before.in_progress);
    let images: Vec<&str> = store.images.keys().map(String::as_str).collect();
    assert_eq!(images, vec!["3401.png", "3402.png"]);
    assert_eq!(sync.record().len(), 2);
    assert_eq!(sync.record()[1].i, 3400);
    assert_eq!(sync.record()[1].checked, Some(7));
}

#[test]
fn run_after_a_failed_run_ends_as_a_run_without_failure() {
    let mut once = store(3400, Some(7));
    let (sync, _) = run(&site(3405), &mut once);
    assert_eq!(sync.phase(), Phase::Done);

    let mut twice = store(3400, Some(7));
    let (sync, _) = run(&Site { broken_page: Some(3403), ..site(3405) }, &mut twice);
    assert_eq!(sync.phase(), Phase::Failed);
    assert_ne!(twice, once);
    let (sync, log) = run(&site(3405), &mut twice);
    assert_eq!(sync.phase(), Phase::Done);
    assert_eq!(log[4], "page 3401 http://freefall.purrsia.com/ff3500/fc03401.htm");
    assert_eq!(twice, once);
    assert_eq!(twice.record, vec![(1, None), (3405, Some(NOW))]);
    assert_eq!(twice.in_progress["dates_34.json"].len(), 6);
}

#[test]
fn run_after_a_run_that_failed_past_a_filed_bin_finds_no_bin_in_progress() {
    let mut store = store(3498, None);
    let (sync, _) = run(&Site { broken_page: Some(3501), ..site(3502) }, &mut store);
    assert_eq!(sync.phase(), Phase::Failed);
    assert_eq!(store.record[1], (3498, None));
    assert!(store.in_progress.is_empty());
    let (sync, log) = run(&site(3502), &mut store);
    assert_eq!(sync.phase(), Phase::Done);
    assert_eq!(log[3], "load bin 34 dates_34.json");
    assert_eq!(log[log.len() - 4], "save bin 35 dates_35.json");
    assert_eq!(store.in_progress["dates_35.json"].len(), 4);
    assert_eq!(store.filed["dates_34.json"].len(), 100);
}

#[test]
fn copy_that_is_ahead_of_the_site_fetches_nothing() {
    let mut store = store(3502, None);
    let (sync, log) = run(&site(3498), &mut store);
    assert_eq!(sync.phase(), Phase::Done);
    assert_eq!(
        log[3..],
        ["load bin 35 dates_35.json", "save bin 34 dates_34.json", "clock", "save record", "finish"]
    );
    assert_eq!(store.record[1], (3498, Some(NOW)));
    assert!(store.images.is_empty());
}

#[test]
fn bin_in_progress_without_a_file_is_empty() {
    let mut store = store(3400, None);
    store.in_progress.clear();
    let (sync, _) = run(&site(3402), &mut store);
    assert_eq!(sync.phase(), Phase::Done);
    assert_eq!(store.in_progress["dates_34.json"], vec![Some(date_of(3401)), Some(date_of(3402))]);
}

#[test]
fn bin_in_progress_of_a_hundred_dates_fails_the_run() {
    let mut store = store(3400, None);
    store.in_progress.insert("dates_34.json".to_string(), vec![None; 100]);
    let (sync, log) = run(&site(3402), &mut store);
    assert_eq!(sync.phase(), Phase::Failed);
    assert_eq!(log.last().unwrap(), "abort");
    assert!(matches!(error_of(&sync), Error::BinOverfull { index: 34 }));
    assert_eq!(error_of(&sync).kind(), ErrorKind::Consistency);
    assert!(store.images.is_empty());
}

#[test]
fn bin_file_that_cannot_be_removed_fails_the_run() {
    let mut store = store(3498, None);
    let sync = until(Waiting::BinRemoved, &site(3502), &mut store);
    assert_eq!(sync.phase(), Phase::Syncing);
    let (sync, action) =
        sync.step(Event::Failed { fault: Fault::Io, detail: "permission denied".to_string() });
    assert!(matches!(action, Action::Abort));
    assert_eq!(sync.phase(), Phase::Failed);
    match error_of(&sync) {
        Error::Leftover { index, detail } => {
            assert_eq!(*index, 34);
            assert_eq!(detail, "permission denied");
        },
        other => panic!("{:?}", other),
    }
    assert_eq!(error_of(&sync).kind(), ErrorKind::Consistency);
    assert_eq!(store.record[1], (3498, None));
}

#[test]
fn faults_fail_the_run_under_their_kind() {
    let cases = [
        (Waiting::Feed, Fault::Network, ErrorKind::Network),
        (Waiting::FeedEntries, Fault::Json, ErrorKind::Parse),
        (Waiting::Record, Fault::Io, ErrorKind::Io),
        (Waiting::Record, Fault::Json, ErrorKind::Parse),
        (Waiting::Bin, Fault::Io, ErrorKind::Io),
        (Waiting::PageBody, Fault::Network, ErrorKind::Network),
        (Waiting::Image, Fault::Network, ErrorKind::Network),
        (Waiting::ImageSaved, Fault::Io, ErrorKind::Io),
        (Waiting::BinFiled, Fault::Io, ErrorKind::Io),
        (Waiting::BinRemoved, Fault::Io, ErrorKind::Consistency),
        (Waiting::BinSaved, Fault::Io, ErrorKind::Io),
        (Waiting::Time, Fault::Io, ErrorKind::Io),
        (Waiting::RecordSaved, Fault::Io, ErrorKind::Io),
    ];
    for (waiting, fault, kind) in cases {
        let mut store = store(3498, None);
        let sync = until(waiting, &site(3502), &mut store);
        let (sync, action) = sync.step(Event::Failed { fault, detail: "why".to_string() });
        assert!(matches!(action, Action::Abort), "{:?}", waiting);
        assert_eq!(sync.phase(), Phase::Failed);
        assert_eq!(sync.waiting(), Waiting::Nothing);
        assert_eq!(error_of(&sync).kind(), kind, "{:?}", waiting);
    }
}

#[test]
fn answer_that_was_not_asked_for_fails_the_run() {
    let answers: [fn() -> Event; 6] = [
        || Event::Text("text".to_string()),
        || Event::Feed(Vec::new()),
        || Event::Record(Vec::new()),
        || Event::Bin(None),
        || Event::Time(NOW),
        || Event::Completed,
    ];
    let fits = |waiting: Waiting, at: usize| match waiting {
        Waiting::Feed | Waiting::PageBody => at == 0,
        Waiting::FeedEntries => at == 1,
        Waiting::Record => at == 2,
        Waiting::Bin => at == 3,
        Waiting::Time => at == 4,
        _ => at == 5,
    };
    let states = [
        Waiting::Feed,
        Waiting::FeedEntries,
        Waiting::Record,
        Waiting::Bin,
        Waiting::PageBody,
        Waiting::Image,
        Waiting::ImageSaved,
        Waiting::BinFiled,
        Waiting::BinRemoved,
        Waiting::BinSaved,
        Waiting::Time,
        Waiting::RecordSaved,
    ];
    for waiting in states {
        for (at, answer) in answers.iter().enumerate() {
            if fits(waiting, at) {
                continue;
            }
            let mut store = store(3498, None);
            let sync = until(waiting, &site(3502), &mut store);
            let (sync, action) = sync.step(answer());
            assert!(matches!(action, Action::Abort), "{:?} {}", waiting, at);
            assert!(matches!(error_of(&sync), Error::Unexpected), "{:?} {}", waiting, at);
            assert_eq!(error_of(&sync).kind(), ErrorKind::Protocol);
        }
    }
}

#[test]
fn run_that_is_over_stays_over() {
    let mut store = store(3502, None);
    let (sync, _) = run(&site(3502), &mut store);
    let (sync, action) = sync.step(Event::Completed);
    assert!(matches!(action, Action::Finish));
    let (sync, action) = sync.step(Event::Failed { fault: Fault::Io, detail: String::new() });
    assert!(matches!(action, Action::Finish));
    assert_eq!(sync.phase(), Phase::Done);
    assert!(sync.error().is_none());

    let (sync, _) = run(&Site { feed: Some("[]".to_string()), ..site(1) }, &mut store);
    assert_eq!(sync.phase(), Phase::Failed);
    let (sync, action) = sync.step(Event::Time(NOW));
    assert!(matches!(action, Action::Abort));
    assert!(matches!(error_of(&sync), Error::FeedPrefix));
}

#[test]
fn feed_that_is_not_wrapped_fails_the_run() {
    let mut store = store(3498, None);
    let (sync, log) = run(&Site { feed: Some("FreefallData([]".to_string()), ..site(1) }, &mut store);
    assert_eq!(sync.phase(), Phase::Failed);
    assert!(matches!(error_of(&sync), Error::FeedSuffix));
    assert_eq!(log, vec!["feed http://freefall.purrsia.com/fabsdata.js", "abort"]);
}

#[test]
fn feed_without_entries_fails_the_run() {
    let mut store = store(3498, None);
    let (sync, _) = run(&Site { feed: Some("FreefallData([])".to_string()), ..site(1) }, &mut store);
    assert!(matches!(error_of(&sync), Error::EmptyFeed));
    assert_eq!(error_of(&sync).kind(), ErrorKind::Parse);
    let (sync, _) = run(&Site { feed: Some("FreefallData({)".to_string()), ..site(1) }, &mut store);
    assert!(matches!(error_of(&sync), Error::Json { .. }));
}

#[test]
fn record_without_entries_fails_the_run() {
    let mut store = store(3498, None);
    store.record.clear();
    let (sync, log) = run(&site(3502), &mut store);
    assert_eq!(sync.phase(), Phase::Failed);
    assert!(matches!(error_of(&sync), Error::EmptyRecord));
    assert_eq!(log.last().unwrap(), "abort");
    assert_eq!(log.len(), 4);
}

#[test]
fn image_that_is_no_png_fails_the_run() {
    let mut store = store(3400, None);
    let (sync, log) = run(&Site { image_ending: "gif", ..site(3402) }, &mut store);
    assert_eq!(sync.phase(), Phase::Failed);
    match error_of(&sync) {
        Error::UnsupportedFormat { path } => assert_eq!(path, "/ff3500/fc03401.gif"),
        other => panic!("{:?}", other),
    }
    assert_eq!(log[log.len() - 2], "image http://freefall.purrsia.com/ff3500/fc03401.gif");
    assert!(store.images.is_empty());
    assert_eq!(store.record[1], (3400, None));
}

#[test]
fn page_that_cannot_be_read_fails_the_run() {
    let mut store = store(3400, None);
    let sync = until(Waiting::PageBody, &site(3402), &mut store);
    let (sync, action) = sync.step(Event::Text("<html>moved</html>".to_string()));
    assert!(matches!(action, Action::Abort));
    match error_of(&sync) {
        Error::Title { body } => assert_eq!(body, "<html>moved</html>"),
        other => panic!("{:?}", other),
    }
    let sync = until(Waiting::PageBody, &site(3402), &mut store);
    let body = "<title>Freefall 3401 Oct 2, 2020</title>";
    let (sync, _) = sync.step(Event::Text(body.to_string()));
    assert!(matches!(error_of(&sync), Error::MissingImage));
}

#[test]
fn image_is_saved_under_the_number_in_the_title() {
    let mut store = store(3400, None);
    let sync = until(Waiting::PageBody, &site(3402), &mut store);
    let body = "<title>Freefall 77 Oct 2, 2020</title><img src=\"/a.png\">";
    let (sync, action) = sync.step(Event::Text(body.to_string()));
    assert_eq!(named(&action), "image http://freefall.purrsia.com/a.png");
    let (sync, action) = sync.step(Event::Completed);
    assert_eq!(named(&action), "save image 77.png");
    let (sync, action) = sync.step(Event::Completed);
    assert_eq!(named(&action), "page 3402 http://freefall.purrsia.com/default.htm");
    assert_eq!(sync.bin().last().unwrap(), &Some("2020-10-02".to_string()));
    assert_eq!(sync.current(), 3402);
}

#[test]
fn each_bin_holds_the_dates_of_its_own_strips() {
    let mut store = store(3450, None);
    let (sync, log) = run(&site(3520), &mut store);
    assert_eq!(sync.phase(), Phase::Done);
    let loads: Vec<&String> = log.iter().filter(|line| line.starts_with("load bin")).collect();
    assert_eq!(loads, vec!["load bin 34 dates_34.json"]);
    let filed = &store.filed["dates_34.json"];
    assert_eq!(filed.len(), 100);
    for (k, date) in filed.iter().enumerate() {
        assert_eq!(date, &Some(date_of(3400 + k as i32)));
    }
    let kept = &store.in_progress["dates_35.json"];
    assert_eq!(kept.len(), 3520 - 3499);
    for (k, date) in kept.iter().enumerate() {
        assert_eq!(date, &Some(date_of(3500 + k as i32)));
    }
    assert_eq!(store.filed.len(), 1);
    assert_eq!(store.in_progress.len(), 1);
}

#[test]
fn strips_are_fetched_one_after_the_other() {
    let mut store = store(3450, None);
    let (_, log) = run(&site(3520), &mut store);
    let pages: Vec<&String> = log.iter().filter(|line| line.starts_with("page ")).collect();
    assert_eq!(pages.len(), 70);
    for (k, line) in pages.iter().enumerate() {
        let number = 3451 + k as i32;
        let address = if number == 3520 {
            "http://freefall.purrsia.com/default.htm".to_string()
        } else {
            format!("http://freefall.purrsia.com/ff{}00/fc{:05}.htm", (number - 1) / 100 + 1, number)
        };
        assert_eq!(**line, format!("page {} {}", number, address));
    }
}

#[test]
fn record_is_written_once_and_by_a_run_that_is_done() {
    let mut store = store(3498, Some(7));
    let before = store.clone();
    let site = Site { broken_page: Some(3500), ..site(3502) };
    let (sync, log) = run(&site, &mut store);
    assert_eq!(sync.phase(), Phase::Failed);
    assert_eq!(store.record, before.record);
    assert!(!log.iter().any(|line| line == "save record"));
    let mut store = before;
    let (sync, log) = run(&self::site(3502), &mut store);
    assert_eq!(sync.phase(), Phase::Done);
    assert_eq!(log.iter().filter(|line| *line == "save record").count(), 1);
    assert_eq!(log[log.len() - 2], "save record");
    assert_eq!(store.record, vec![(1, None), (3502, Some(NOW))]);
}
