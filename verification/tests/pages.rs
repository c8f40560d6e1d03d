use freefall_sync::error::{Error, ErrorKind};
use freefall_sync::freefall::{Page, IMAGE_PATTERN, NAVIGATION_FRAGMENT, TITLE_PATTERN};

const ORIGIN: &str = "http://freefall.purrsia.com";

fn document(title: &str, images: &[&str]) -> String {
    let mut body = format!("<html><head><title>{}</title></head><body>", title);
    for image in images {
        body.push_str(&format!("<p><img src=\"{}\" alt=\"\"></p>\n", image));
    }
    body.push_str("</body></html>");
    body
}

fn groups(texts: &[&str]) -> Vec<Option<String>> {
    texts.iter().map(|text| Some(text.to_string())).collect()
}

fn read(body: &str) -> Result<Page, Error> {
    Page::new(body, NAVIGATION_FRAGMENT)
}

#[test]
fn title_gives_number_and_date() {
    let page = read(&document("Freefall 1234 Jan 5, 2020", &["/fc01234.png"])).unwrap();
    assert_eq!(page.num, 1234);
    assert_eq!(page.date.to_text(), "2020-01-05");
    assert_eq!((page.date.year(), page.date.month(), page.date.day()), (2020, 1, 5));
    assert_eq!(page.img_url, "/fc01234.png");
    assert_eq!(page.extra_url, None);
}

#[test]
fn title_is_found_whatever_case_and_space() {
    let body = "<HTML><TITLE>\n  freeFALL \t 3499   Oct\n2,  2020 </TITLE><IMG\nSRC=\"/a.png\">";
    let page = read(body).unwrap();
    assert_eq!(page.num, 3499);
    assert_eq!(page.date.to_text(), "2020-10-02");
    assert_eq!(page.img_url, "/a.png");
}

#[test]
fn missing_title_fails_with_the_page() {
    let body = document("Freefall by Mark Stanley", &["/fc01234.png"]);
    match read(&body) {
        Err(Error::Title { body: carried }) => assert_eq!(carried, body),
        other => panic!("{:?}", other),
    }
    match read("") {
        Err(error) => assert_eq!(error.kind(), ErrorKind::Parse),
        other => panic!("{:?}", other),
    }
}

#[test]
fn title_with_an_unknown_month_fails() {
    match read(&document("Freefall 12 jan 5, 2020", &["/a.png"])) {
        Err(Error::Month { month }) => assert_eq!(month, "jan"),
        other => panic!("{:?}", other),
    }
    match read(&document("Freefall 12 Ju 5, 2020", &["/a.png"])) {
        Err(Error::Month { month }) => assert_eq!(month, "Ju"),
        other => panic!("{:?}", other),
    }
}

#[test]
fn title_with_a_number_out_of_range_fails() {
    match read(&document("Freefall 99999999999 Jan 5, 2020", &["/a.png"])) {
        Err(Error::Number { text }) => assert_eq!(text, "99999999999"),
        other => panic!("{:?}", other),
    }
}

#[test]
fn title_with_a_day_that_is_none_fails() {
    match read(&document("Freefall 12 Feb 30, 2020", &["/a.png"])) {
        Err(Error::Date { year, month, day }) => assert_eq!((year, month, day), (2020, 2, 30)),
        other => panic!("{:?}", other),
    }
}

#[test]
fn page_without_image_fails() {
    match read(&document("Freefall 1234 Jan 5, 2020", &[])) {
        Err(Error::MissingImage) => {},
        other => panic!("{:?}", other),
    }
    let error = read(&document("Freefall 1234 Jan 5, 2020", &[])).unwrap_err();
    assert_eq!(error.kind(), ErrorKind::MissingImage);
}

#[test]
fn second_image_is_the_extra_image() {
    let page = read(&document("Freefall 1 Jan 5, 2020", &["/ff100/fv00001.gif", "/extra/a.png"]))
        .unwrap();
    assert_eq!(page.img_url, "/ff100/fv00001.gif");
    assert_eq!(page.extra_url, Some("/extra/a.png".to_string()));
}

#[test]
fn navigation_images_are_no_extra_image() {
    let page = read(&document(
        "Freefall 1 Jan 5, 2020",
        &["/fc00001.png", "/linkpages/prev.gif", "/linkpages/next.gif"],
    ))
    .unwrap();
    assert_eq!(page.img_url, "/fc00001.png");
    assert_eq!(page.extra_url, None);
}

#[test]
fn extra_image_is_the_first_that_is_no_navigation_image() {
    let page = read(&document(
        "Freefall 1 Jan 5, 2020",
        &["/fc00001.png", "/linkpages/prev.gif", "/b.png", "/c.png"],
    ))
    .unwrap();
    assert_eq!(page.extra_url, Some("/b.png".to_string()));
}

#[test]
fn navigation_image_may_be_the_first_image() {
    let page = read(&document("Freefall 1 Jan 5, 2020", &["/linkpages/prev.gif", "/b.png"]))
        .unwrap();
    assert_eq!(page.img_url, "/linkpages/prev.gif");
    assert_eq!(page.extra_url, Some("/b.png".to_string()));
}

#[test]
fn what_is_skipped_can_be_chosen() {
    let body = document("Freefall 1 Jan 5, 2020", &["/a.png", "/nav/b.png", "/linkpages/c.png"]);
    let page = Page::new(&body, "/nav/").unwrap();
    assert_eq!(page.extra_url, Some("/linkpages/c.png".to_string()));
    let page = Page::new(&body, "").unwrap();
    assert_eq!(page.extra_url, None);
    let page = Page::new(&body, "/none/").unwrap();
    assert_eq!(page.extra_url, Some("/nav/b.png".to_string()));
}

#[test]
fn image_paths_have_one_dot() {
    let page = read(&document("Freefall 1 Jan 5, 2020", &["/nodot", "/a.b.png", "/c.png"]))
        .unwrap();
    assert_eq!(page.img_url, "/c.png");
}

#[test]
fn patterns_are_regular_expressions() {
    assert!(regex::Regex::new(TITLE_PATTERN).is_ok());
    assert!(regex::Regex::new(IMAGE_PATTERN).is_ok());
    assert_eq!(regex::Regex::new(TITLE_PATTERN).unwrap().captures_len(), 5);
    assert_eq!(regex::Regex::new(IMAGE_PATTERN).unwrap().captures_len(), 2);
}

#[test]
fn from_matches_reads_the_groups() {
    let page = Page::from_matches(
        "body",
        Some(groups(&["whole", "1234", "Jan", "5", "2020"])),
        vec![groups(&["whole", "/a.png"]), groups(&["whole", "/b.png"])],
        NAVIGATION_FRAGMENT,
    )
    .unwrap();
    assert_eq!(page.num, 1234);
    assert_eq!(page.date.to_text(), "2020-01-05");
    assert_eq!(page.img_url, "/a.png");
    assert_eq!(page.extra_url, Some("/b.png".to_string()));
}

#[test]
fn from_matches_fails_in_order() {
    let title = || Some(groups(&["whole", "x", "Foo", "5", "2020"]));
    match Page::from_matches("body", None, Vec::new(), "") {
        Err(Error::Title { body }) => assert_eq!(body, "body"),
        other => panic!("{:?}", other),
    }
    match Page::from_matches("body", Some(groups(&["whole", "1", "Jan", "5"])), Vec::new(), "") {
        Err(Error::Title { body }) => assert_eq!(body, "body"),
        other => panic!("{:?}", other),
    }
    let with_gap = vec![Some("w".to_string()), Some("1".to_string()), None];
    assert!(matches!(
        Page::from_matches("body", Some(with_gap), Vec::new(), ""),
        Err(Error::Title { .. })
    ));
    assert!(matches!(
        Page::from_matches("body", title(), Vec::new(), ""),
        Err(Error::Month { .. })
    ));
    assert!(matches!(
        Page::from_matches("b", Some(groups(&["w", "x", "Jan", "5", "2020"])), Vec::new(), ""),
        Err(Error::Number { .. })
    ));
    assert!(matches!(
        Page::from_matches("b", Some(groups(&["w", "1", "Jan", "5", "2020"])), Vec::new(), ""),
        Err(Error::MissingImage)
    ));
}

#[test]
fn from_matches_passes_over_matches_without_a_path() {
    let page = Page::from_matches(
        "body",
        Some(groups(&["whole", "1", "Jan", "5", "2020"])),
        vec![vec![Some("whole".to_string()), None], vec![], groups(&["whole", "/a.png"])],
        "",
    )
    .unwrap();
    assert_eq!(page.img_url, "/a.png");
    assert_eq!(page.extra_url, None);
}

#[test]
fn image_is_had_from_the_site() {
    let page = read(&document("Freefall 3499 Oct 2, 2020", &["/ff3500/fc03499.png"])).unwrap();
    assert_eq!(
        page.get_img(false, ORIGIN).unwrap(),
        "http://freefall.purrsia.com/ff3500/fc03499.png"
    );
    assert_eq!(page.image_path(false).unwrap(), "/ff3500/fc03499.png");
}

#[test]
fn image_path_replaces_the_path_of_the_origin() {
    let page = read(&document("Freefall 1 Jan 5, 2020", &["fc 1.png", "/x/y.png"])).unwrap();
    assert_eq!(
        page.get_img(false, "http://example.com/some/page?q=1").unwrap(),
        "http://example.com/fc%201.png?q=1"
    );
    assert_eq!(page.get_img(true, "http://example.com").unwrap(), "http://example.com/x/y.png");
}

#[test]
fn extra_image_that_is_missing_fails() {
    let page = read(&document("Freefall 1 Jan 5, 2020", &["/a.png"])).unwrap();
    assert!(matches!(page.get_img(true, ORIGIN), Err(Error::MissingExtraImage)));
    assert!(matches!(page.image_path(true), Err(Error::MissingExtraImage)));
    assert_eq!(page.get_img(true, ORIGIN).unwrap_err().kind(), ErrorKind::MissingExtraImage);
}

#[test]
fn origin_that_is_no_address_fails() {
    let page = read(&document("Freefall 1 Jan 5, 2020", &["/a.png"])).unwrap();
    match page.get_img(false, "no address") {
        Err(Error::Location { path }) => assert_eq!(path, "/a.png"),
        other => panic!("{:?}", other),
    }
    let long = "h".repeat(70_000);
    assert!(matches!(page.get_img(false, &long), Err(Error::Location { .. })));
}

#[test]
fn located_takes_the_address_that_was_made() {
    assert_eq!(
        Page::located("/a.png".to_string(), Some("http://x/a.png".to_string())).unwrap(),
        "http://x/a.png"
    );
    match Page::located("/a.png".to_string(), None) {
        Err(Error::Location { path }) => assert_eq!(path, "/a.png"),
        other => panic!("{:?}", other),
    }
}

#[test]
fn page_is_shown_on_one_line() {
    let page = read(&document("Freefall 3499 Oct 2, 2020", &["/ff3500/fc03499.png"])).unwrap();
    assert_eq!(page.to_text(), "#3499 2020-10-02 - /ff3500/fc03499.png (None)");
    let page = read(&document("Freefall 1 Jan 5, 2020", &["/a.png", "/b\\c.png"])).unwrap();
    assert_eq!(page.to_text(), "#1 2020-01-05 - /a.png (Some(\"/b\\\\c.png\"))");
    assert_eq!(
        page.to_text(),
        format!("#{} {} - {} ({:?})", page.num, page.date.to_text(), page.img_url, page.extra_url)
    );
}

#[test]
fn title_with_its_month_written_out_fails() {
    for month in ["January", "Janx", "JAN", "jan"] {
        let body = document(&format!("Freefall 1234 {} 5, 2020", month), &["/fc01234.png"]);
        match read(&body) {
            Err(Error::Month { month: named }) => assert_eq!(named, month),
            other => panic!("{:?}", other),
        }
    }
}
