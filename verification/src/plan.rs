//! The fixed rules of a run: how the feed is wrapped, which bin a strip
//! belongs to, where a strip's page is, and what the files are called.

use crate::error::{result_view, Error, ErrorView};
use crate::freefall::{Page, PageView, NAVIGATION_FRAGMENT};
use crate::text::{
    chars_of, decimal_text, ends_with, padded_decimal, push_decimal, push_padded, slice_of,
    starts_with, string_of,
};
use vstd::prelude::*;

verus! {

/// How many strips a bin holds.
pub const BIN_SIZE: usize = 100;

/// What the feed begins with, before its JSON.
pub const FEED_PREFIX: &'static str = "FreefallData(";

/// What the feed ends with, after its JSON.
pub const FEED_SUFFIX: &'static str = ")";

/// What the path of a PNG image ends with.
pub const PNG_SUFFIX: &'static str = ".png";

/// The site's origin.
pub const SITE_ORIGIN: &'static str = "http://freefall.purrsia.com";

/// Where the site's feed is.
pub const FEED_URL: &'static str = "http://freefall.purrsia.com/fabsdata.js";

/// Where the page of the newest strip is.
pub const LATEST_PAGE_URL: &'static str = "http://freefall.purrsia.com/default.htm";

/// What a run is told about the site.
#[derive(Debug)]
pub struct Config {
    /// The site's origin, without a `/` at its end.
    pub origin: String,
    /// Where the feed is.
    pub feed_url: String,
    /// Where the page of the newest strip is.
    pub latest_page_url: String,
    /// What the paths of the images that lead to other pages have in
    /// common.
    pub navigation: String,
}

/// A [`Config`] with its texts as sequences of characters.
pub struct ConfigView {
    pub origin: Seq<char>,
    pub feed_url: Seq<char>,
    pub latest_page_url: Seq<char>,
    pub navigation: Seq<char>,
}

impl View for Config {
    type V = ConfigView;

    open spec fn view(&self) -> ConfigView {
        ConfigView {
            origin: self.origin@,
            feed_url: self.feed_url@,
            latest_page_url: self.latest_page_url@,
            navigation: self.navigation@,
        }
    }
}

impl Default for Config {
    /// The site as it is.
    fn default() -> (config: Config)
        ensures
            config@ == (ConfigView {
                origin: SITE_ORIGIN@,
                feed_url: FEED_URL@,
                latest_page_url: LATEST_PAGE_URL@,
                navigation: NAVIGATION_FRAGMENT@,
            }),
    {
        Config {
            origin: SITE_ORIGIN.to_owned(),
            feed_url: FEED_URL.to_owned(),
            latest_page_url: LATEST_PAGE_URL.to_owned(),
            navigation: NAVIGATION_FRAGMENT.to_owned(),
        }
    }
}

impl Config {
    /// A copy of this configuration.
    pub fn copy(&self) -> (config: Config)
        ensures
            config@ == self@,
    {
        Config {
            origin: self.origin.clone(),
            feed_url: self.feed_url.clone(),
            latest_page_url: self.latest_page_url.clone(),
            navigation: self.navigation.clone(),
        }
    }
}

/// The JSON inside the feed `body`: what stands between the feed's opening
/// and its closing. A feed without the opening fails first, then one
/// without the closing after it.
pub open spec fn unwrapped_feed(body: Seq<char>) -> Result<Seq<char>, ErrorView> {
    if !FEED_PREFIX@.is_prefix_of(body) {
        Err(ErrorView::FeedPrefix)
    } else {
        let rest = body.subrange(FEED_PREFIX@.len() as int, body.len() as int);
        if !FEED_SUFFIX@.is_suffix_of(rest) {
            Err(ErrorView::FeedSuffix)
        } else {
            Ok(rest.subrange(0, rest.len() - FEED_SUFFIX@.len()))
        }
    }
}

/// A feed that is unwrapped is its opening, the JSON and its closing, in
/// that order.
pub proof fn lemma_unwrapped_feed_wraps(body: Seq<char>)
    ensures
        unwrapped_feed(body) matches Ok(json) ==> body == FEED_PREFIX@ + json + FEED_SUFFIX@,
{
    if unwrapped_feed(body) is Ok {
        let json = unwrapped_feed(body)->Ok_0;
        assert(body =~= FEED_PREFIX@ + json + FEED_SUFFIX@);
    }
}

/// What is wrapped as a feed unwraps to itself.
pub proof fn lemma_wrapped_feed_unwraps(json: Seq<char>)
    ensures
        unwrapped_feed(FEED_PREFIX@ + json + FEED_SUFFIX@) == Ok::<Seq<char>, ErrorView>(json),
{
    let body = FEED_PREFIX@ + json + FEED_SUFFIX@;
    assert(body.subrange(0, FEED_PREFIX@.len() as int) =~= FEED_PREFIX@);
    let rest = body.subrange(FEED_PREFIX@.len() as int, body.len() as int);
    assert(rest =~= json + FEED_SUFFIX@);
    assert(rest.subrange(rest.len() - FEED_SUFFIX@.len(), rest.len() as int) =~= FEED_SUFFIX@);
    assert(rest.subrange(0, rest.len() - FEED_SUFFIX@.len()) =~= json);
}

/// The JSON inside the feed `body`.
pub fn unwrap_feed(body: &str) -> (json: Result<String, Error>)
    ensures
        result_view(json) == unwrapped_feed(body@),
{
    let chars = chars_of(body);
    let prefix = chars_of(FEED_PREFIX);
    let suffix = chars_of(FEED_SUFFIX);
    if !starts_with(&chars, &prefix) {
        return Err(Error::FeedPrefix);
    }
    let rest = slice_of(&chars, prefix.len(), chars.len());
    if !ends_with(&rest, &suffix) {
        return Err(Error::FeedSuffix);
    }
    let inner = slice_of(&rest, 0, rest.len() - suffix.len());
    Ok(string_of(&inner))
}

/// `n` divided by `d` with what is left over dropped, towards zero.
pub open spec fn quotient(n: int, d: int) -> int {
    if n >= 0 {
        n / d
    } else {
        -((-n) / d)
    }
}

/// The bin that strip `n` belongs to: a bin holds a hundred strips, and
/// bin 0 begins with strip 0.
pub open spec fn bin_of(n: int) -> int {
    quotient(n, BIN_SIZE as int)
}

/// Whether strip `n` is the last of its bin.
pub open spec fn is_last_of_bin(n: int) -> bool {
    n >= 0 && n % (BIN_SIZE as int) == BIN_SIZE - 1
}

/// The bin that strip `n` belongs to.
pub fn bin_index(n: i32) -> (index: i32)
    ensures
        index == bin_of(n as int),
        n >= 0 ==> index == n / 100,
{
    n / 100
}

/// Whether strip `n` is the last of its bin.
pub fn completes_bin(n: i32) -> (last: bool)
    ensures
        last == is_last_of_bin(n as int),
{
    n % 100 == 99
}

/// For the strips from 0 on, a strip's bin and its place in the bin give
/// the strip back, the place is below a hundred, and the last strip of a
/// bin is the one before the first strip of the next.
pub proof fn lemma_bin_of_strip(n: int)
    requires
        n >= 0,
    ensures
        bin_of(n) == n / 100,
        n == bin_of(n) * 100 + n % 100,
        0 <= n % 100 < 100,
        is_last_of_bin(n) <==> bin_of(n + 1) == bin_of(n) + 1,
        !is_last_of_bin(n) ==> bin_of(n + 1) == bin_of(n),
{
}

/// What the file of bin `index` is called.
pub open spec fn bin_file_name(index: int) -> Seq<char> {
    "dates_"@ + decimal_text(index) + ".json"@
}

/// What the file of bin `index` is called.
pub fn bin_file(index: i32) -> (name: String)
    ensures
        name@ == bin_file_name(index as int),
{
    let mut name = String::new();
    name.append("dates_");
    push_decimal(&mut name, index);
    name.append(".json");
    assert(name@ =~= bin_file_name(index as int));
    name
}

/// Where the page of strip `number` is on the site at `origin`: in the
/// directory of its hundred, counted from 1, under its number in five
/// digits.
pub open spec fn strip_page_url(origin: Seq<char>, number: int) -> Seq<char> {
    origin + "/ff"@ + padded_decimal(quotient(number - 1, 100) + 1, 2) + "00/fc"@ + padded_decimal(
        number,
        5,
    ) + ".htm"@
}

/// Where the page of strip `number` is, when `latest` is the newest strip:
/// the newest strip has a page of its own.
pub open spec fn page_url_of(config: ConfigView, number: int, latest: int) -> Seq<char> {
    if number == latest {
        config.latest_page_url
    } else {
        strip_page_url(config.origin, number)
    }
}

/// Where the page of strip `number` is, when `latest` is the newest strip.
pub fn page_url(config: &Config, number: i32, latest: i32) -> (url: String)
    ensures
        url@ == page_url_of(config@, number as int, latest as int),
{
    if number == latest {
        return config.latest_page_url.clone();
    }
    let hundred: i32 = ((number as i64 - 1) / 100 + 1) as i32;
    let mut url = String::new();
    url.append(config.origin.as_str());
    url.append("/ff");
    push_padded(&mut url, hundred, 2);
    url.append("00/fc");
    push_padded(&mut url, number, 5);
    url.append(".htm");
    assert(url@ =~= strip_page_url(config.origin@, number as int));
    url
}

/// Under which name the image of a page is kept: the strip's number and
/// the ending of a PNG. An image that is no PNG is kept under no name.
pub open spec fn image_file_of(page: PageView) -> Result<Seq<char>, ErrorView> {
    if PNG_SUFFIX@.is_suffix_of(page.img_url) {
        Ok(decimal_text(page.num) + PNG_SUFFIX@)
    } else {
        Err(ErrorView::UnsupportedFormat { path: page.img_url })
    }
}

/// Under which name the image of `page` is to be saved.
pub fn save_page_img(page: &Page) -> (file: Result<String, Error>)
    ensures
        result_view(file) == image_file_of(page@),
{
    let path = chars_of(page.img_url.as_str());
    let suffix = chars_of(PNG_SUFFIX);
    if !ends_with(&path, &suffix) {
        return Err(Error::UnsupportedFormat { path: page.img_url.clone() });
    }
    let mut file = String::new();
    push_decimal(&mut file, page.num);
    file.append(PNG_SUFFIX);
    Ok(file)
}

/// The dates of the strips of one bin, in the order of the strips: each is
/// a date as it is written, or nothing where a strip's date is not known.
/// A bin holds a hundred dates at most.
#[derive(Debug)]
pub struct DateBin {
    entries: Vec<Option<String>>,
}

impl View for DateBin {
    type V = Seq<Option<Seq<char>>>;

    closed spec fn view(&self) -> Seq<Option<Seq<char>>> {
        self.entries.deep_view()
    }
}

impl DateBin {
    #[verifier::type_invariant]
    spec fn fits(self) -> bool {
        self.entries.len() <= BIN_SIZE
    }

    /// A bin without dates.
    pub fn new() -> (bin: DateBin)
        ensures
            bin@.len() == 0,
    {
        let bin = DateBin { entries: Vec::new() };
        assert(bin.entries.deep_view() =~= Seq::<Option<Seq<char>>>::empty());
        bin
    }

    /// The bin in progress that holds `entries`. A bin in progress is not
    /// full: there is none of a hundred dates or more.
    pub fn from_entries(entries: Vec<Option<String>>) -> (bin: Option<DateBin>)
        ensures
            bin.is_some() == (entries.deep_view().len() < BIN_SIZE),
            bin matches Some(b) ==> b@ == entries.deep_view(),
    {
        if entries.len() < BIN_SIZE {
            Some(DateBin { entries })
        } else {
            None
        }
    }

    /// How many dates the bin holds.
    pub fn len(&self) -> (len: usize)
        ensures
            len == self@.len(),
            len <= BIN_SIZE,
    {
        proof {
            use_type_invariant(self);
        }
        self.entries.len()
    }

    /// Whether the bin holds no date.
    pub fn is_empty(&self) -> (empty: bool)
        ensures
            empty == (self@.len() == 0),
    {
        self.entries.len() == 0
    }

    /// Whether the bin holds its hundred dates.
    pub fn is_full(&self) -> (full: bool)
        ensures
            full == (self@.len() == BIN_SIZE),
            self@.len() <= BIN_SIZE,
    {
        proof {
            use_type_invariant(self);
        }
        self.entries.len() == BIN_SIZE
    }

    /// The bin with `date` after its dates.
    pub fn append(self, date: Option<String>) -> (bin: DateBin)
        requires
            self@.len() < BIN_SIZE,
        ensures
            bin@ == self@.push(date.deep_view()),
    {
        let mut entries = self.entries;
        entries.push(date);
        let bin = DateBin { entries };
        assert(bin.entries.deep_view() =~= self.entries.deep_view().push(date.deep_view()));
        bin
    }

    /// The dates of the bin, as they are written to its file.
    pub fn entries(&self) -> (entries: &Vec<Option<String>>)
        ensures
            entries.deep_view() == self@,
    {
        &self.entries
    }
}

} // verus!
