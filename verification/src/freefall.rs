//! A strip's page: what its title and its images say, and where its image
//! is to be had.

use crate::data::{
    date_text, is_calendar_date, lemma_month_number_unique, names_month, title_date, ReaderDate,
    Ymd,
};
use crate::error::{result_view, Error, ErrorView};
use crate::text::{
    bounded_decimal, chars_of, contains, contains_text, decimal_text, decimal_value, is_digit,
    parse_i32, parse_i32_spec, parse_u32_spec, push_decimal,
};
use vstd::prelude::*;
use vstd::utf8::encode_utf8;

verus! {

/// The pattern of a page's title: the comic's name, the strip's number, the
/// month's name, the day, a comma and the year, whatever the case of the
/// letters and however much space lies between.
pub const TITLE_PATTERN: &'static str =
    r"(?ix)<title>\s*Freefall\s+([0-9]+)\s+([a-z]+)\s+([0-9]+),\s+([0-9]+)\s*</title>";

/// The pattern of an image in a page: its path, with one dot in it.
pub const IMAGE_PATTERN: &'static str = r#"(?ix)<img\s+src="([^.]+\.[^".]+)""#;

/// What the paths of the images that lead to other pages have in common.
pub const NAVIGATION_FRAGMENT: &'static str = "/linkpages/";

/// The longest origin, in bytes, that an address is made of.
pub const MAX_ORIGIN_BYTES: usize = 0x1_0000;

/// The longest path, in bytes, that an address is made of.
pub const MAX_PATH_BYTES: usize = 0x1000_0000;

/// The groups of one match of a pattern: group 0 is the whole match, the
/// others are the pattern's groups in the order in which they open. A group
/// that took no part in the match is `None`.
pub type Groups = Seq<Option<Seq<char>>>;

/// The groups of the first match of the regular expression `pattern` in
/// `text`, as the regex crate finds it; `None` where there is no match or
/// `pattern` is no regular expression.
pub uninterp spec fn regex_first_match(pattern: Seq<char>, text: Seq<char>) -> Option<Groups>;

/// The groups of each match of the regular expression `pattern` in `text`,
/// one after the other without overlap, as the regex crate finds them; none
/// where `pattern` is no regular expression.
pub uninterp spec fn regex_all_matches(pattern: Seq<char>, text: Seq<char>) -> Seq<Groups>;

/// The address that the url crate makes of the address `origin` with its
/// path replaced by `path`; `None` where `origin` is no address.
pub uninterp spec fn resolved_url(origin: Seq<char>, path: Seq<char>) -> Option<Seq<char>>;

/// `regex::Regex::captures`, on the expression that `regex::Regex::new`
/// makes of `pattern`: each group of the first match as a text of its own.
#[verifier::external_body]
fn first_match(pattern: &str, text: &str) -> (found: Option<Vec<Option<String>>>)
    ensures
        found.deep_view() == regex_first_match(pattern@, text@),
{
    let re = regex::Regex::new(pattern).ok()?;
    let groups = re.captures(text)?;
    Some(groups.iter().map(|g| g.map(|m| m.as_str().to_string())).collect())
}

/// `regex::Regex::captures_iter`, on the expression that `regex::Regex::new`
/// makes of `pattern`: each group of each match as a text of its own.
#[verifier::external_body]
fn all_matches(pattern: &str, text: &str) -> (found: Vec<Vec<Option<String>>>)
    ensures
        found.deep_view() == regex_all_matches(pattern@, text@),
{
    match regex::Regex::new(pattern) {
        Ok(re) => re.captures_iter(text).map(
            |groups| groups.iter().map(|g| g.map(|m| m.as_str().to_string())).collect(),
        ).collect(),
        Err(_) => Vec::new(),
    }
}

/// `url::Url::set_path`, on the address that `url::Url::parse` makes of
/// `origin`, written out as text. The lengths are bounded because the url
/// crate counts an address's bytes in 32 bits.
#[verifier::external_body]
fn resolve(origin: &str, path: &str) -> (address: Option<String>)
    requires
        encode_utf8(origin@).len() <= MAX_ORIGIN_BYTES,
        encode_utf8(path@).len() <= MAX_PATH_BYTES,
    ensures
        address.deep_view() == resolved_url(origin@, path@),
{
    let mut url = url::Url::parse(origin).ok()?;
    url.set_path(path);
    Some(String::from(url))
}

/// How the standard library shows `value` to one who debugs.
pub uninterp spec fn debug_text(value: Option<Seq<char>>) -> Seq<char>;

/// The `Debug` form of an `Option<String>` of the standard library, as
/// `format!` writes it for `{:?}`: the word `None` where there is no text,
/// else the text between quotes and brackets with its characters escaped.
#[verifier::external_body]
fn shown(value: &Option<String>) -> (text: String)
    ensures
        text@ == debug_text(value.deep_view()),
        value is None ==> text@ == "None"@,
{
    format!("{:?}", value)
}

/// Group `index` of a match, if it took part.
pub open spec fn group(groups: Groups, index: int) -> Option<Seq<char>> {
    if 0 <= index < groups.len() {
        groups[index]
    } else {
        None
    }
}

/// The four runs of characters of a title.
pub struct TitleFields {
    pub number: Seq<char>,
    pub month: Seq<char>,
    pub day: Seq<char>,
    pub year: Seq<char>,
}

/// The runs of characters of a title's match: the number, the month, the
/// day and the year are its groups 1 to 4.
pub open spec fn title_fields(found: Option<Groups>) -> Option<TitleFields> {
    match found {
        Some(groups) => match (
            group(groups, 1),
            group(groups, 2),
            group(groups, 3),
            group(groups, 4),
        ) {
            (Some(number), Some(month), Some(day), Some(year)) => Some(
                TitleFields { number, month, day, year },
            ),
            _ => None,
        },
        None => None,
    }
}

/// The paths of the images that were matched, in their order: group 1 of
/// each match that has one.
pub open spec fn image_paths(matches: Seq<Groups>) -> Seq<Seq<char>>
    decreases matches.len(),
{
    if matches.len() == 0 {
        Seq::<Seq<char>>::empty()
    } else {
        let before = image_paths(matches.drop_last());
        match group(matches.last(), 1) {
            Some(path) => before.push(path),
            None => before,
        }
    }
}

/// The first of `paths` from position `from` on that does not hold `skip`.
pub open spec fn first_without(paths: Seq<Seq<char>>, skip: Seq<char>, from: int) -> Option<
    Seq<char>,
>
    decreases paths.len() - from,
{
    if from < 0 || from >= paths.len() {
        None
    } else if !contains_text(paths[from], skip) {
        Some(paths[from])
    } else {
        first_without(paths, skip, from + 1)
    }
}

/// The second image of a page: the first of its images after the first one
/// whose path does not hold `skip`.
pub open spec fn extra_image(paths: Seq<Seq<char>>, skip: Seq<char>) -> Option<Seq<char>> {
    first_without(paths, skip, 1)
}

/// A page with its texts as sequences of characters.
pub struct PageView {
    pub num: int,
    pub date: Ymd,
    pub img_url: Seq<char>,
    pub extra_url: Option<Seq<char>>,
}

/// What a page says, given the match of its title and the matches of its
/// images, or why it says nothing.
///
/// A page without a title of the expected shape fails first, then one
/// whose title gives no date, then one whose number is out of range, then
/// one without an image.
pub open spec fn page_of(
    body: Seq<char>,
    title: Option<Groups>,
    images: Seq<Groups>,
    skip: Seq<char>,
) -> Result<PageView, ErrorView> {
    match title_fields(title) {
        None => Err(ErrorView::Title { body }),
        Some(fields) => match title_date(fields.year, fields.month, fields.day) {
            Err(error) => Err(error),
            Ok(date) => match parse_i32_spec(fields.number) {
                None => Err(ErrorView::Number { text: fields.number }),
                Some(num) => {
                    let paths = image_paths(images);
                    if paths.len() == 0 {
                        Err(ErrorView::MissingImage)
                    } else {
                        Ok(
                            PageView {
                                num: num as int,
                                date,
                                img_url: paths[0],
                                extra_url: extra_image(paths, skip),
                            },
                        )
                    }
                },
            },
        },
    }
}

/// A page on one line: its number after `#`, its date, the path of its
/// image after a dash, and the path of its second image in brackets as it
/// is shown to one who debugs.
pub open spec fn page_text(page: PageView) -> Seq<char> {
    seq!['#'] + decimal_text(page.num) + seq![' '] + date_text(page.date) + " - "@ + page.img_url
        + " ("@ + debug_text(page.extra_url) + seq![')']
}

/// The path of the image that is asked for: the second image if `extra`,
/// else the first.
pub open spec fn chosen_path(page: PageView, extra: bool) -> Option<Seq<char>> {
    if extra {
        page.extra_url
    } else {
        Some(page.img_url)
    }
}

/// Whether an address can be made of `origin` and `path` at their lengths.
pub open spec fn fits_address(origin: Seq<char>, path: Seq<char>) -> bool {
    encode_utf8(origin).len() <= MAX_ORIGIN_BYTES && encode_utf8(path).len() <= MAX_PATH_BYTES
}

/// Where the image at `path` is to be had, given the address that was made
/// of the origin and the path.
pub open spec fn location_of(path: Seq<char>, address: Option<Seq<char>>) -> Result<
    Seq<char>,
    ErrorView,
> {
    match address {
        Some(address) => Ok(address),
        None => Err(ErrorView::Location { path }),
    }
}

/// Where an image of `page` is to be had from the site at `origin`.
pub open spec fn image_location(page: PageView, extra: bool, origin: Seq<char>) -> Result<
    Seq<char>,
    ErrorView,
> {
    match chosen_path(page, extra) {
        None => Err(ErrorView::MissingExtraImage),
        Some(path) => if fits_address(origin, path) {
            location_of(path, resolved_url(origin, path))
        } else {
            Err(ErrorView::Location { path })
        },
    }
}

/// A title whose groups are a number, the name of a month, a day and a year
/// gives the page that number and that date: where the number and the year
/// are digits that write a number of 32 bits, the day is digits that write
/// a day of the month, and the page shows an image, the page is read, its
/// number is the number that the digits write, its date is the day that
/// year, month and day name, and its image is the first image.
pub proof fn lemma_title_gives_number_and_date(
    body: Seq<char>,
    title: Groups,
    images: Seq<Groups>,
    skip: Seq<char>,
    month: int,
)
    requires
        title.len() >= 5,
        title[1] matches Some(number) && bounded_decimal(number, i32::MAX as nat) is Some,
        title[2] matches Some(token) && names_month(token, month),
        title[3] matches Some(day) && bounded_decimal(day, u32::MAX as nat) is Some,
        title[4] matches Some(year) && bounded_decimal(year, i32::MAX as nat) is Some,
        is_calendar_date(
            decimal_value(title[4]->0) as int,
            month,
            decimal_value(title[3]->0) as int,
        ),
        image_paths(images).len() > 0,
    ensures
        page_of(body, Some(title), images, skip) == Ok::<PageView, ErrorView>(
            PageView {
                num: decimal_value(title[1]->0) as int,
                date: Ymd {
                    year: decimal_value(title[4]->0) as int,
                    month,
                    day: decimal_value(title[3]->0) as int,
                },
                img_url: image_paths(images)[0],
                extra_url: extra_image(image_paths(images), skip),
            },
        ),
{
    let number = title[1]->0;
    let token = title[2]->0;
    let day = title[3]->0;
    let year = title[4]->0;
    assert(is_digit(number[0]) && is_digit(day[0]) && is_digit(year[0]));
    lemma_month_number_unique(token, month);
    assert(parse_i32_spec(number) == Some(decimal_value(number) as i32));
    assert(parse_i32_spec(year) == Some(decimal_value(year) as i32));
    assert(parse_u32_spec(day) == Some(decimal_value(day) as u32));
}

/// With two images or more of which the second does not lead to another
/// page, the first image is the page's image and the second is its second
/// image.
pub proof fn lemma_second_image_is_extra(paths: Seq<Seq<char>>, skip: Seq<char>)
    requires
        paths.len() >= 2,
        !contains_text(paths[1], skip),
    ensures
        extra_image(paths, skip) == Some(paths[1]),
{
}

/// Where every image after the first leads to another page, the page has no
/// second image.
pub proof fn lemma_only_navigation_after_first(paths: Seq<Seq<char>>, skip: Seq<char>)
    requires
        forall|k: int| 1 <= k < paths.len() ==> contains_text(#[trigger] paths[k], skip),
    ensures
        extra_image(paths, skip) is None,
{
    lemma_first_without_none(paths, skip, 1);
}

/// From `from` on nothing is found where every path holds `skip`.
proof fn lemma_first_without_none(paths: Seq<Seq<char>>, skip: Seq<char>, from: int)
    requires
        1 <= from,
        forall|k: int| 1 <= k < paths.len() ==> contains_text(#[trigger] paths[k], skip),
    ensures
        first_without(paths, skip, from) is None,
    decreases paths.len() - from,
{
    if from < paths.len() {
        lemma_first_without_none(paths, skip, from + 1);
    }
}

/// The second image is the image at the first position after the first
/// whose path does not hold `skip`, and there is none exactly where there
/// is no such position.
pub proof fn lemma_extra_image_is_first(paths: Seq<Seq<char>>, skip: Seq<char>, from: int)
    requires
        0 <= from,
    ensures
        match first_without(paths, skip, from) {
            Some(path) => exists|k: int|
                from <= k < paths.len() && #[trigger] paths[k] == path && !contains_text(
                    paths[k],
                    skip,
                ) && forall|j: int| from <= j < k ==> contains_text(#[trigger] paths[j], skip),
            None => forall|k: int|
                from <= k < paths.len() ==> contains_text(#[trigger] paths[k], skip),
        },
    decreases paths.len() - from,
{
    if from < paths.len() {
        if !contains_text(paths[from], skip) {
            assert(paths[from] == paths[from]);
        } else {
            lemma_extra_image_is_first(paths, skip, from + 1);
            match first_without(paths, skip, from + 1) {
                Some(path) => {
                    let k = choose|k: int|
                        from + 1 <= k < paths.len() && #[trigger] paths[k] == path
                            && !contains_text(paths[k], skip) && forall|j: int|
                            from + 1 <= j < k ==> contains_text(#[trigger] paths[j], skip);
                    assert(from <= k < paths.len() && paths[k] == path && !contains_text(
                        paths[k],
                        skip,
                    ) && forall|j: int| from <= j < k ==> contains_text(#[trigger] paths[j], skip));
                },
                None => {},
            }
        }
    }
}

/// A strip's page: the strip's number, the day on which it came out, the
/// path of its image, and the path of its second image if it has one.
#[derive(Debug)]
pub struct Page {
    pub num: i32,
    pub date: ReaderDate,
    pub img_url: String,
    pub extra_url: Option<String>,
}

impl View for Page {
    type V = PageView;

    open spec fn view(&self) -> PageView {
        PageView {
            num: self.num as int,
            date: self.date@,
            img_url: self.img_url@,
            extra_url: self.extra_url.deep_view(),
        }
    }
}

/// Group `index` of a match, if it took part.
fn group_of(groups: &Vec<Option<String>>, index: usize) -> (text: Option<String>)
    ensures
        text.deep_view() == group(groups.deep_view(), index as int),
{
    if index < groups.len() {
        match &groups[index] {
            Some(text) => Some(text.clone()),
            None => None,
        }
    } else {
        None
    }
}

/// The paths of the images that were matched.
fn paths_of(matches: &Vec<Vec<Option<String>>>) -> (paths: Vec<String>)
    ensures
        paths.deep_view() == image_paths(matches.deep_view()),
{
    let mut paths: Vec<String> = Vec::new();
    let mut k: usize = 0;
    assert(matches.deep_view().take(0) =~= Seq::<Groups>::empty());
    while k < matches.len()
        invariant
            k <= matches.len(),
            paths.deep_view() == image_paths(matches.deep_view().take(k as int)),
        decreases matches.len() - k,
    {
        let found = group_of(&matches[k], 1);
        proof {
            let longer = matches.deep_view().take(k + 1);
            assert(longer.drop_last() =~= matches.deep_view().take(k as int));
            assert(longer.last() == matches[k as int].deep_view());
        }
        match found {
            Some(path) => {
                let ghost before = paths.deep_view();
                paths.push(path);
                assert(paths.deep_view() =~= before.push(path@));
            },
            None => {},
        }
        k += 1;
    }
    assert(matches.deep_view().take(matches.len() as int) =~= matches.deep_view());
    paths
}

/// The first of `paths` after the first one that does not hold `skip`.
fn extra_of(paths: &Vec<String>, skip: &str) -> (extra: Option<String>)
    ensures
        extra.deep_view() == extra_image(paths.deep_view(), skip@),
{
    let needle = chars_of(skip);
    let mut k: usize = 1;
    while k < paths.len()
        invariant
            1 <= k,
            needle@ == skip@,
            first_without(paths.deep_view(), skip@, k as int) == extra_image(
                paths.deep_view(),
                skip@,
            ),
        decreases paths.len() - k,
    {
        let hay = chars_of(paths[k].as_str());
        assert(paths.deep_view()[k as int] == paths[k as int]@);
        if !contains(&hay, &needle) {
            return Some(paths[k].clone());
        }
        k += 1;
    }
    None
}

impl Page {
    /// What the page `body` says. Images whose path holds `skip` are not
    /// taken for the page's second image.
    pub fn new(body: &str, skip: &str) -> (page: Result<Page, Error>)
        ensures
            result_view(page) == page_of(
                body@,
                regex_first_match(TITLE_PATTERN@, body@),
                regex_all_matches(IMAGE_PATTERN@, body@),
                skip@,
            ),
    {
        let title = first_match(TITLE_PATTERN, body);
        let images = all_matches(IMAGE_PATTERN, body);
        Page::from_matches(body, title, images, skip)
    }

    /// What the page `body` says, given the match of its title and the
    /// matches of its images.
    pub fn from_matches(
        body: &str,
        title: Option<Vec<Option<String>>>,
        images: Vec<Vec<Option<String>>>,
        skip: &str,
    ) -> (page: Result<Page, Error>)
        ensures
            result_view(page) == page_of(body@, title.deep_view(), images.deep_view(), skip@),
    {
        let groups = match title {
            Some(groups) => groups,
            None => {
                return Err(Error::Title { body: body.to_owned() });
            },
        };
        let (number, month, day, year) = match (
            group_of(&groups, 1),
            group_of(&groups, 2),
            group_of(&groups, 3),
            group_of(&groups, 4),
        ) {
            (Some(number), Some(month), Some(day), Some(year)) => (number, month, day, year),
            _ => {
                return Err(Error::Title { body: body.to_owned() });
            },
        };
        let date = match ReaderDate::from_title(year, month, day) {
            Ok(date) => date,
            Err(error) => {
                return Err(error);
            },
        };
        let num: i32 = match parse_i32(number.as_str()) {
            Some(num) => num,
            None => {
                return Err(Error::Number { text: number });
            },
        };
        let mut paths = paths_of(&images);
        if paths.len() == 0 {
            return Err(Error::MissingImage);
        }
        let extra_url = extra_of(&paths, skip);
        let img_url = paths.swap_remove(0);
        Ok(Page { num, date, img_url, extra_url })
    }

    /// The page on one line.
    pub fn to_text(&self) -> (text: String)
        ensures
            text@ == page_text(self@),
    {
        let mut text = String::new();
        text.push('#');
        push_decimal(&mut text, self.num);
        text.push(' ');
        text.append(self.date.to_text().as_str());
        text.append(" - ");
        text.append(self.img_url.as_str());
        text.append(" (");
        text.append(shown(&self.extra_url).as_str());
        text.push(')');
        assert(text@ =~= page_text(self@));
        text
    }

    /// The path of the image that is asked for: the page's second image if
    /// `extra`, else its image.
    pub fn image_path(&self, extra: bool) -> (path: Result<String, Error>)
        ensures
            result_view(path) == match chosen_path(self@, extra) {
                Some(p) => Ok::<Seq<char>, ErrorView>(p),
                None => Err(ErrorView::MissingExtraImage),
            },
    {
        if !extra {
            Ok(self.img_url.clone())
        } else {
            match &self.extra_url {
                Some(path) => Ok(path.clone()),
                None => Err(Error::MissingExtraImage),
            }
        }
    }

    /// Where the image that is asked for is to be had from the site at
    /// `origin`: the address of the image's path on that site.
    pub fn get_img(&self, extra: bool, origin: &str) -> (address: Result<String, Error>)
        ensures
            result_view(address) == image_location(self@, extra, origin@),
    {
        let path = match self.image_path(extra) {
            Ok(path) => path,
            Err(error) => {
                return Err(error);
            },
        };
        if origin.as_bytes().len() > MAX_ORIGIN_BYTES || path.as_str().as_bytes().len() > MAX_PATH_BYTES {
            return Err(Error::Location { path });
        }
        let address = resolve(origin, path.as_str());
        Page::located(path, address)
    }

    /// Where the image at `path` is to be had, given the address that was
    /// made of the site's origin and the path: that address, and a failure
    /// where none was made.
    pub fn located(path: String, address: Option<String>) -> (location: Result<String, Error>)
        ensures
            result_view(location) == location_of(path@, address.deep_view()),
    {
        match address {
            Some(address) => Ok(address),
            None => Err(Error::Location { path }),
        }
    }
}

} // verus!
