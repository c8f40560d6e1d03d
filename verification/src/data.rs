//! The records that are read and kept: the feed's entries, the local
//! record's entries, a strip's date, and the layout of the local record's
//! JSON.

use crate::error::{result_view, Error, ErrorKind, ErrorView};
use crate::text::{
    chars_of, is_digit, lemma_padded_decimal_fills, padded_decimal, parse_i32, parse_i32_spec,
    parse_u32, parse_u32_spec, push_padded,
};
use chrono::Datelike;
use vstd::prelude::*;

verus! {

/// One entry of the site's feed. Only `i`, the strip's number, is used.
#[derive(Debug, Clone)]
pub struct FreefallEntry {
    pub i: i32,
    pub h: Option<i32>,
    pub prefix: Option<String>,
    pub ext: Option<String>,
}

/// One entry of the local record. The last entry of the record says how
/// far the local copy has come: `i` is the newest strip that it holds, and
/// `checked` is when the site was last asked, in seconds since 1970.
#[derive(Debug, Clone)]
pub struct ReaderEntry {
    pub i: i32,
    pub single: Option<bool>,
    pub height: Option<i32>,
    pub width: Option<i32>,
    pub prefix: Option<String>,
    pub suffix: Option<String>,
    pub extra: Option<String>,
    pub extra_height: Option<i32>,
    pub extra_original: Option<String>,
    pub checked: Option<i64>,
}

impl Default for ReaderEntry {
    /// Strip 0, with nothing else known.
    fn default() -> (entry: ReaderEntry)
        ensures
            entry.i == 0,
            entry.single is None,
            entry.height is None,
            entry.width is None,
            entry.prefix is None,
            entry.suffix is None,
            entry.extra is None,
            entry.extra_height is None,
            entry.extra_original is None,
            entry.checked is None,
    {
        ReaderEntry {
            i: 0,
            single: None,
            height: None,
            width: None,
            prefix: None,
            suffix: None,
            extra: None,
            extra_height: None,
            extra_original: None,
            checked: None,
        }
    }
}

/// The number of the newest strip that the feed lists: that of its last
/// entry.
pub fn latest_strip(feed: &Vec<FreefallEntry>) -> (latest: Option<i32>)
    ensures
        latest == (if feed@.len() == 0 {
            None
        } else {
            Some(feed@.last().i)
        }),
{
    if feed.len() == 0 {
        None
    } else {
        Some(feed[feed.len() - 1].i)
    }
}

/// The number of the newest strip that the local copy holds: that of the
/// record's last entry.
pub fn last_known_strip(record: &Vec<ReaderEntry>) -> (last_known: Option<i32>)
    ensures
        last_known == (if record@.len() == 0 {
            None
        } else {
            Some(record@.last().i)
        }),
{
    if record.len() == 0 {
        None
    } else {
        Some(record[record.len() - 1].i)
    }
}

/// `record` with its last entry brought to strip `latest`, checked at `now`.
/// The earlier entries, and the other fields of the last one, stay.
pub open spec fn record_synced(record: Seq<ReaderEntry>, latest: i32, now: i64) -> Seq<
    ReaderEntry,
> {
    if record.len() == 0 {
        record
    } else {
        record.update(
            record.len() - 1,
            ReaderEntry { i: latest, checked: Some(now), ..record.last() },
        )
    }
}

/// Notes in the last entry of `record` that the local copy now holds strip
/// `latest` and that the site was asked at `now`. An empty record stays
/// empty.
pub fn mark_synced(record: &mut Vec<ReaderEntry>, latest: i32, now: i64)
    ensures
        final(record)@ == record_synced(old(record)@, latest, now),
{
    match record.pop() {
        Some(last) => {
            let mut last = last;
            last.i = latest;
            last.checked = Some(now);
            record.push(last);
            assert(record@ =~= record_synced(old(record)@, latest, now));
        },
        None => {},
    }
}

/// The first year that a date can have.
pub const MIN_YEAR: i32 = -262143;

/// The last year that a date can have.
pub const MAX_YEAR: i32 = 262142;

/// Whether `year` has a 29th of February.
pub open spec fn is_leap_year(year: int) -> bool {
    year % 4 == 0 && (year % 100 != 0 || year % 400 == 0)
}

/// How many days `month` has in `year`; 0 if there is no such month.
pub open spec fn days_in_month(year: int, month: int) -> int {
    if month == 2 {
        if is_leap_year(year) {
            29
        } else {
            28
        }
    } else if month == 4 || month == 6 || month == 9 || month == 11 {
        30
    } else if 1 <= month <= 12 {
        31
    } else {
        0
    }
}

/// Whether `year`, `month` and `day` name a day of the Gregorian calendar,
/// taken to run on before its introduction, in a year that a date can have.
pub open spec fn is_calendar_date(year: int, month: int, day: int) -> bool {
    MIN_YEAR <= year <= MAX_YEAR && 1 <= month <= 12 && 1 <= day <= days_in_month(year, month)
}

/// A calendar date of chrono. Nothing of what it holds is known here.
#[verifier::external_type_specification]
#[verifier::external_body]
pub struct ExNaiveDate(chrono::NaiveDate);

/// `chrono::NaiveDate::from_ymd_opt`: there is a date exactly where year,
/// month and day name a day of the calendar and the year is one that chrono
/// can hold.
pub assume_specification[ chrono::NaiveDate::from_ymd_opt ](
    year: i32,
    month: u32,
    day: u32,
) -> (date: Option<chrono::NaiveDate>)
    ensures
        date.is_some() == is_calendar_date(year as int, month as int, day as int),
;

/// The date that chrono reads from `text` under the pattern `format`, as
/// year, month and day; `None` where it reads none.
pub uninterp spec fn chrono_parsed_date(text: Seq<char>, format: Seq<char>) -> Option<
    (int, int, int),
>;

/// `chrono::NaiveDate::parse_from_str`, with the date that it gives taken
/// apart by `year`, `month` and `day` of `chrono::Datelike`. A date of
/// chrono is always a day of the calendar.
#[verifier::external_body]
fn parse_date(text: &str, format: &str) -> (parts: Option<(i32, u32, u32)>)
    ensures
        chrono_parsed_date(text@, format@) == match parts {
            Some(p) => Some((p.0 as int, p.1 as int, p.2 as int)),
            None => None,
        },
        parts matches Some(p) ==> is_calendar_date(p.0 as int, p.1 as int, p.2 as int),
{
    let date = chrono::NaiveDate::parse_from_str(text, format).ok()?;
    Some((date.year(), date.month(), date.day()))
}

/// The pattern of a date written as year, month and day with `-` between.
pub const ISO_DATE_FORMAT: &'static str = "%Y-%m-%d";

/// A date as three numbers.
pub struct Ymd {
    pub year: int,
    pub month: int,
    pub day: int,
}

/// The three-letter name of `month`, for the months 1 to 12.
pub open spec fn month_abbreviation(month: int) -> Seq<char> {
    if month == 1 {
        seq!['J', 'a', 'n']
    } else if month == 2 {
        seq!['F', 'e', 'b']
    } else if month == 3 {
        seq!['M', 'a', 'r']
    } else if month == 4 {
        seq!['A', 'p', 'r']
    } else if month == 5 {
        seq!['M', 'a', 'y']
    } else if month == 6 {
        seq!['J', 'u', 'n']
    } else if month == 7 {
        seq!['J', 'u', 'l']
    } else if month == 8 {
        seq!['A', 'u', 'g']
    } else if month == 9 {
        seq!['S', 'e', 'p']
    } else if month == 10 {
        seq!['O', 'c', 't']
    } else if month == 11 {
        seq!['N', 'o', 'v']
    } else {
        seq!['D', 'e', 'c']
    }
}

/// Whether `token` is the three-letter name of `month`, one of the months
/// 1 to 12: these letters and nothing more. Capitals and small letters
/// differ.
pub open spec fn names_month(token: Seq<char>, month: int) -> bool {
    1 <= month <= 12 && token == month_abbreviation(month)
}

/// The month that `token` names, if any.
pub open spec fn month_number(token: Seq<char>) -> Option<int> {
    if exists|month: int| names_month(token, month) {
        Some(choose|month: int| names_month(token, month))
    } else {
        None
    }
}

/// The names of two different months differ.
pub proof fn lemma_month_abbreviation_injective(a: int, b: int)
    requires
        1 <= a <= 12,
        1 <= b <= 12,
        month_abbreviation(a) == month_abbreviation(b),
    ensures
        a == b,
{
    let x = month_abbreviation(a);
    let y = month_abbreviation(b);
    assert(x[0] == y[0] && x[1] == y[1] && x[2] == y[2]);
}

/// A token names at most one month, and `month_number` is that month.
pub proof fn lemma_month_number_unique(token: Seq<char>, month: int)
    requires
        names_month(token, month),
    ensures
        month_number(token) == Some(month),
{
    let chosen = choose|m: int| names_month(token, m);
    lemma_month_abbreviation_injective(chosen, month);
}

/// The table of months is total and without repetition: each month from 1
/// to 12 is named by its own three letters and by no other month's, and a
/// token names a month only by being one of these twelve names. So a token
/// that is not of three letters names none.
pub proof fn lemma_month_table(token: Seq<char>, month: int)
    ensures
        1 <= month <= 12 ==> month_number(month_abbreviation(month)) == Some(month),
        month_number(token) == Some(month) <==> names_month(token, month),
        month_number(token) is None <==> forall|m: int|
            1 <= m <= 12 ==> token != #[trigger] month_abbreviation(m),
        token.len() != 3 ==> month_number(token) is None,
{
    if 1 <= month <= 12 {
        lemma_month_number_unique(month_abbreviation(month), month);
    }
    if month_number(token) is Some {
        let m = choose|m: int| names_month(token, m);
        assert(token == month_abbreviation(m));
        assert(token.len() == 3);
    } else {
        assert forall|m: int| 1 <= m <= 12 implies token != #[trigger] month_abbreviation(m) by {
            assert(!names_month(token, m));
        }
    }
    if names_month(token, month) {
        lemma_month_number_unique(token, month);
    }
}

/// What the three runs of characters of a title say: the date, or why they
/// name none. The month is looked at first, then the year, then the day.
pub open spec fn title_date(year: Seq<char>, month: Seq<char>, day: Seq<char>) -> Result<
    Ymd,
    ErrorView,
> {
    match month_number(month) {
        None => Err(ErrorView::Month { month }),
        Some(m) => match parse_i32_spec(year) {
            None => Err(ErrorView::Number { text: year }),
            Some(y) => match parse_u32_spec(day) {
                None => Err(ErrorView::Number { text: day }),
                Some(d) => if is_calendar_date(y as int, m, d as int) {
                    Ok(Ymd { year: y as int, month: m, day: d as int })
                } else {
                    Err(ErrorView::Date { year: y as int, month: m, day: d as int })
                },
            },
        },
    }
}

/// A title whose month is none of the twelve names gives no date: it fails
/// as something that does not have the expected shape, whatever its year
/// and its day. So does a month in other letters, a longer word that begins
/// with a name, and a shorter one.
pub proof fn lemma_unknown_month_fails(year: Seq<char>, month: Seq<char>, day: Seq<char>)
    requires
        month.len() != 3 || forall|m: int|
            1 <= m <= 12 ==> month != #[trigger] month_abbreviation(m),
    ensures
        title_date(year, month, day) == Err::<Ymd, ErrorView>(ErrorView::Month { month }),
        (ErrorView::Month { month }).kind() == ErrorKind::Parse,
{
    lemma_month_table(month, 0);
}

/// How a year is written: four digits from 0 to 9999, else a sign and four
/// digits or more.
pub open spec fn year_text(year: int) -> Seq<char> {
    if 0 <= year <= 9999 {
        padded_decimal(year, 4)
    } else if year < 0 {
        seq!['-'] + padded_decimal(-year, 4)
    } else {
        seq!['+'] + padded_decimal(year, 4)
    }
}

/// How a date is written: the year, the month in two digits and the day in
/// two digits, with `-` between.
pub open spec fn date_text(date: Ymd) -> Seq<char> {
    year_text(date.year) + seq!['-'] + padded_decimal(date.month, 2) + seq!['-'] + padded_decimal(
        date.day,
        2,
    )
}

/// A day of the years 0 to 9999 is written in ten characters: four digits,
/// `-`, two digits, `-`, two digits.
pub proof fn lemma_date_text_shape(date: Ymd)
    requires
        is_calendar_date(date.year, date.month, date.day),
        0 <= date.year <= 9999,
    ensures
        date_text(date).len() == 10,
        date_text(date)[4] == '-',
        date_text(date)[7] == '-',
        forall|i: int| 0 <= i < 10 && i != 4 && i != 7 ==> is_digit(#[trigger] date_text(date)[i]),
{
    let year = padded_decimal(date.year, 4);
    let month = padded_decimal(date.month, 2);
    let day = padded_decimal(date.day, 2);
    lemma_padded_decimal_fills(date.year, 4);
    lemma_padded_decimal_fills(date.month, 2);
    lemma_padded_decimal_fills(date.day, 2);
    let text = date_text(date);
    assert(text =~= year + seq!['-'] + month + seq!['-'] + day);
    assert forall|i: int| 0 <= i < 10 && i != 4 && i != 7 implies is_digit(#[trigger] text[i]) by {
        if i < 4 {
            assert(text[i] == year[i]);
        } else if i < 7 {
            assert(text[i] == month[i - 5]);
        } else {
            assert(text[i] == day[i - 8]);
        }
    }
}

/// The day on which a strip came out: a day of the calendar, without a time.
#[derive(Debug, Clone, Copy, PartialEq, Eq, Structural)]
pub struct ReaderDate {
    year: i32,
    month: u32,
    day: u32,
}

impl View for ReaderDate {
    type V = Ymd;

    closed spec fn view(&self) -> Ymd {
        Ymd { year: self.year as int, month: self.month as int, day: self.day as int }
    }
}

impl ReaderDate {
    #[verifier::type_invariant]
    spec fn is_valid(self) -> bool {
        is_calendar_date(self.year as int, self.month as int, self.day as int)
    }

    /// The date of the given year, month and day, if there is such a day.
    pub fn from_ymd(year: i32, month: u32, day: u32) -> (date: Option<ReaderDate>)
        ensures
            date.is_some() == is_calendar_date(year as int, month as int, day as int),
            date matches Some(d) ==> d@ == (Ymd {
                year: year as int,
                month: month as int,
                day: day as int,
            }),
    {
        match chrono::NaiveDate::from_ymd_opt(year, month, day) {
            Some(_) => Some(ReaderDate { year, month, day }),
            None => None,
        }
    }

    /// The date that a title gives by its year, the name of its month and
    /// its day, each as it stands in the title.
    pub fn from_title(year: String, month: String, day: String) -> (date: Result<ReaderDate, Error>)
        ensures
            result_view(date) == title_date(year@, month@, day@),
            date matches Ok(d) ==> is_calendar_date(d@.year, d@.month, d@.day),
    {
        let m: u32 = match month_of(month.as_str()) {
            Some(m) => m,
            None => {
                return Err(Error::Month { month });
            },
        };
        let y: i32 = match parse_i32(year.as_str()) {
            Some(y) => y,
            None => {
                return Err(Error::Number { text: year });
            },
        };
        let d: u32 = match parse_u32(day.as_str()) {
            Some(d) => d,
            None => {
                return Err(Error::Number { text: day });
            },
        };
        match ReaderDate::from_ymd(y, m, d) {
            Some(date) => Ok(date),
            None => Err(Error::Date { year: y, month: m, day: d }),
        }
    }

    /// The date that chrono reads from `text` written as year, month and
    /// day with `-` between.
    pub fn from_iso(text: &str) -> (date: Option<ReaderDate>)
        ensures
            date_of_parts(chrono_parsed_date(text@, ISO_DATE_FORMAT@)) == match date {
                Some(d) => Some(d@),
                None => None,
            },
    {
        ReaderDate::from_parts(parse_date(text, ISO_DATE_FORMAT))
    }

    /// The date of a year, month and day that are known to name a day.
    pub fn from_parts(parts: Option<(i32, u32, u32)>) -> (date: Option<ReaderDate>)
        requires
            parts matches Some(p) ==> is_calendar_date(p.0 as int, p.1 as int, p.2 as int),
        ensures
            date.is_some() == parts.is_some(),
            parts matches Some(p) ==> date matches Some(d) && d@ == (Ymd {
                year: p.0 as int,
                month: p.1 as int,
                day: p.2 as int,
            }),
    {
        match parts {
            Some((year, month, day)) => Some(ReaderDate { year, month, day }),
            None => None,
        }
    }

    /// The year.
    pub fn year(&self) -> (year: i32)
        ensures
            year == self@.year,
            MIN_YEAR <= year <= MAX_YEAR,
    {
        proof {
            use_type_invariant(self);
        }
        self.year
    }

    /// The month, from 1 to 12.
    pub fn month(&self) -> (month: u32)
        ensures
            month == self@.month,
            1 <= month <= 12,
    {
        proof {
            use_type_invariant(self);
        }
        self.month
    }

    /// The day of the month, from 1.
    pub fn day(&self) -> (day: u32)
        ensures
            day == self@.day,
            1 <= day <= days_in_month(self@.year, self@.month),
    {
        proof {
            use_type_invariant(self);
        }
        self.day
    }

    /// The date as it is written in the bins.
    pub fn to_text(&self) -> (text: String)
        ensures
            text@ == date_text(self@),
    {
        proof {
            use_type_invariant(self);
        }
        let mut text = String::new();
        if 0 <= self.year && self.year <= 9999 {
            push_padded(&mut text, self.year, 4);
        } else if self.year < 0 {
            text.push('-');
            push_padded(&mut text, -self.year, 4);
        } else {
            text.push('+');
            push_padded(&mut text, self.year, 4);
        }
        text.push('-');
        push_padded(&mut text, self.month as i32, 2);
        text.push('-');
        push_padded(&mut text, self.day as i32, 2);
        assert(text@ =~= date_text(self@));
        text
    }
}

/// A year, month and day as a date.
pub open spec fn date_of_parts(parts: Option<(int, int, int)>) -> Option<Ymd> {
    match parts {
        Some(p) => Some(Ymd { year: p.0, month: p.1, day: p.2 }),
        None => None,
    }
}

/// The month that `token` names: one of the twelve names of three letters
/// gives its month, any other token gives none.
pub fn month_of(token: &str) -> (month: Option<u32>)
    ensures
        month_number(token@) == match month {
            Some(m) => Some(m as int),
            None => None,
        },
{
    let chars = chars_of(token);
    if chars.len() != 3 {
        proof {
            assert forall|m: int| 1 <= m <= 12 implies !names_month(token@, m) by {
                assert(month_abbreviation(m).len() == 3);
            }
        }
        return None;
    }
    let a: char = chars[0];
    let b: char = chars[1];
    let c: char = chars[2];
    let month: u32 = if a == 'J' && b == 'a' && c == 'n' {
        1
    } else if a == 'F' && b == 'e' && c == 'b' {
        2
    } else if a == 'M' && b == 'a' && c == 'r' {
        3
    } else if a == 'A' && b == 'p' && c == 'r' {
        4
    } else if a == 'M' && b == 'a' && c == 'y' {
        5
    } else if a == 'J' && b == 'u' && c == 'n' {
        6
    } else if a == 'J' && b == 'u' && c == 'l' {
        7
    } else if a == 'A' && b == 'u' && c == 'g' {
        8
    } else if a == 'S' && b == 'e' && c == 'p' {
        9
    } else if a == 'O' && b == 'c' && c == 't' {
        10
    } else if a == 'N' && b == 'o' && c == 'v' {
        11
    } else if a == 'D' && b == 'e' && c == 'c' {
        12
    } else {
        0
    };
    proof {
        if month != 0 {
            assert(token@ =~= month_abbreviation(month as int));
            lemma_month_number_unique(token@, month as int);
        } else {
            assert forall|m: int| 1 <= m <= 12 implies !names_month(token@, m) by {
                let name = month_abbreviation(m);
                if token@ == name {
                    assert(name[0] == a && name[1] == b && name[2] == c);
                }
            }
        }
    }
    if month == 0 {
        None
    } else {
        Some(month)
    }
}

/// The byte of a space.
pub const SPACE: u8 = 32;

/// The byte of a line's end.
pub const NEWLINE: u8 = 10;

/// `unit`, `count` times over.
pub open spec fn repeated(unit: Seq<u8>, count: nat) -> Seq<u8>
    decreases count,
{
    if count == 0 {
        Seq::<u8>::empty()
    } else {
        repeated(unit, (count - 1) as nat) + unit
    }
}

/// What an array's value begins with: a new line, after a comma unless the
/// value is the array's first.
pub open spec fn array_value_lead(first: bool) -> Seq<u8> {
    if first {
        seq![NEWLINE]
    } else {
        seq![44u8, NEWLINE]
    }
}

/// What an object's key begins with: a space, after a comma unless the key
/// is the object's first.
pub open spec fn object_key_lead(first: bool) -> Seq<u8> {
    if first {
        seq![SPACE]
    } else {
        seq![44u8, SPACE]
    }
}

/// What closes an array at depth `depth`: on a line of its own, unless the
/// array is empty.
pub open spec fn array_close(unit: Seq<u8>, depth: nat, has_value: bool) -> Seq<u8> {
    if has_value {
        seq![NEWLINE] + repeated(unit, depth) + seq![93u8]
    } else {
        seq![93u8]
    }
}

/// The four spaces by which each level of arrays is set in.
pub const INDENT_UNIT: [u8; 4] = [32u8, 32u8, 32u8, 32u8];

/// Lays out the local record's JSON: each value of an array on a line of
/// its own, set in by four spaces for each array or object around it, and
/// each object on one line.
///
/// It follows the writer of the JSON through the document: the writer says
/// what begins and ends, and the formatter appends the bytes that belong
/// between the values.
#[derive(Clone, Debug)]
pub struct DataFormatter<'a> {
    current_indent: usize,
    has_value: bool,
    indent: &'a [u8],
}

impl<'a> DataFormatter<'a> {
    /// How many arrays and objects are open.
    pub closed spec fn depth(&self) -> nat {
        self.current_indent as nat
    }

    /// Whether the array or object that was last worked on has a value.
    pub closed spec fn wrote_value(&self) -> bool {
        self.has_value
    }

    /// The bytes by which one level is set in.
    pub closed spec fn unit(&self) -> Seq<u8> {
        self.indent@
    }

    /// A formatter at the start of a document, with four spaces to a level.
    pub fn new() -> (formatter: Self)
        ensures
            formatter.depth() == 0,
            !formatter.wrote_value(),
            formatter.unit() == seq![SPACE, SPACE, SPACE, SPACE],
    {
        let formatter = DataFormatter { current_indent: 0, has_value: false, indent: &INDENT_UNIT };
        assert(formatter.indent@ =~= seq![SPACE, SPACE, SPACE, SPACE]);
        formatter
    }

    /// How many arrays and objects are open.
    pub fn open_levels(&self) -> (levels: usize)
        ensures
            levels == self.depth(),
    {
        self.current_indent
    }

    /// An array begins: `[`, one level deeper, no value yet.
    pub fn begin_array(&mut self, out: &mut Vec<u8>)
        requires
            old(self).depth() < usize::MAX,
        ensures
            final(self).depth() == old(self).depth() + 1,
            !final(self).wrote_value(),
            final(self).unit() == old(self).unit(),
            final(out)@ == old(out)@.push(91u8),
    {
        self.current_indent += 1;
        self.has_value = false;
        out.push(91u8);
    }

    /// A value of an array begins: on a new line, set in to the array's
    /// level, after a comma unless it is the first.
    pub fn begin_array_value(&mut self, out: &mut Vec<u8>, first: bool)
        ensures
            *final(self) == *old(self),
            final(out)@ == old(out)@ + array_value_lead(first) + repeated(
                old(self).unit(),
                old(self).depth(),
            ),
    {
        if !first {
            out.push(44u8);
        }
        out.push(NEWLINE);
        assert(out@ =~= old(out)@ + array_value_lead(first));
        indent(out, self.current_indent, self.indent);
    }

    /// An object begins: `{`, one level deeper, no value yet.
    pub fn begin_object(&mut self, out: &mut Vec<u8>)
        requires
            old(self).depth() < usize::MAX,
        ensures
            final(self).depth() == old(self).depth() + 1,
            !final(self).wrote_value(),
            final(self).unit() == old(self).unit(),
            final(out)@ == old(out)@.push(123u8),
    {
        self.current_indent += 1;
        self.has_value = false;
        out.push(123u8);
    }

    /// A key of an object begins: after a space, and after a comma unless
    /// it is the first.
    pub fn begin_object_key(&mut self, out: &mut Vec<u8>, first: bool)
        ensures
            *final(self) == *old(self),
            final(out)@ == old(out)@ + object_key_lead(first),
    {
        if !first {
            out.push(44u8);
        }
        out.push(SPACE);
        assert(out@ =~= old(out)@ + object_key_lead(first));
    }

    /// An object ends: a space and `}`, one level up.
    pub fn end_object(&mut self, out: &mut Vec<u8>)
        requires
            old(self).depth() > 0,
        ensures
            final(self).depth() == old(self).depth() - 1,
            final(self).wrote_value() == old(self).wrote_value(),
            final(self).unit() == old(self).unit(),
            final(out)@ == old(out)@ + seq![SPACE, 125u8],
    {
        self.current_indent -= 1;
        out.push(SPACE);
        out.push(125u8);
        assert(out@ =~= old(out)@ + seq![SPACE, 125u8]);
    }

    /// A value of an array has ended: the array has a value.
    pub fn end_array_value(&mut self, out: &mut Vec<u8>)
        ensures
            final(self).depth() == old(self).depth(),
            final(self).wrote_value(),
            final(self).unit() == old(self).unit(),
            final(out)@ == old(out)@,
    {
        self.has_value = true;
    }

    /// The value of a key begins: after a colon and a space.
    pub fn begin_object_value(&mut self, out: &mut Vec<u8>)
        ensures
            *final(self) == *old(self),
            final(out)@ == old(out)@ + seq![58u8, SPACE],
    {
        out.push(58u8);
        out.push(SPACE);
        assert(out@ =~= old(out)@ + seq![58u8, SPACE]);
    }

    /// The value of a key has ended: the object has a value.
    pub fn end_object_value(&mut self, out: &mut Vec<u8>)
        ensures
            final(self).depth() == old(self).depth(),
            final(self).wrote_value(),
            final(self).unit() == old(self).unit(),
            final(out)@ == old(out)@,
    {
        self.has_value = true;
    }

    /// An array ends, one level up: `]`, on a line of its own at the level
    /// of what holds the array unless nothing was written since the array
    /// began.
    pub fn end_array(&mut self, out: &mut Vec<u8>)
        requires
            old(self).depth() > 0,
        ensures
            final(self).depth() == old(self).depth() - 1,
            final(self).wrote_value() == old(self).wrote_value(),
            final(self).unit() == old(self).unit(),
            final(out)@ == old(out)@ + array_close(
                old(self).unit(),
                (old(self).depth() - 1) as nat,
                old(self).wrote_value(),
            ),
    {
        self.current_indent -= 1;
        if self.has_value {
            out.push(NEWLINE);
            indent(out, self.current_indent, self.indent);
        }
        out.push(93u8);
        assert(out@ =~= old(out)@ + array_close(
            old(self).unit(),
            (old(self).depth() - 1) as nat,
            old(self).wrote_value(),
        ));
    }
}

/// Appends `s` to `out`, `n` times over.
pub fn indent(out: &mut Vec<u8>, n: usize, s: &[u8])
    ensures
        final(out)@ == old(out)@ + repeated(s@, n as nat),
{
    let mut done: usize = 0;
    while done < n
        invariant
            done <= n,
            out@ == old(out)@ + repeated(s@, done as nat),
        decreases n - done,
    {
        let ghost before = out@;
        let mut k: usize = 0;
        while k < s.len()
            invariant
                k <= s.len(),
                out@ == before + s@.take(k as int),
            decreases s.len() - k,
        {
            out.push(s[k]);
            k += 1;
            assert(out@ =~= before + s@.take(k as int));
        }
        done += 1;
        assert(s@.take(s.len() as int) =~= s@);
        assert(out@ =~= old(out)@ + repeated(s@, done as nat));
    }
    assert(repeated(s@, 0) =~= Seq::<u8>::empty());
}

} // verus!
