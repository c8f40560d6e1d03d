//! What can end a run, and how each failure is classed.

use crate::text::{decimal_digits, decimal_text, push_decimal, push_digits};
use vstd::prelude::*;

verus! {

/// The classes of failure. Each of them ends the run.
#[derive(Debug, Clone, Copy, PartialEq, Eq, Structural)]
pub enum ErrorKind {
    /// A request could not be carried out.
    Network,
    /// Something that was read does not have the expected shape.
    Parse,
    /// A page shows no image.
    MissingImage,
    /// The second image of a page was asked for, and the page has none.
    MissingExtraImage,
    /// An image is no PNG.
    UnsupportedFormat,
    /// A file could not be read, written or removed.
    Io,
    /// The stored bins contradict each other.
    Consistency,
    /// The driver answered with something that was not asked for.
    Protocol,
}

/// A failure, with what is known of its cause.
#[derive(Debug)]
pub enum Error {
    /// A request failed; `detail` is the transport's account of it.
    Network { detail: String },
    /// The feed does not begin with the opening of its wrapper.
    FeedPrefix,
    /// The feed does not end with the closing of its wrapper.
    FeedSuffix,
    /// A document is not the JSON that was expected; `detail` is the
    /// reader's account of it.
    Json { detail: String },
    /// The feed lists no strip.
    EmptyFeed,
    /// The local record lists no strip.
    EmptyRecord,
    /// The page has no title of the expected shape; `body` is the page.
    Title { body: String },
    /// The title names no month; `month` is what stands in its place.
    Month { month: String },
    /// A run of characters in the title is no number in range.
    Number { text: String },
    /// The title's year, month and day are no day of the calendar.
    Date { year: i32, month: u32, day: u32 },
    /// The page shows no image.
    MissingImage,
    /// The page shows no second image.
    MissingExtraImage,
    /// No address can be made of the site's origin and `path`.
    Location { path: String },
    /// The image at `path` is no PNG.
    UnsupportedFormat { path: String },
    /// A file operation failed; `detail` is the system's account of it.
    Io { detail: String },
    /// A bin in progress holds a full bin's entries or more.
    BinOverfull { index: i32 },
    /// Bin `index` was filed, and its file in progress then could not be
    /// removed; `detail` is the system's account of it.
    Leftover { index: i32, detail: String },
    /// The driver's answer does not fit what it was asked to do.
    Unexpected,
}

/// An [`Error`] with its texts as sequences of characters.
pub enum ErrorView {
    Network { detail: Seq<char> },
    FeedPrefix,
    FeedSuffix,
    Json { detail: Seq<char> },
    EmptyFeed,
    EmptyRecord,
    Title { body: Seq<char> },
    Month { month: Seq<char> },
    Number { text: Seq<char> },
    Date { year: int, month: int, day: int },
    MissingImage,
    MissingExtraImage,
    Location { path: Seq<char> },
    UnsupportedFormat { path: Seq<char> },
    Io { detail: Seq<char> },
    BinOverfull { index: int },
    Leftover { index: int, detail: Seq<char> },
    Unexpected,
}

impl ErrorView {
    /// The class of the failure.
    pub open spec fn kind(self) -> ErrorKind {
        match self {
            ErrorView::Network { .. } => ErrorKind::Network,
            ErrorView::FeedPrefix => ErrorKind::Parse,
            ErrorView::FeedSuffix => ErrorKind::Parse,
            ErrorView::Json { .. } => ErrorKind::Parse,
            ErrorView::EmptyFeed => ErrorKind::Parse,
            ErrorView::EmptyRecord => ErrorKind::Parse,
            ErrorView::Title { .. } => ErrorKind::Parse,
            ErrorView::Month { .. } => ErrorKind::Parse,
            ErrorView::Number { .. } => ErrorKind::Parse,
            ErrorView::Date { .. } => ErrorKind::Parse,
            ErrorView::MissingImage => ErrorKind::MissingImage,
            ErrorView::MissingExtraImage => ErrorKind::MissingExtraImage,
            ErrorView::Location { .. } => ErrorKind::Parse,
            ErrorView::UnsupportedFormat { .. } => ErrorKind::UnsupportedFormat,
            ErrorView::Io { .. } => ErrorKind::Io,
            ErrorView::BinOverfull { .. } => ErrorKind::Consistency,
            ErrorView::Leftover { .. } => ErrorKind::Consistency,
            ErrorView::Unexpected => ErrorKind::Protocol,
        }
    }
}

impl View for Error {
    type V = ErrorView;

    open spec fn view(&self) -> ErrorView {
        match *self {
            Error::Network { detail } => ErrorView::Network { detail: detail@ },
            Error::FeedPrefix => ErrorView::FeedPrefix,
            Error::FeedSuffix => ErrorView::FeedSuffix,
            Error::Json { detail } => ErrorView::Json { detail: detail@ },
            Error::EmptyFeed => ErrorView::EmptyFeed,
            Error::EmptyRecord => ErrorView::EmptyRecord,
            Error::Title { body } => ErrorView::Title { body: body@ },
            Error::Month { month } => ErrorView::Month { month: month@ },
            Error::Number { text } => ErrorView::Number { text: text@ },
            Error::Date { year, month, day } => ErrorView::Date {
                year: year as int,
                month: month as int,
                day: day as int,
            },
            Error::MissingImage => ErrorView::MissingImage,
            Error::MissingExtraImage => ErrorView::MissingExtraImage,
            Error::Location { path } => ErrorView::Location { path: path@ },
            Error::UnsupportedFormat { path } => ErrorView::UnsupportedFormat { path: path@ },
            Error::Io { detail } => ErrorView::Io { detail: detail@ },
            Error::BinOverfull { index } => ErrorView::BinOverfull { index: index as int },
            Error::Leftover { index, detail } => ErrorView::Leftover {
                index: index as int,
                detail: detail@,
            },
            Error::Unexpected => ErrorView::Unexpected,
        }
    }
}

/// `text` between quotation marks.
pub open spec fn quoted(text: Seq<char>) -> Seq<char> {
    seq!['"'] + text + seq!['"']
}

/// What a failure is told as.
pub open spec fn message_of(error: ErrorView) -> Seq<char> {
    match error {
        ErrorView::Network { detail } => "Failed to fetch: "@ + detail,
        ErrorView::FeedPrefix => "Prefix match failed"@,
        ErrorView::FeedSuffix => "Suffix match failed"@,
        ErrorView::Json { detail } => "Failed to parse: "@ + detail,
        ErrorView::EmptyFeed => "The feed lists no strip"@,
        ErrorView::EmptyRecord => "The local record lists no strip"@,
        ErrorView::Title { body } => "Failed to find date via regex: "@ + body,
        ErrorView::Month { month } => "invalid month "@ + quoted(month),
        ErrorView::Number { text } => "invalid number "@ + quoted(text),
        ErrorView::Date { year, month, day } => "invalid or out-of-range date "@ + decimal_text(
            year,
        ) + seq!['-'] + decimal_digits(month as nat) + seq!['-'] + decimal_digits(day as nat),
        ErrorView::MissingImage => "The page shows no image"@,
        ErrorView::MissingExtraImage => "The page shows no second image"@,
        ErrorView::Location { path } => "No address for image "@ + quoted(path),
        ErrorView::UnsupportedFormat { path } => "Unsupported image type for image "@ + quoted(
            path,
        ),
        ErrorView::Io { detail } => "Failed to read or write: "@ + detail,
        ErrorView::BinOverfull { index } => "The bin in progress is full: bin "@ + decimal_text(
            index,
        ),
        ErrorView::Leftover { index, detail } => "Failed to remove the bin in progress: bin "@
            + decimal_text(index) + ": "@ + detail,
        ErrorView::Unexpected => "An answer does not fit what was asked"@,
    }
}

/// `lead`, and `text` between quotation marks after it.
fn with_quoted(lead: &str, text: &str) -> (message: String)
    ensures
        message@ == lead@ + quoted(text@),
{
    let mut message = lead.to_owned();
    message.push('"');
    message.append(text);
    message.push('"');
    assert(message@ =~= lead@ + quoted(text@));
    message
}

/// `lead`, and `text` after it.
fn with_text(lead: &str, text: &str) -> (message: String)
    ensures
        message@ == lead@ + text@,
{
    let mut message = lead.to_owned();
    message.append(text);
    message
}

impl Error {
    /// The failure in words, with the path or the text that it is about.
    pub fn message(&self) -> (message: String)
        ensures
            message@ == message_of(self@),
    {
        match self {
            Error::Network { detail } => with_text("Failed to fetch: ", detail.as_str()),
            Error::FeedPrefix => "Prefix match failed".to_owned(),
            Error::FeedSuffix => "Suffix match failed".to_owned(),
            Error::Json { detail } => with_text("Failed to parse: ", detail.as_str()),
            Error::EmptyFeed => "The feed lists no strip".to_owned(),
            Error::EmptyRecord => "The local record lists no strip".to_owned(),
            Error::Title { body } => with_text("Failed to find date via regex: ", body.as_str()),
            Error::Month { month } => with_quoted("invalid month ", month.as_str()),
            Error::Number { text } => with_quoted("invalid number ", text.as_str()),
            Error::Date { year, month, day } => {
                let mut message = "invalid or out-of-range date ".to_owned();
                push_decimal(&mut message, *year);
                message.push('-');
                push_digits(&mut message, *month);
                message.push('-');
                push_digits(&mut message, *day);
                assert(message@ =~= message_of(self@));
                message
            },
            Error::MissingImage => "The page shows no image".to_owned(),
            Error::MissingExtraImage => "The page shows no second image".to_owned(),
            Error::Location { path } => with_quoted("No address for image ", path.as_str()),
            Error::UnsupportedFormat { path } => with_quoted(
                "Unsupported image type for image ",
                path.as_str(),
            ),
            Error::Io { detail } => with_text("Failed to read or write: ", detail.as_str()),
            Error::BinOverfull { index } => {
                let mut message = "The bin in progress is full: bin ".to_owned();
                push_decimal(&mut message, *index);
                message
            },
            Error::Leftover { index, detail } => {
                let mut message = "Failed to remove the bin in progress: bin ".to_owned();
                push_decimal(&mut message, *index);
                message.append(": ");
                message.append(detail.as_str());
                assert(message@ =~= message_of(self@));
                message
            },
            Error::Unexpected => "An answer does not fit what was asked".to_owned(),
        }
    }

    /// The class of this failure.
    pub fn kind(&self) -> (kind: ErrorKind)
        ensures
            kind == self@.kind(),
    {
        match self {
            Error::Network { .. } => ErrorKind::Network,
            Error::FeedPrefix => ErrorKind::Parse,
            Error::FeedSuffix => ErrorKind::Parse,
            Error::Json { .. } => ErrorKind::Parse,
            Error::EmptyFeed => ErrorKind::Parse,
            Error::EmptyRecord => ErrorKind::Parse,
            Error::Title { .. } => ErrorKind::Parse,
            Error::Month { .. } => ErrorKind::Parse,
            Error::Number { .. } => ErrorKind::Parse,
            Error::Date { .. } => ErrorKind::Parse,
            Error::MissingImage => ErrorKind::MissingImage,
            Error::MissingExtraImage => ErrorKind::MissingExtraImage,
            Error::Location { .. } => ErrorKind::Parse,
            Error::UnsupportedFormat { .. } => ErrorKind::UnsupportedFormat,
            Error::Io { .. } => ErrorKind::Io,
            Error::BinOverfull { .. } => ErrorKind::Consistency,
            Error::Leftover { .. } => ErrorKind::Consistency,
            Error::Unexpected => ErrorKind::Protocol,
        }
    }
}

/// A result with both sides taken by their views.
pub open spec fn result_view<T: View, E: View>(r: Result<T, E>) -> Result<T::V, E::V> {
    match r {
        Ok(value) => Ok(value@),
        Err(error) => Err(error@),
    }
}

} // verus!
