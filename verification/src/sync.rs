//! A run, step by step: what is to be done next, given what the last thing
//! that was done has brought.
//!
//! The run itself reads and writes nothing. It asks its driver for one
//! [`Action`] at a time, and the driver answers with the [`Event`] that the
//! action has brought. The run goes through four phases: it checks whether
//! the local copy is up to date, it fetches the strips that are missing, it
//! puts away the bin in progress, and it is done; or it fails.

use crate::data::{
    date_text, last_known_strip, latest_strip, mark_synced, record_synced, FreefallEntry,
    ReaderEntry,
};
use crate::error::{Error, ErrorView};
use crate::freefall::{
    image_location, page_of, regex_all_matches, regex_first_match, Page, PageView, IMAGE_PATTERN,
    TITLE_PATTERN,
};
use crate::plan::{
    bin_file, bin_file_name, bin_index, bin_of, completes_bin, image_file_of, is_last_of_bin,
    page_url, page_url_of, save_page_img, unwrap_feed, unwrapped_feed, Config, ConfigView, DateBin,
    BIN_SIZE,
};
use vstd::prelude::*;

verus! {

/// The phases of a run.
#[derive(Debug, Clone, Copy, PartialEq, Eq, Structural)]
pub enum Phase {
    /// The run finds out whether the local copy is up to date.
    CheckUpToDate,
    /// The run fetches the strips that the local copy lacks.
    Syncing,
    /// The run puts away the bin in progress and the local record.
    Finalizing,
    /// The run has come to its end.
    Done,
    /// The run has failed.
    Failed,
}

/// What a run waits for.
#[derive(Debug, Clone, Copy, PartialEq, Eq, Structural)]
pub enum Waiting {
    /// The text of the feed.
    Feed,
    /// The entries of the feed.
    FeedEntries,
    /// The local record.
    Record,
    /// The bin in progress.
    Bin,
    /// The page of a strip.
    PageBody,
    /// The image of a strip.
    Image,
    /// The image of a strip to be saved.
    ImageSaved,
    /// The full bin to be filed.
    BinFiled,
    /// The file of the bin in progress to be removed.
    BinRemoved,
    /// The bin in progress to be saved.
    BinSaved,
    /// The time.
    Time,
    /// The local record to be saved.
    RecordSaved,
    /// Nothing: the run is over.
    Nothing,
}

/// Why an action could not be carried out.
#[derive(Debug, Clone, Copy, PartialEq, Eq, Structural)]
pub enum Fault {
    /// A request failed.
    Network,
    /// A file could not be read, written or removed.
    Io,
    /// A document is not the JSON that was expected.
    Json,
}

/// What the driver is asked to do.
#[derive(Debug)]
pub enum Action {
    /// Fetch the feed from `url`, and answer with its text.
    FetchFeed { url: String },
    /// Read `json` as the feed's entries, and answer with them.
    ParseFeed { json: String },
    /// Read the local record, and answer with its entries.
    LoadRecord,
    /// Read the file `file` of bin `index` in progress, and answer with its
    /// entries, or with none where there is no such file.
    LoadBin { index: i32, file: String },
    /// Fetch the page of strip `number` from `url`, and answer with its
    /// text.
    FetchPage { number: i32, url: String },
    /// Fetch the image at `url`.
    FetchImage { url: String },
    /// Save the image that was fetched as `file`.
    SaveImage { file: String },
    /// Write the run's bin, which is full, as `file` among the bins that
    /// are done.
    FileBin { index: i32, file: String },
    /// Remove `file` from the bins in progress.
    RemoveBin { index: i32, file: String },
    /// Write the run's bin as `file` among the bins in progress.
    SaveBin { index: i32, file: String },
    /// Answer with the time, in seconds since 1970.
    ReadClock,
    /// Write the run's record as the local record.
    SaveRecord,
    /// Nothing is left to do.
    Finish,
    /// The run has failed: report its error.
    Abort,
}

/// An [`Action`] with its texts as sequences of characters.
pub enum ActionView {
    FetchFeed { url: Seq<char> },
    ParseFeed { json: Seq<char> },
    LoadRecord,
    LoadBin { index: i32, file: Seq<char> },
    FetchPage { number: i32, url: Seq<char> },
    FetchImage { url: Seq<char> },
    SaveImage { file: Seq<char> },
    FileBin { index: i32, file: Seq<char> },
    RemoveBin { index: i32, file: Seq<char> },
    SaveBin { index: i32, file: Seq<char> },
    ReadClock,
    SaveRecord,
    Finish,
    Abort,
}

impl View for Action {
    type V = ActionView;

    open spec fn view(&self) -> ActionView {
        match *self {
            Action::FetchFeed { url } => ActionView::FetchFeed { url: url@ },
            Action::ParseFeed { json } => ActionView::ParseFeed { json: json@ },
            Action::LoadRecord => ActionView::LoadRecord,
            Action::LoadBin { index, file } => ActionView::LoadBin { index, file: file@ },
            Action::FetchPage { number, url } => ActionView::FetchPage { number, url: url@ },
            Action::FetchImage { url } => ActionView::FetchImage { url: url@ },
            Action::SaveImage { file } => ActionView::SaveImage { file: file@ },
            Action::FileBin { index, file } => ActionView::FileBin { index, file: file@ },
            Action::RemoveBin { index, file } => ActionView::RemoveBin { index, file: file@ },
            Action::SaveBin { index, file } => ActionView::SaveBin { index, file: file@ },
            Action::ReadClock => ActionView::ReadClock,
            Action::SaveRecord => ActionView::SaveRecord,
            Action::Finish => ActionView::Finish,
            Action::Abort => ActionView::Abort,
        }
    }
}

/// What an action has brought.
#[derive(Debug)]
pub enum Event {
    /// The text that was fetched.
    Text(String),
    /// The entries of the feed.
    Feed(Vec<FreefallEntry>),
    /// The entries of the local record.
    Record(Vec<ReaderEntry>),
    /// The entries of the bin in progress, or none where it has no file.
    Bin(Option<Vec<Option<String>>>),
    /// The time, in seconds since 1970.
    Time(i64),
    /// The action was carried out, and there is nothing to tell.
    Completed,
    /// The action could not be carried out.
    Failed { fault: Fault, detail: String },
}

/// An [`Event`] with its texts as sequences of characters.
pub enum EventView {
    Text(Seq<char>),
    Feed(Seq<FreefallEntry>),
    Record(Seq<ReaderEntry>),
    Bin(Option<Seq<Option<Seq<char>>>>),
    Time(i64),
    Completed,
    Failed { fault: Fault, detail: Seq<char> },
}

impl View for Event {
    type V = EventView;

    open spec fn view(&self) -> EventView {
        match *self {
            Event::Text(text) => EventView::Text(text@),
            Event::Feed(entries) => EventView::Feed(entries@),
            Event::Record(entries) => EventView::Record(entries@),
            Event::Bin(entries) => EventView::Bin(entries.deep_view()),
            Event::Time(now) => EventView::Time(now),
            Event::Completed => EventView::Completed,
            Event::Failed { fault, detail } => EventView::Failed { fault, detail: detail@ },
        }
    }
}

/// A run as it stands.
pub struct RunView {
    /// What the run was told about the site.
    pub config: ConfigView,
    /// The phase of the run.
    pub phase: Phase,
    /// What the run waits for.
    pub waiting: Waiting,
    /// The local record.
    pub record: Seq<ReaderEntry>,
    /// The newest strip that the local copy held when the run began.
    pub last_known: i32,
    /// The newest strip that the site has.
    pub latest: i32,
    /// The strip that is being fetched.
    pub current: i32,
    /// The bin in progress.
    pub bin: Seq<Option<Seq<char>>>,
    /// The page of the strip that is being fetched.
    pub page: Option<PageView>,
    /// Why the run has failed.
    pub error: Option<ErrorView>,
}

/// Whether a run waits for something that belongs to one strip.
pub open spec fn strip_in_hand(waiting: Waiting) -> bool {
    waiting == Waiting::PageBody || waiting == Waiting::Image || waiting == Waiting::ImageSaved
}

/// Whether a run waits for a full bin to be put away.
pub open spec fn bin_in_hand(waiting: Waiting) -> bool {
    waiting == Waiting::BinFiled || waiting == Waiting::BinRemoved
}

impl RunView {
    /// What holds of a run at every step: its bin never holds more than a
    /// hundred dates, and it holds a hundred only while the bin is being
    /// put away, or in a run that is over; what the run waits for fits its
    /// phase; it has an error exactly if it has failed; once the record has
    /// come it holds an entry, the last of which is the newest strip that
    /// the local copy held; and once the time has come, the last entry of
    /// the record is at the newest strip of the site and has a time.
    pub open spec fn wf(self) -> bool {
        &&& self.bin.len() <= BIN_SIZE
        &&& bin_in_hand(self.waiting) ==> self.bin.len() == BIN_SIZE
        &&& self.bin.len() == BIN_SIZE ==> bin_in_hand(self.waiting) || self.waiting
            == Waiting::Nothing
        &&& phase_of(self.waiting, self.last_known == self.latest).contains(self.phase)
        &&& self.error is Some <==> self.phase == Phase::Failed
        &&& self.phase == Phase::Syncing || self.phase == Phase::Finalizing || self.phase
            == Phase::Done || self.waiting == Waiting::Time || self.waiting == Waiting::RecordSaved
            ==> self.record.len() > 0
        &&& self.phase == Phase::Syncing || self.waiting == Waiting::BinSaved || self.waiting
            == Waiting::Time ==> self.record.last().i == self.last_known
        &&& self.waiting == Waiting::RecordSaved || self.phase == Phase::Done
            ==> self.record.last().i == self.latest && self.record.last().checked is Some
    }
}

/// The phases in which a run can wait for `waiting`; `up_to_date` says
/// whether the local copy was found at the newest strip.
pub open spec fn phase_of(waiting: Waiting, up_to_date: bool) -> Set<Phase> {
    match waiting {
        Waiting::Feed | Waiting::FeedEntries | Waiting::Record => set![Phase::CheckUpToDate],
        Waiting::Bin | Waiting::PageBody | Waiting::Image | Waiting::ImageSaved | Waiting::BinFiled
        | Waiting::BinRemoved => set![Phase::Syncing],
        Waiting::BinSaved => set![Phase::Finalizing],
        Waiting::Time | Waiting::RecordSaved => if up_to_date {
            set![Phase::CheckUpToDate, Phase::Finalizing]
        } else {
            set![Phase::Finalizing]
        },
        Waiting::Nothing => set![Phase::Done, Phase::Failed],
    }
}

/// The page that the text `body` of a page is read as.
pub open spec fn parsed_page(body: Seq<char>, skip: Seq<char>) -> Result<PageView, ErrorView> {
    page_of(
        body,
        regex_first_match(TITLE_PATTERN@, body),
        regex_all_matches(IMAGE_PATTERN@, body),
        skip,
    )
}

/// The run at its beginning, and the first thing to do: fetch the feed.
pub open spec fn begin_of(config: ConfigView) -> (RunView, ActionView) {
    (
        RunView {
            config,
            phase: Phase::CheckUpToDate,
            waiting: Waiting::Feed,
            record: Seq::empty(),
            last_known: 0,
            latest: 0,
            current: 0,
            bin: Seq::empty(),
            page: None,
            error: None,
        },
        ActionView::FetchFeed { url: config.feed_url },
    )
}

/// The run fails with `error`.
pub open spec fn failed(s: RunView, error: ErrorView) -> (RunView, ActionView) {
    (
        RunView { phase: Phase::Failed, waiting: Waiting::Nothing, error: Some(error), ..s },
        ActionView::Abort,
    )
}

/// The error of an action that could not be carried out. That the file of
/// a bin in progress cannot be removed after the bin was filed is an error
/// of its own.
pub open spec fn fault_error(s: RunView, fault: Fault, detail: Seq<char>) -> ErrorView {
    if s.waiting == Waiting::BinRemoved {
        ErrorView::Leftover { index: bin_of(s.current as int), detail }
    } else {
        match fault {
            Fault::Network => ErrorView::Network { detail },
            Fault::Io => ErrorView::Io { detail },
            Fault::Json => ErrorView::Json { detail },
        }
    }
}

/// What a run that is over has to say.
pub open spec fn closing_action(s: RunView) -> ActionView {
    if s.phase == Phase::Done {
        ActionView::Finish
    } else {
        ActionView::Abort
    }
}

/// The feed's text has come: its JSON is to be read.
pub open spec fn on_feed_text(s: RunView, body: Seq<char>) -> (RunView, ActionView) {
    match unwrapped_feed(body) {
        Err(error) => failed(s, error),
        Ok(json) => (
            RunView { waiting: Waiting::FeedEntries, ..s },
            ActionView::ParseFeed { json },
        ),
    }
}

/// The feed's entries have come: the newest strip is that of the last
/// entry, and the local record is to be read.
pub open spec fn on_feed(s: RunView, entries: Seq<FreefallEntry>) -> (RunView, ActionView) {
    if entries.len() == 0 {
        failed(s, ErrorView::EmptyFeed)
    } else {
        (
            RunView { latest: entries.last().i, waiting: Waiting::Record, ..s },
            ActionView::LoadRecord,
        )
    }
}

/// The local record has come. Where its last entry is at the newest strip,
/// only the time is asked for. Else the strips after it are fetched: into
/// the bin in progress, which is read first, or into a new bin where the
/// local copy ends with the last strip of a bin.
pub open spec fn on_record(s: RunView, record: Seq<ReaderEntry>) -> (RunView, ActionView) {
    if record.len() == 0 {
        failed(s, ErrorView::EmptyRecord)
    } else {
        let last_known = record.last().i;
        let held = RunView { record, last_known, ..s };
        if last_known == s.latest {
            (RunView { waiting: Waiting::Time, ..held }, ActionView::ReadClock)
        } else if is_last_of_bin(last_known as int) {
            first_strip(RunView { phase: Phase::Syncing, bin: Seq::empty(), ..held })
        } else {
            (
                RunView { phase: Phase::Syncing, waiting: Waiting::Bin, ..held },
                ActionView::LoadBin {
                    index: bin_of(last_known as int) as i32,
                    file: bin_file_name(bin_of(last_known as int)),
                },
            )
        }
    }
}

/// The bin in progress has come; without a file it is empty. A bin in
/// progress of a hundred dates or more fails the run.
pub open spec fn on_bin(s: RunView, loaded: Option<Seq<Option<Seq<char>>>>) -> (
    RunView,
    ActionView,
) {
    let entries = match loaded {
        Some(entries) => entries,
        None => Seq::empty(),
    };
    if entries.len() >= BIN_SIZE {
        failed(s, ErrorView::BinOverfull { index: bin_of(s.last_known as int) })
    } else {
        first_strip(RunView { bin: entries, ..s })
    }
}

/// The strips begin with the one after the newest that the local copy
/// holds; where there is none to fetch, the run goes on to its end.
pub open spec fn first_strip(s: RunView) -> (RunView, ActionView) {
    if s.last_known < s.latest {
        fetch_strip(s, (s.last_known + 1) as i32)
    } else {
        finalize(s)
    }
}

/// The strip after the one that is done; after the newest strip the run
/// goes on to its end.
pub open spec fn next_strip(s: RunView) -> (RunView, ActionView) {
    if s.current < s.latest {
        fetch_strip(s, (s.current + 1) as i32)
    } else {
        finalize(s)
    }
}

/// Strip `number` is fetched: its page first.
pub open spec fn fetch_strip(s: RunView, number: i32) -> (RunView, ActionView) {
    (
        RunView { current: number, waiting: Waiting::PageBody, page: None, ..s },
        ActionView::FetchPage {
            number,
            url: page_url_of(s.config, number as int, s.latest as int),
        },
    )
}

/// A page's text has come: the page is read, and its image is fetched.
pub open spec fn on_page_text(s: RunView, body: Seq<char>) -> (RunView, ActionView) {
    match parsed_page(body, s.config.navigation) {
        Err(error) => failed(s, error),
        Ok(page) => match image_location(page, false, s.config.origin) {
            Err(error) => failed(s, error),
            Ok(url) => (
                RunView { page: Some(page), waiting: Waiting::Image, ..s },
                ActionView::FetchImage { url },
            ),
        },
    }
}

/// The image has come: it is saved under the strip's number, if it is a
/// PNG.
pub open spec fn on_image(s: RunView) -> (RunView, ActionView) {
    match s.page {
        None => failed(s, ErrorView::Unexpected),
        Some(page) => match image_file_of(page) {
            Err(error) => failed(s, error),
            Ok(file) => (
                RunView { waiting: Waiting::ImageSaved, ..s },
                ActionView::SaveImage { file },
            ),
        },
    }
}

/// The image is saved: the strip's date goes into the bin. A bin that has
/// reached its hundred dates is filed under the bin of the strip; else the
/// next strip is fetched.
pub open spec fn on_image_saved(s: RunView) -> (RunView, ActionView) {
    match s.page {
        None => failed(s, ErrorView::Unexpected),
        Some(page) => {
            let bin = s.bin.push(Some(date_text(page.date)));
            let held = RunView { bin, page: None, ..s };
            if bin.len() == BIN_SIZE {
                (
                    RunView { waiting: Waiting::BinFiled, ..held },
                    ActionView::FileBin {
                        index: bin_of(s.current as int) as i32,
                        file: bin_file_name(bin_of(s.current as int)),
                    },
                )
            } else {
                next_strip(held)
            }
        },
    }
}

/// The full bin is filed: its file in progress is removed.
pub open spec fn on_bin_filed(s: RunView) -> (RunView, ActionView) {
    (
        RunView { waiting: Waiting::BinRemoved, ..s },
        ActionView::RemoveBin {
            index: bin_of(s.current as int) as i32,
            file: bin_file_name(bin_of(s.current as int)),
        },
    )
}

/// The file in progress is removed: a new bin begins with the next strip.
pub open spec fn on_bin_removed(s: RunView) -> (RunView, ActionView) {
    next_strip(RunView { bin: Seq::empty(), ..s })
}

/// No strip is left to fetch: a bin in progress that holds a date is saved
/// under the bin of the newest strip, and then the time is asked for.
pub open spec fn finalize(s: RunView) -> (RunView, ActionView) {
    if s.bin.len() > 0 {
        (
            RunView { phase: Phase::Finalizing, waiting: Waiting::BinSaved, page: None, ..s },
            ActionView::SaveBin {
                index: bin_of(s.latest as int) as i32,
                file: bin_file_name(bin_of(s.latest as int)),
            },
        )
    } else {
        (
            RunView { phase: Phase::Finalizing, waiting: Waiting::Time, page: None, ..s },
            ActionView::ReadClock,
        )
    }
}

/// The bin in progress is saved: the time is asked for.
pub open spec fn on_bin_saved(s: RunView) -> (RunView, ActionView) {
    (RunView { waiting: Waiting::Time, ..s }, ActionView::ReadClock)
}

/// The time has come: the last entry of the record is brought to the
/// newest strip and to this time, and the record is saved.
pub open spec fn on_time(s: RunView, now: i64) -> (RunView, ActionView) {
    (
        RunView {
            record: record_synced(s.record, s.latest, now),
            waiting: Waiting::RecordSaved,
            ..s
        },
        ActionView::SaveRecord,
    )
}

/// The record is saved: the run is done.
pub open spec fn on_record_saved(s: RunView) -> (RunView, ActionView) {
    (RunView { phase: Phase::Done, waiting: Waiting::Nothing, ..s }, ActionView::Finish)
}

/// The run after `event`, and what is to be done next.
///
/// A run that is over stays as it is. An action that could not be carried
/// out fails the run, and so does an answer that does not fit what the run
/// waits for.
pub open spec fn step_of(s: RunView, event: EventView) -> (RunView, ActionView) {
    if s.waiting == Waiting::Nothing {
        (s, closing_action(s))
    } else {
        match event {
            EventView::Failed { fault, detail } => failed(s, fault_error(s, fault, detail)),
            EventView::Text(body) => if s.waiting == Waiting::Feed {
                on_feed_text(s, body)
            } else if s.waiting == Waiting::PageBody {
                on_page_text(s, body)
            } else {
                failed(s, ErrorView::Unexpected)
            },
            EventView::Feed(entries) => if s.waiting == Waiting::FeedEntries {
                on_feed(s, entries)
            } else {
                failed(s, ErrorView::Unexpected)
            },
            EventView::Record(record) => if s.waiting == Waiting::Record {
                on_record(s, record)
            } else {
                failed(s, ErrorView::Unexpected)
            },
            EventView::Bin(loaded) => if s.waiting == Waiting::Bin {
                on_bin(s, loaded)
            } else {
                failed(s, ErrorView::Unexpected)
            },
            EventView::Time(now) => if s.waiting == Waiting::Time {
                on_time(s, now)
            } else {
                failed(s, ErrorView::Unexpected)
            },
            EventView::Completed => match s.waiting {
                Waiting::Image => on_image(s),
                Waiting::ImageSaved => on_image_saved(s),
                Waiting::BinFiled => on_bin_filed(s),
                Waiting::BinRemoved => on_bin_removed(s),
                Waiting::BinSaved => on_bin_saved(s),
                Waiting::RecordSaved => on_record_saved(s),
                _ => failed(s, ErrorView::Unexpected),
            },
        }
    }
}

/// A run: what is known so far, and what it waits for.
pub struct Run {
    config: Config,
    phase: Phase,
    waiting: Waiting,
    record: Vec<ReaderEntry>,
    last_known: i32,
    latest: i32,
    current: i32,
    bin: DateBin,
    page: Option<Page>,
    error: Option<Error>,
}

impl View for Run {
    type V = RunView;

    closed spec fn view(&self) -> RunView {
        RunView {
            config: self.config@,
            phase: self.phase,
            waiting: self.waiting,
            record: self.record@,
            last_known: self.last_known,
            latest: self.latest,
            current: self.current,
            bin: self.bin@,
            page: match self.page {
                Some(page) => Some(page@),
                None => None,
            },
            error: match self.error {
                Some(error) => Some(error@),
                None => None,
            },
        }
    }
}

impl Run {
    #[verifier::type_invariant]
    spec fn sound(self) -> bool {
        self@.wf()
    }

    /// A run at its beginning, and the first thing to do.
    pub fn begin(config: Config) -> (next: (Run, Action))
        ensures
            (next.0@, next.1@) == begin_of(config@),
            next.0@.wf(),
    {
        let action = Action::FetchFeed { url: config.feed_url.clone() };
        let run = Run {
            config,
            phase: Phase::CheckUpToDate,
            waiting: Waiting::Feed,
            record: Vec::new(),
            last_known: 0,
            latest: 0,
            current: 0,
            bin: DateBin::new(),
            page: None,
            error: None,
        };
        assert(run@.record =~= Seq::empty());
        assert(run@.bin =~= Seq::empty());
        (run, action)
    }

    /// The phase of the run.
    pub fn phase(&self) -> (phase: Phase)
        ensures
            phase == self@.phase,
    {
        self.phase
    }

    /// What the run waits for.
    pub fn waiting(&self) -> (waiting: Waiting)
        ensures
            waiting == self@.waiting,
    {
        self.waiting
    }

    /// The newest strip that the local copy held when the run began.
    pub fn last_known(&self) -> (last_known: i32)
        ensures
            last_known == self@.last_known,
    {
        self.last_known
    }

    /// The newest strip that the site has.
    pub fn latest(&self) -> (latest: i32)
        ensures
            latest == self@.latest,
    {
        self.latest
    }

    /// The strip that is being fetched.
    pub fn current(&self) -> (current: i32)
        ensures
            current == self@.current,
    {
        self.current
    }

    /// The local record as the run holds it.
    pub fn record(&self) -> (record: &Vec<ReaderEntry>)
        ensures
            record@ == self@.record,
    {
        &self.record
    }

    /// The dates of the bin in progress.
    pub fn bin(&self) -> (entries: &Vec<Option<String>>)
        ensures
            entries.deep_view() == self@.bin,
    {
        self.bin.entries()
    }

    /// Why the run has failed, if it has.
    pub fn error(&self) -> (error: &Option<Error>)
        ensures
            match *error {
                Some(e) => self@.error == Some(e@),
                None => self@.error is None,
            },
    {
        &self.error
    }

    /// The page of the strip that is being fetched, once it has come.
    pub fn page(&self) -> (page: &Option<Page>)
        ensures
            match *page {
                Some(p) => self@.page == Some(p@),
                None => self@.page is None,
            },
    {
        &self.page
    }

    /// The run fails with `error`.
    fn fail(self, error: Error) -> (next: (Run, Action))
        requires
            self@.waiting != Waiting::Nothing,
        ensures
            (next.0@, next.1@) == failed(self@, error@),
    {
        proof {
            use_type_invariant(&self);
        }
        let run = Run {
            phase: Phase::Failed,
            waiting: Waiting::Nothing,
            error: Some(error),
            ..self
        };
        (run, Action::Abort)
    }

    /// Goes on to the end of the run.
    fn finalize(self) -> (next: (Run, Action))
        requires
            self@.phase == Phase::Syncing,
            !bin_in_hand(self@.waiting),
        ensures
            (next.0@, next.1@) == finalize(self@),
    {
        proof {
            use_type_invariant(&self);
        }
        if !self.bin.is_empty() {
            let index: i32 = bin_index(self.latest);
            let file = bin_file(index);
            let run = Run {
                phase: Phase::Finalizing,
                waiting: Waiting::BinSaved,
                page: None,
                ..self
            };
            (run, Action::SaveBin { index, file })
        } else {
            let run = Run { phase: Phase::Finalizing, waiting: Waiting::Time, page: None, ..self };
            (run, Action::ReadClock)
        }
    }

    /// Fetches strip `number`.
    fn fetch_strip(self, number: i32) -> (next: (Run, Action))
        requires
            self@.phase == Phase::Syncing,
            !bin_in_hand(self@.waiting),
        ensures
            (next.0@, next.1@) == fetch_strip(self@, number),
    {
        proof {
            use_type_invariant(&self);
        }
        let url = page_url(&self.config, number, self.latest);
        let run = Run { current: number, waiting: Waiting::PageBody, page: None, ..self };
        (run, Action::FetchPage { number, url })
    }

    /// Fetches the first strip that the local copy lacks.
    fn first_strip(self) -> (next: (Run, Action))
        requires
            self@.phase == Phase::Syncing,
            !bin_in_hand(self@.waiting),
        ensures
            (next.0@, next.1@) == first_strip(self@),
    {
        if self.last_known < self.latest {
            let number: i32 = self.last_known + 1;
            self.fetch_strip(number)
        } else {
            self.finalize()
        }
    }

    /// Fetches the strip after the one that is done.
    fn next_strip(self) -> (next: (Run, Action))
        requires
            self@.phase == Phase::Syncing,
            !bin_in_hand(self@.waiting),
        ensures
            (next.0@, next.1@) == next_strip(self@),
    {
        if self.current < self.latest {
            let number: i32 = self.current + 1;
            self.fetch_strip(number)
        } else {
            self.finalize()
        }
    }

    /// Takes the feed's text.
    fn on_feed_text(self, body: String) -> (next: (Run, Action))
        requires
            self@.waiting == Waiting::Feed,
        ensures
            (next.0@, next.1@) == on_feed_text(self@, body@),
    {
        proof {
            use_type_invariant(&self);
        }
        match unwrap_feed(body.as_str()) {
            Err(error) => self.fail(error),
            Ok(json) => {
                let run = Run { waiting: Waiting::FeedEntries, ..self };
                (run, Action::ParseFeed { json })
            },
        }
    }

    /// Takes the feed's entries.
    fn on_feed(self, entries: Vec<FreefallEntry>) -> (next: (Run, Action))
        requires
            self@.waiting == Waiting::FeedEntries,
        ensures
            (next.0@, next.1@) == on_feed(self@, entries@),
    {
        proof {
            use_type_invariant(&self);
        }
        match latest_strip(&entries) {
            None => self.fail(Error::EmptyFeed),
            Some(latest) => {
                let run = Run { latest, waiting: Waiting::Record, ..self };
                (run, Action::LoadRecord)
            },
        }
    }

    /// Takes the local record.
    fn on_record(self, record: Vec<ReaderEntry>) -> (next: (Run, Action))
        requires
            self@.waiting == Waiting::Record,
        ensures
            (next.0@, next.1@) == on_record(self@, record@),
    {
        proof {
            use_type_invariant(&self);
        }
        match last_known_strip(&record) {
            None => self.fail(Error::EmptyRecord),
            Some(last_known) => {
                if last_known == self.latest {
                    let run = Run { record, last_known, waiting: Waiting::Time, ..self };
                    (run, Action::ReadClock)
                } else if completes_bin(last_known) {
                    let run = Run {
                        record,
                        last_known,
                        phase: Phase::Syncing,
                        waiting: Waiting::Bin,
                        bin: DateBin::new(),
                        ..self
                    };
                    assert(run@.bin =~= Seq::empty());
                    run.first_strip()
                } else {
                    let index: i32 = bin_index(last_known);
                    let file = bin_file(index);
                    let run = Run {
                        record,
                        last_known,
                        phase: Phase::Syncing,
                        waiting: Waiting::Bin,
                        ..self
                    };
                    (run, Action::LoadBin { index, file })
                }
            },
        }
    }

    /// Takes the bin in progress.
    fn on_bin(self, loaded: Option<Vec<Option<String>>>) -> (next: (Run, Action))
        requires
            self@.waiting == Waiting::Bin,
        ensures
            (next.0@, next.1@) == on_bin(self@, loaded.deep_view()),
    {
        proof {
            use_type_invariant(&self);
        }
        let entries: Vec<Option<String>> = match loaded {
            Some(entries) => entries,
            None => Vec::new(),
        };
        assert(loaded is None ==> entries.deep_view() =~= Seq::empty());
        match DateBin::from_entries(entries) {
            None => {
                let index: i32 = bin_index(self.last_known);
                self.fail(Error::BinOverfull { index })
            },
            Some(bin) => {
                let run = Run { bin, ..self };
                run.first_strip()
            },
        }
    }

    /// Takes the text of a page.
    fn on_page_text(self, body: String) -> (next: (Run, Action))
        requires
            self@.waiting == Waiting::PageBody,
        ensures
            (next.0@, next.1@) == on_page_text(self@, body@),
    {
        proof {
            use_type_invariant(&self);
        }
        match Page::new(body.as_str(), self.config.navigation.as_str()) {
            Err(error) => self.fail(error),
            Ok(page) => match page.get_img(false, self.config.origin.as_str()) {
                Err(error) => self.fail(error),
                Ok(url) => {
                    let run = Run { page: Some(page), waiting: Waiting::Image, ..self };
                    (run, Action::FetchImage { url })
                },
            },
        }
    }

    /// Takes note that the image has come.
    fn on_image(self) -> (next: (Run, Action))
        requires
            self@.waiting == Waiting::Image,
        ensures
            (next.0@, next.1@) == on_image(self@),
    {
        proof {
            use_type_invariant(&self);
        }
        let file: Result<String, Error> = match &self.page {
            None => Err(Error::Unexpected),
            Some(page) => save_page_img(page),
        };
        match file {
            Err(error) => self.fail(error),
            Ok(file) => {
                let run = Run { waiting: Waiting::ImageSaved, ..self };
                (run, Action::SaveImage { file })
            },
        }
    }

    /// Takes note that the image is saved.
    fn on_image_saved(self) -> (next: (Run, Action))
        requires
            self@.waiting == Waiting::ImageSaved,
        ensures
            (next.0@, next.1@) == on_image_saved(self@),
    {
        proof {
            use_type_invariant(&self);
        }
        let date: Option<String> = match &self.page {
            None => None,
            Some(page) => Some(page.date.to_text()),
        };
        match date {
            None => self.fail(Error::Unexpected),
            Some(text) => {
                let index: i32 = bin_index(self.current);
                let bin = self.bin.append(Some(text));
                if bin.is_full() {
                    let file = bin_file(index);
                    let run = Run { waiting: Waiting::BinFiled, bin, page: None, ..self };
                    (run, Action::FileBin { index, file })
                } else {
                    let run = Run { bin, page: None, ..self };
                    run.next_strip()
                }
            },
        }
    }

    /// Takes note that the full bin is filed.
    fn on_bin_filed(self) -> (next: (Run, Action))
        requires
            self@.waiting == Waiting::BinFiled,
        ensures
            (next.0@, next.1@) == on_bin_filed(self@),
    {
        proof {
            use_type_invariant(&self);
        }
        let index: i32 = bin_index(self.current);
        let file = bin_file(index);
        let run = Run { waiting: Waiting::BinRemoved, ..self };
        (run, Action::RemoveBin { index, file })
    }

    /// Takes note that the file of the bin in progress is removed.
    fn on_bin_removed(self) -> (next: (Run, Action))
        requires
            self@.waiting == Waiting::BinRemoved,
        ensures
            (next.0@, next.1@) == on_bin_removed(self@),
    {
        proof {
            use_type_invariant(&self);
        }
        let run = Run { bin: DateBin::new(), waiting: Waiting::PageBody, ..self };
        assert(run@.bin =~= Seq::empty());
        run.next_strip()
    }

    /// Takes note that the bin in progress is saved.
    fn on_bin_saved(self) -> (next: (Run, Action))
        requires
            self@.waiting == Waiting::BinSaved,
        ensures
            (next.0@, next.1@) == on_bin_saved(self@),
    {
        proof {
            use_type_invariant(&self);
        }
        let run = Run { waiting: Waiting::Time, ..self };
        (run, Action::ReadClock)
    }

    /// Takes the time.
    fn on_time(self, now: i64) -> (next: (Run, Action))
        requires
            self@.waiting == Waiting::Time,
        ensures
            (next.0@, next.1@) == on_time(self@, now),
    {
        proof {
            use_type_invariant(&self);
        }
        let mut record = self.record;
        mark_synced(&mut record, self.latest, now);
        let run = Run { record, waiting: Waiting::RecordSaved, ..self };
        (run, Action::SaveRecord)
    }

    /// Takes note that the record is saved.
    fn on_record_saved(self) -> (next: (Run, Action))
        requires
            self@.waiting == Waiting::RecordSaved,
        ensures
            (next.0@, next.1@) == on_record_saved(self@),
    {
        proof {
            use_type_invariant(&self);
        }
        let run = Run { phase: Phase::Done, waiting: Waiting::Nothing, ..self };
        (run, Action::Finish)
    }

    /// The error of an action that could not be carried out.
    fn fault(&self, fault: Fault, detail: String) -> (error: Error)
        ensures
            error@ == fault_error(self@, fault, detail@),
    {
        match self.waiting {
            Waiting::BinRemoved => Error::Leftover { index: bin_index(self.current), detail },
            _ => match fault {
                Fault::Network => Error::Network { detail },
                Fault::Io => Error::Io { detail },
                Fault::Json => Error::Json { detail },
            },
        }
    }

    /// The run after `event`, and what is to be done next.
    pub fn step(self, event: Event) -> (next: (Run, Action))
        ensures
            (next.0@, next.1@) == step_of(self@, event@),
            next.0@.wf(),
    {
        proof {
            use_type_invariant(&self);
        }
        let next = match self.waiting {
            Waiting::Nothing => {
                let action = match self.phase {
                    Phase::Done => Action::Finish,
                    _ => Action::Abort,
                };
                (self, action)
            },
            waiting => match event {
                Event::Failed { fault, detail } => {
                    let error = self.fault(fault, detail);
                    self.fail(error)
                },
                Event::Text(body) => match waiting {
                    Waiting::Feed => self.on_feed_text(body),
                    Waiting::PageBody => self.on_page_text(body),
                    _ => self.fail(Error::Unexpected),
                },
                Event::Feed(entries) => match waiting {
                    Waiting::FeedEntries => self.on_feed(entries),
                    _ => self.fail(Error::Unexpected),
                },
                Event::Record(record) => match waiting {
                    Waiting::Record => self.on_record(record),
                    _ => self.fail(Error::Unexpected),
                },
                Event::Bin(loaded) => match waiting {
                    Waiting::Bin => self.on_bin(loaded),
                    _ => self.fail(Error::Unexpected),
                },
                Event::Time(now) => match waiting {
                    Waiting::Time => self.on_time(now),
                    _ => self.fail(Error::Unexpected),
                },
                Event::Completed => match waiting {
                    Waiting::Image => self.on_image(),
                    Waiting::ImageSaved => self.on_image_saved(),
                    Waiting::BinFiled => self.on_bin_filed(),
                    Waiting::BinRemoved => self.on_bin_removed(),
                    Waiting::BinSaved => self.on_bin_saved(),
                    Waiting::RecordSaved => self.on_record_saved(),
                    _ => self.fail(Error::Unexpected),
                },
            },
        };
        proof {
            use_type_invariant(&next.0);
        }
        next
    }
}

} // verus!
