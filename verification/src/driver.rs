//! The driver as it is meant to be: what carrying out the actions of a run
//! does to the files, and what it answers.
//!
//! Nothing here reads or writes. The files are maps from names to what the
//! files hold, the site is a map from addresses to pages, and a run is
//! driven for a number of steps. What is shown is what a whole run leaves
//! behind: the record that a run writes and when, the pages that it asks
//! for, the bins that it files and saves, and that a run which has failed
//! for want of a page in its first bin has written nothing but images and
//! can be made again.

use crate::data::{date_text, record_synced, FreefallEntry, ReaderEntry};
use crate::freefall::{image_location, PageView};
use crate::plan::{
    bin_file_name, bin_of, image_file_of, is_last_of_bin, page_url_of, unwrapped_feed, ConfigView,
};
use crate::laws::{
    aligned, carries, has_fetched, keeps_step, lemma_begin_carries, lemma_bin_left_in_progress,
    lemma_step_carries, tells,
};
use crate::sync::{
    begin_of, bin_in_hand, parsed_page, step_of, strip_in_hand, ActionView, EventView, Fault,
    Phase, RunView, Waiting,
};
use vstd::prelude::*;

verus! {

/// What is asked of the site, and what it answers.
pub struct Site {
    /// The text of the feed.
    pub feed: Seq<char>,
    /// The entries that the feed's JSON is read as.
    pub entries: Seq<FreefallEntry>,
    /// The pages that can be fetched, by their addresses; an address that
    /// is not among them cannot be fetched.
    pub pages: Map<Seq<char>, Seq<char>>,
    /// The time.
    pub now: i64,
}

/// The record and the bins as they are kept.
pub struct Files {
    /// The local record.
    pub record: Seq<ReaderEntry>,
    /// The bins in progress, by the names of their files.
    pub in_progress: Map<Seq<char>, Seq<Option<Seq<char>>>>,
    /// The bins that are done, by the names of their files.
    pub filed: Map<Seq<char>, Seq<Option<Seq<char>>>>,
}

/// What the driver has in hand while it drives a run.
pub struct Hand {
    /// The record and the bins.
    pub files: Files,
    /// The images that the run has saved, by the names of their files:
    /// each is known by the address that it was fetched from.
    pub images: Map<Seq<char>, Seq<char>>,
    /// The address of the image that was fetched last and is not saved
    /// yet.
    pub held: Option<Seq<char>>,
}

/// Whether carrying out `action` writes or removes a file other than an
/// image.
pub open spec fn touches_files(action: ActionView) -> bool {
    action is FileBin || action is RemoveBin || action is SaveBin || action is SaveRecord
}

/// Whether a run that is asked `action` is over.
pub open spec fn is_closing(action: ActionView) -> bool {
    action is Finish || action is Abort
}

/// That an action could not be carried out, for the reason `fault`.
pub open spec fn fault_of(fault: Fault) -> EventView {
    EventView::Failed { fault, detail: Seq::empty() }
}

/// What carrying out `action` brings, and what the driver has in hand
/// after it. A file that is written replaces the file of the same name; a
/// bin in progress without a file is answered with none; a page that the
/// site does not have, and a file to be removed that is not there, cannot
/// be had.
pub open spec fn answer_of(site: Site, hand: Hand, s: RunView, action: ActionView) -> (
    EventView,
    Hand,
) {
    match action {
        ActionView::FetchFeed { url } => (EventView::Text(site.feed), hand),
        ActionView::ParseFeed { json } => (EventView::Feed(site.entries), hand),
        ActionView::LoadRecord => (EventView::Record(hand.files.record), hand),
        ActionView::LoadBin { index, file } => (
            EventView::Bin(
                if hand.files.in_progress.dom().contains(file) {
                    Some(hand.files.in_progress[file])
                } else {
                    None
                },
            ),
            hand,
        ),
        ActionView::FetchPage { number, url } => if site.pages.dom().contains(url) {
            (EventView::Text(site.pages[url]), hand)
        } else {
            (fault_of(Fault::Network), hand)
        },
        ActionView::FetchImage { url } => (EventView::Completed, Hand { held: Some(url), ..hand }),
        ActionView::SaveImage { file } => match hand.held {
            Some(url) => (
                EventView::Completed,
                Hand { images: hand.images.insert(file, url), held: None, ..hand },
            ),
            None => (fault_of(Fault::Io), hand),
        },
        ActionView::FileBin { index, file } => (
            EventView::Completed,
            Hand { files: Files { filed: hand.files.filed.insert(file, s.bin), ..hand.files }, ..hand },
        ),
        ActionView::RemoveBin { index, file } => if hand.files.in_progress.dom().contains(file) {
            (
                EventView::Completed,
                Hand {
                    files: Files {
                        in_progress: hand.files.in_progress.remove(file),
                        ..hand.files
                    },
                    ..hand
                },
            )
        } else {
            (fault_of(Fault::Io), hand)
        },
        ActionView::SaveBin { index, file } => (
            EventView::Completed,
            Hand {
                files: Files {
                    in_progress: hand.files.in_progress.insert(file, s.bin),
                    ..hand.files
                },
                ..hand
            },
        ),
        ActionView::ReadClock => (EventView::Time(site.now), hand),
        ActionView::SaveRecord => (
            EventView::Completed,
            Hand { files: Files { record: s.record, ..hand.files }, ..hand },
        ),
        ActionView::Finish => (EventView::Completed, hand),
        ActionView::Abort => (EventView::Completed, hand),
    }
}

/// The run `s`, which has asked for `action`, driven for `steps` steps at
/// most: where it has come to, and what the driver has in hand then. A run
/// that is over is driven no further.
pub open spec fn driven(site: Site, hand: Hand, s: RunView, action: ActionView, steps: nat) -> (
    Hand,
    RunView,
)
    decreases steps,
{
    if steps == 0 || is_closing(action) {
        (hand, s)
    } else {
        let (event, held) = answer_of(site, hand, s, action);
        let (next, asked) = step_of(s, event);
        driven(site, held, next, asked, (steps - 1) as nat)
    }
}

/// A run from its beginning over `files`, driven for `steps` steps at most.
pub open spec fn run_over(config: ConfigView, site: Site, files: Files, steps: nat) -> (
    Hand,
    RunView,
) {
    driven(
        site,
        Hand { files, images: Map::empty(), held: None },
        begin_of(config).0,
        begin_of(config).1,
        steps,
    )
}

/// Whether a run is asked for nothing that touches the record or a bin, as
/// far as it is driven.
pub open spec fn leaves_files(
    site: Site,
    hand: Hand,
    s: RunView,
    action: ActionView,
    steps: nat,
) -> bool
    decreases steps,
{
    if steps == 0 || is_closing(action) {
        true
    } else {
        let (event, held) = answer_of(site, hand, s, action);
        let (next, asked) = step_of(s, event);
        !touches_files(action) && leaves_files(site, held, next, asked, (steps - 1) as nat)
    }
}

/// The images on disk after a run: those that were there, with those that
/// the run has saved in place of the ones of their names.
pub open spec fn images_after(
    before: Map<Seq<char>, Seq<char>>,
    saved: Map<Seq<char>, Seq<char>>,
) -> Map<Seq<char>, Seq<char>> {
    before.union_prefer_right(saved)
}

/// Whether the site `less` is the site `more` with some of its pages taken
/// away.
pub open spec fn lacks_pages(less: Site, more: Site) -> bool {
    &&& less.feed == more.feed
    &&& less.entries == more.entries
    &&& less.now == more.now
    &&& less.pages.submap_of(more.pages)
}

/// Only four actions touch the record or a bin: a run that is asked for
/// none of them leaves the record and the bins as they were.
pub proof fn lemma_files_are_left(
    site: Site,
    hand: Hand,
    s: RunView,
    action: ActionView,
    steps: nat,
)
    requires
        leaves_files(site, hand, s, action, steps),
    ensures
        driven(site, hand, s, action, steps).0.files == hand.files,
    decreases steps,
{
    if steps == 0 || is_closing(action) {
    } else {
        let (event, held) = answer_of(site, hand, s, action);
        let (next, asked) = step_of(s, event);
        lemma_files_are_left(site, held, next, asked, (steps - 1) as nat);
    }
}

/// A run loses no image that it has saved.
pub proof fn lemma_images_are_kept(
    site: Site,
    hand: Hand,
    s: RunView,
    action: ActionView,
    steps: nat,
)
    ensures
        hand.images.dom().subset_of(driven(site, hand, s, action, steps).0.images.dom()),
    decreases steps,
{
    if steps == 0 || is_closing(action) {
    } else {
        let (event, held) = answer_of(site, hand, s, action);
        let (next, asked) = step_of(s, event);
        lemma_images_are_kept(site, held, next, asked, (steps - 1) as nat);
    }
}

/// A run over a site that lacks pages saves no image under a name under
/// which the run over the whole site saves none: until a page is lacking
/// the two runs are one, and then the one is over and the other goes on.
pub proof fn lemma_images_of_a_failed_run(
    less: Site,
    more: Site,
    hand: Hand,
    s: RunView,
    action: ActionView,
    steps: nat,
)
    requires
        lacks_pages(less, more),
    ensures
        driven(less, hand, s, action, steps).0.images.dom().subset_of(
            driven(more, hand, s, action, steps).0.images.dom(),
        ),
    decreases steps,
{
    if steps == 0 || is_closing(action) {
    } else {
        let (event, held) = answer_of(more, hand, s, action);
        let (next, asked) = step_of(s, event);
        if answer_of(less, hand, s, action) == answer_of(more, hand, s, action) {
            lemma_images_of_a_failed_run(less, more, held, next, asked, (steps - 1) as nat);
        } else {
            let (lost, same) = answer_of(less, hand, s, action);
            assert(action is FetchPage);
            assert(lost == fault_of(Fault::Network) && same == hand);
            let (failed, last) = step_of(s, lost);
            assert(is_closing(last));
            assert(driven(less, hand, s, action, steps).0 == hand) by {
                reveal_with_fuel(driven, 2);
            }
            lemma_images_are_kept(more, hand, s, action, steps);
        }
    }
}

/// Whether the run `s`, which has asked for `action`, stands to the record
/// as a run over `site` does that began with the record `loaded` on disk:
/// until the record is saved it is on disk as it was, the run holds it as
/// it was from when it has come until the time has come, and then with its
/// last entry brought to the newest strip of the site and to the time.
pub open spec fn keeps_record(
    site: Site,
    loaded: Seq<ReaderEntry>,
    hand: Hand,
    s: RunView,
    action: ActionView,
) -> bool {
    let synced = record_synced(loaded, site.entries.last().i, site.now);
    &&& s.wf()
    &&& action is SaveRecord <==> s.waiting == Waiting::RecordSaved
    &&& action is ReadClock <==> s.waiting == Waiting::Time
    &&& action is LoadRecord <==> s.waiting == Waiting::Record
    &&& action is ParseFeed <==> s.waiting == Waiting::FeedEntries
    &&& is_closing(action) <==> s.waiting == Waiting::Nothing
    &&& s.phase != Phase::Done ==> hand.files.record == loaded
    &&& s.phase == Phase::Done ==> hand.files.record == synced && s.record == synced
    &&& s.waiting == Waiting::RecordSaved ==> s.record == synced
    &&& s.waiting != Waiting::Feed && s.waiting != Waiting::FeedEntries && s.waiting
        != Waiting::Nothing ==> site.entries.len() > 0 && s.latest == site.entries.last().i
    &&& s.phase == Phase::Syncing || s.waiting == Waiting::BinSaved || s.waiting == Waiting::Time
        ==> s.record == loaded
}

/// A step of a run that is driven leaves it standing to the record as it
/// did.
#[verifier::rlimit(100)]
proof fn lemma_step_keeps_record(
    site: Site,
    loaded: Seq<ReaderEntry>,
    hand: Hand,
    s: RunView,
    action: ActionView,
)
    requires
        keeps_record(site, loaded, hand, s, action),
        !is_closing(action),
    ensures
        ({
            let (event, held) = answer_of(site, hand, s, action);
            let (next, asked) = step_of(s, event);
            keeps_record(site, loaded, held, next, asked)
        }),
{
}

/// A run that is driven goes on standing to the record as it did.
proof fn lemma_driven_keeps_record(
    site: Site,
    loaded: Seq<ReaderEntry>,
    hand: Hand,
    s: RunView,
    action: ActionView,
    steps: nat,
)
    requires
        keeps_record(site, loaded, hand, s, action),
    ensures
        ({
            let (last, end) = driven(site, hand, s, action, steps);
            &&& end.phase != Phase::Done ==> last.files.record == loaded
            &&& end.phase == Phase::Done ==> loaded.len() > 0 && last.files.record
                == record_synced(loaded, site.entries.last().i, site.now)
        }),
    decreases steps,
{
    if steps == 0 || is_closing(action) {
    } else {
        let (event, held) = answer_of(site, hand, s, action);
        let (next, asked) = step_of(s, event);
        lemma_step_keeps_record(site, loaded, hand, s, action);
        lemma_driven_keeps_record(site, loaded, held, next, asked, (steps - 1) as nat);
    }
}

/// The record is written once, when the run is done: as far as a run is
/// driven, the record on disk is as it was until the run is done, and
/// after a run that is done it is the record as it was with its last entry
/// brought to the newest strip of the site and to the time at which the
/// site was asked, every earlier entry and every other field as loaded.
pub proof fn lemma_record_of_a_run(config: ConfigView, site: Site, files: Files, steps: nat)
    ensures
        ({
            let (last, end) = run_over(config, site, files, steps);
            let newest = site.entries.last().i;
            &&& end.phase != Phase::Done ==> last.files.record == files.record
            &&& end.phase == Phase::Done ==> {
                &&& files.record.len() > 0
                &&& last.files.record == files.record.update(
                    files.record.len() - 1,
                    ReaderEntry { i: newest, checked: Some(site.now), ..files.record.last() },
                )
            }
        }),
{
    let start = Hand { files, images: Map::empty(), held: None };
    lemma_driven_keeps_record(
        site,
        files.record,
        start,
        begin_of(config).0,
        begin_of(config).1,
        steps,
    );
}

/// The newest strip of the site.
pub open spec fn newest(site: Site) -> int {
    site.entries.last().i as int
}

/// The newest strip that the local copy holds.
pub open spec fn newest_held(files: Files) -> int {
    files.record.last().i as int
}

/// What the bin of strip `n` is to hold for it after a run over `site` and
/// `files`: for a strip that the local copy lacks, the date of its page on
/// the site as it is written, and for an earlier strip what the bin in
/// progress holds for it.
pub open spec fn entry_after(config: ConfigView, site: Site, files: Files, n: int) -> Option<
    Seq<char>,
> {
    if n > newest_held(files) {
        match parsed_page(
            site.pages[page_url_of(config, n, newest(site))],
            config.navigation,
        ) {
            Ok(page) => Some(date_text(page.date)),
            Err(_) => None,
        }
    } else {
        let bin = files.in_progress[bin_file_name(bin_of(newest_held(files)))];
        let k = n - 100 * bin_of(newest_held(files));
        if 0 <= k < bin.len() {
            bin[k]
        } else {
            None
        }
    }
}

/// What each bin is to hold for each strip after a run over `site` and
/// `files`.
pub open spec fn entries_after(config: ConfigView, site: Site, files: Files) -> spec_fn(
    int,
) -> Option<Seq<char>> {
    |n: int| entry_after(config, site, files, n)
}

/// Whether the local copy is in step with itself and with the site: the
/// record and the feed hold an entry, the local copy holds strip 0 or a
/// later one and is not ahead of the site, and where strips are lacking
/// after a strip that is not the last of its bin, the bin in progress of
/// that strip is there and holds an entry for each strip of the bin up to
/// it.
pub open spec fn in_step(site: Site, files: Files) -> bool {
    &&& files.record.len() > 0
    &&& site.entries.len() > 0
    &&& 0 <= newest_held(files) <= newest(site)
    &&& newest_held(files) < newest(site) && !is_last_of_bin(newest_held(files)) ==> {
        let file = bin_file_name(bin_of(newest_held(files)));
        &&& files.in_progress.dom().contains(file)
        &&& files.in_progress[file].len() == newest_held(files) % 100 + 1
    }
}

/// Whether `bins` holds the bin `index` with `len` entries, each of them
/// what its strip is to have after a run over `site` and `files`.
pub open spec fn holds_bin(
    bins: Map<Seq<char>, Seq<Option<Seq<char>>>>,
    index: int,
    len: int,
    config: ConfigView,
    site: Site,
    files: Files,
) -> bool {
    &&& bins.dom().contains(bin_file_name(index))
    &&& bins[bin_file_name(index)].len() == len
    &&& forall|k: int|
        0 <= k < len ==> #[trigger] bins[bin_file_name(index)][k] == entry_after(
            config,
            site,
            files,
            100 * index + k,
        )
}

/// Whether `action` is what a run that waits as `s` does has asked for.
pub open spec fn fits(s: RunView, action: ActionView) -> bool {
    match s.waiting {
        Waiting::Feed => action is FetchFeed,
        Waiting::FeedEntries => action is ParseFeed,
        Waiting::Record => action is LoadRecord,
        Waiting::Bin => action == (ActionView::LoadBin {
            index: bin_of(s.last_known as int) as i32,
            file: bin_file_name(bin_of(s.last_known as int)),
        }) && !is_last_of_bin(s.last_known as int),
        Waiting::PageBody => action == (ActionView::FetchPage {
            number: s.current,
            url: page_url_of(s.config, s.current as int, s.latest as int),
        }),
        Waiting::Image => action is FetchImage,
        Waiting::ImageSaved => action is SaveImage,
        Waiting::BinFiled => action == (ActionView::FileBin {
            index: bin_of(s.current as int) as i32,
            file: bin_file_name(bin_of(s.current as int)),
        }),
        Waiting::BinRemoved => action == (ActionView::RemoveBin {
            index: bin_of(s.current as int) as i32,
            file: bin_file_name(bin_of(s.current as int)),
        }),
        Waiting::BinSaved => action == (ActionView::SaveBin {
            index: bin_of(s.latest as int) as i32,
            file: bin_file_name(bin_of(s.latest as int)),
        }),
        Waiting::Time => action is ReadClock,
        Waiting::RecordSaved => action is SaveRecord,
        Waiting::Nothing => is_closing(action),
    }
}

/// Whether the run `s`, which has asked for `action`, is on its course
/// over `site` and `files`, a run in which one bin is completed at most:
/// it knows the site and the local copy as they are, its bin holds what
/// it is to hold, nothing is written before the strips are fetched, the
/// bin that was completed is filed as it is to be, and the bin that was
/// left in progress is saved as the run holds it.
pub open spec fn on_course(
    config: ConfigView,
    site: Site,
    files: Files,
    hand: Hand,
    s: RunView,
    action: ActionView,
) -> bool {
    let first = bin_of(newest_held(files) + 1);
    &&& in_step(site, files)
    &&& newest(site) < 100 * first + 199
    &&& s.wf()
    &&& s.config == config
    &&& fits(s, action)
    &&& carries(s, entries_after(config, site, files))
    &&& s.phase != Phase::Failed ==> {
        &&& s.waiting != Waiting::Feed && s.waiting != Waiting::FeedEntries ==> s.latest == newest(
            site,
        )
        &&& s.waiting != Waiting::Feed && s.waiting != Waiting::FeedEntries && s.waiting
            != Waiting::Record ==> s.last_known == newest_held(files)
        &&& s.phase == Phase::CheckUpToDate || s.waiting == Waiting::Bin ==> hand.files.in_progress
            == files.in_progress && hand.files.filed == files.filed
        &&& s.waiting == Waiting::Feed || s.waiting == Waiting::FeedEntries || s.waiting
            == Waiting::Record ==> hand.files.record == files.record
        &&& s.waiting == Waiting::BinRemoved || (strip_in_hand(s.waiting) && s.current > 100 * first
            + 99) || (has_fetched(s) && s.current >= 100 * first + 99) ==> holds_bin(
            hand.files.filed,
            first,
            100,
            config,
            site,
            files,
        )
        &&& has_fetched(s) && s.waiting != Waiting::BinSaved && s.bin.len() > 0 ==> {
            let file = bin_file_name(bin_of(newest(site)));
            hand.files.in_progress.dom().contains(file) && hand.files.in_progress[file] == s.bin
        }
    }
}

/// Whether the step that follows leaves a run on its course.
pub open spec fn stays_on_course(
    config: ConfigView,
    site: Site,
    files: Files,
    hand: Hand,
    s: RunView,
    action: ActionView,
) -> bool {
    let (event, held) = answer_of(site, hand, s, action);
    let (next, asked) = step_of(s, event);
    on_course(config, site, files, held, next, asked)
}

/// A run on its course that reads the feed, the record or the bin in
/// progress stays on its course.
#[verifier::rlimit(100)]
proof fn lemma_reading_stays_on_course(
    config: ConfigView,
    site: Site,
    files: Files,
    hand: Hand,
    s: RunView,
    action: ActionView,
)
    requires
        on_course(config, site, files, hand, s, action),
        s.waiting == Waiting::Feed || s.waiting == Waiting::FeedEntries || s.waiting
            == Waiting::Record || s.waiting == Waiting::Bin,
    ensures
        stays_on_course(config, site, files, hand, s, action),
{
    let entries = entries_after(config, site, files);
    let event = answer_of(site, hand, s, action).0;
    assert(keeps_step(s, event));
    assert(tells(s, event, entries));
    lemma_step_carries(s, event, entries);
}

/// A run on its course whose page comes stays on its course.
#[verifier::rlimit(100)]
proof fn lemma_page_stays_on_course(
    config: ConfigView,
    site: Site,
    files: Files,
    hand: Hand,
    s: RunView,
    action: ActionView,
)
    requires
        on_course(config, site, files, hand, s, action),
        s.waiting == Waiting::PageBody,
    ensures
        stays_on_course(config, site, files, hand, s, action),
{
    let entries = entries_after(config, site, files);
    let event = answer_of(site, hand, s, action).0;
    assert(keeps_step(s, event));
    assert(tells(s, event, entries));
    lemma_step_carries(s, event, entries);
}

/// A run on its course whose image comes stays on its course.
#[verifier::rlimit(100)]
proof fn lemma_image_stays_on_course(
    config: ConfigView,
    site: Site,
    files: Files,
    hand: Hand,
    s: RunView,
    action: ActionView,
)
    requires
        on_course(config, site, files, hand, s, action),
        s.waiting == Waiting::Image,
    ensures
        stays_on_course(config, site, files, hand, s, action),
{
    let entries = entries_after(config, site, files);
    let event = answer_of(site, hand, s, action).0;
    assert(keeps_step(s, event));
    assert(tells(s, event, entries));
    lemma_step_carries(s, event, entries);
}

/// A run on its course whose image is saved stays on its course.
#[verifier::rlimit(100)]
proof fn lemma_saved_image_stays_on_course(
    config: ConfigView,
    site: Site,
    files: Files,
    hand: Hand,
    s: RunView,
    action: ActionView,
)
    requires
        on_course(config, site, files, hand, s, action),
        s.waiting == Waiting::ImageSaved,
    ensures
        stays_on_course(config, site, files, hand, s, action),
{
    let entries = entries_after(config, site, files);
    let event = answer_of(site, hand, s, action).0;
    assert(keeps_step(s, event));
    assert(tells(s, event, entries));
    lemma_step_carries(s, event, entries);
}

/// A run on its course that puts a full bin away stays on its course.
#[verifier::rlimit(100)]
proof fn lemma_filing_stays_on_course(
    config: ConfigView,
    site: Site,
    files: Files,
    hand: Hand,
    s: RunView,
    action: ActionView,
)
    requires
        on_course(config, site, files, hand, s, action),
        bin_in_hand(s.waiting),
    ensures
        stays_on_course(config, site, files, hand, s, action),
{
    let entries = entries_after(config, site, files);
    let event = answer_of(site, hand, s, action).0;
    assert(keeps_step(s, event));
    assert(tells(s, event, entries));
    lemma_step_carries(s, event, entries);
}

/// A run on its course that has fetched its strips stays on its course.
#[verifier::rlimit(100)]
proof fn lemma_closing_stays_on_course(
    config: ConfigView,
    site: Site,
    files: Files,
    hand: Hand,
    s: RunView,
    action: ActionView,
)
    requires
        on_course(config, site, files, hand, s, action),
        s.waiting == Waiting::BinSaved || s.waiting == Waiting::Time || s.waiting
            == Waiting::RecordSaved,
    ensures
        stays_on_course(config, site, files, hand, s, action),
{
    let entries = entries_after(config, site, files);
    let event = answer_of(site, hand, s, action).0;
    assert(keeps_step(s, event));
    assert(tells(s, event, entries));
    lemma_step_carries(s, event, entries);
}

/// A step of a run that is on its course leaves it on its course.
proof fn lemma_step_stays_on_course(
    config: ConfigView,
    site: Site,
    files: Files,
    hand: Hand,
    s: RunView,
    action: ActionView,
)
    requires
        on_course(config, site, files, hand, s, action),
        !is_closing(action),
    ensures
        stays_on_course(config, site, files, hand, s, action),
{
    if s.waiting == Waiting::PageBody {
        lemma_page_stays_on_course(config, site, files, hand, s, action);
    } else if s.waiting == Waiting::Image {
        lemma_image_stays_on_course(config, site, files, hand, s, action);
    } else if s.waiting == Waiting::ImageSaved {
        lemma_saved_image_stays_on_course(config, site, files, hand, s, action);
    } else if bin_in_hand(s.waiting) {
        lemma_filing_stays_on_course(config, site, files, hand, s, action);
    } else if s.waiting == Waiting::BinSaved || s.waiting == Waiting::Time || s.waiting
        == Waiting::RecordSaved {
        lemma_closing_stays_on_course(config, site, files, hand, s, action);
    } else {
        lemma_reading_stays_on_course(config, site, files, hand, s, action);
    }
}

/// A run that is on its course and is driven stays on its course.
proof fn lemma_driven_stays_on_course(
    config: ConfigView,
    site: Site,
    files: Files,
    hand: Hand,
    s: RunView,
    action: ActionView,
    steps: nat,
)
    requires
        on_course(config, site, files, hand, s, action),
    ensures
        ({
            let (last, end) = driven(site, hand, s, action, steps);
            exists|asked: ActionView| on_course(config, site, files, last, end, asked)
        }),
    decreases steps,
{
    if steps == 0 || is_closing(action) {
    } else {
        let (event, held) = answer_of(site, hand, s, action);
        let (next, asked) = step_of(s, event);
        lemma_step_stays_on_course(config, site, files, hand, s, action);
        lemma_driven_stays_on_course(config, site, files, held, next, asked, (steps - 1) as nat);
    }
}

/// A run begins on its course.
proof fn lemma_begins_on_course(config: ConfigView, site: Site, files: Files)
    requires
        in_step(site, files),
        newest(site) < 100 * bin_of(newest_held(files) + 1) + 199,
    ensures
        on_course(
            config,
            site,
            files,
            Hand { files, images: Map::empty(), held: None },
            begin_of(config).0,
            begin_of(config).1,
        ),
{
    lemma_begin_carries(config, entries_after(config, site, files));
}

/// A run on its course that is done has its bins on disk as they are to
/// be.
proof fn lemma_course_ends(
    config: ConfigView,
    site: Site,
    files: Files,
    hand: Hand,
    s: RunView,
    action: ActionView,
)
    requires
        on_course(config, site, files, hand, s, action),
        s.phase == Phase::Done,
        newest_held(files) < newest(site),
    ensures
        newest(site) >= 100 * bin_of(newest_held(files) + 1) + 99 ==> holds_bin(
            hand.files.filed,
            bin_of(newest_held(files) + 1),
            100,
            config,
            site,
            files,
        ),
        newest(site) % 100 != 99 ==> holds_bin(
            hand.files.in_progress,
            bin_of(newest(site)),
            newest(site) % 100 + 1,
            config,
            site,
            files,
        ),
{
    lemma_bin_left_in_progress(s, entries_after(config, site, files));
}

/// The bins of a run. After a run that is done, over a local copy that
/// lacked strips of which one bin at most is completed, the bins on disk
/// hold the dates of their own strips: where the run has fetched the last
/// strip of a bin, that bin is filed with its hundred entries; where the
/// newest strip is not the last of its bin, the bin in progress of the
/// newest strip holds an entry for each strip of its bin up to the newest;
/// and each entry of either is the date of its strip, or for a strip that
/// the local copy held what the bin in progress held for it.
pub proof fn lemma_bins_of_a_run(config: ConfigView, site: Site, files: Files, steps: nat)
    requires
        in_step(site, files),
        newest(site) < 100 * bin_of(newest_held(files) + 1) + 199,
    ensures
        ({
            let (last, end) = run_over(config, site, files, steps);
            let first = bin_of(newest_held(files) + 1);
            end.phase == Phase::Done && newest_held(files) < newest(site) ==> {
                &&& newest(site) >= 100 * first + 99 ==> holds_bin(
                    last.files.filed,
                    first,
                    100,
                    config,
                    site,
                    files,
                )
                &&& newest(site) % 100 != 99 ==> holds_bin(
                    last.files.in_progress,
                    bin_of(newest(site)),
                    newest(site) % 100 + 1,
                    config,
                    site,
                    files,
                )
            }
        }),
{
    let start = Hand { files, images: Map::empty(), held: None };
    lemma_begins_on_course(config, site, files);
    lemma_driven_stays_on_course(
        config,
        site,
        files,
        start,
        begin_of(config).0,
        begin_of(config).1,
        steps,
    );
    let (last, end) = run_over(config, site, files, steps);
    if end.phase == Phase::Done && newest_held(files) < newest(site) {
        let asked = choose|asked: ActionView| on_course(config, site, files, last, end, asked);
        lemma_course_ends(config, site, files, last, end, asked);
    }
}

/// The pages that a run asks for, in the order in which it asks, as far as
/// it is driven: each with the number of its strip and its address.
pub open spec fn pages_asked(
    site: Site,
    hand: Hand,
    s: RunView,
    action: ActionView,
    steps: nat,
) -> Seq<(int, Seq<char>)>
    decreases steps,
{
    if steps == 0 || is_closing(action) {
        Seq::empty()
    } else {
        let (event, held) = answer_of(site, hand, s, action);
        let (next, asked) = step_of(s, event);
        let rest = pages_asked(site, held, next, asked, (steps - 1) as nat);
        match action {
            ActionView::FetchPage { number, url } => seq![(number as int, url)] + rest,
            _ => rest,
        }
    }
}

/// The pages of the strips from `from` to `to`, one after the other, each
/// with its number and its address where `to` is the newest strip.
pub open spec fn pages_of(config: ConfigView, from: int, to: int) -> Seq<(int, Seq<char>)>
    decreases to - from + 1,
{
    if from > to {
        Seq::empty()
    } else {
        seq![(from, page_url_of(config, from, to))] + pages_of(config, from + 1, to)
    }
}

/// The strip whose page a run on its course asks for next, if it asks for
/// one: the strip after `last_known` before the first is asked for, the
/// strip in hand while its page is asked for, the strip after it once its
/// page has come, and a strip after the newest once the run has fetched
/// its strips.
pub open spec fn next_page(s: RunView, last_known: int) -> int {
    match s.waiting {
        Waiting::Feed | Waiting::FeedEntries | Waiting::Record | Waiting::Bin => last_known + 1,
        Waiting::PageBody => s.current as int,
        Waiting::Image | Waiting::ImageSaved | Waiting::BinFiled | Waiting::BinRemoved => s.current
            + 1,
        _ => s.latest + 1,
    }
}

/// Whether the run `s`, which has asked for `action`, is heading for the
/// newest strip of `site` from the record `loaded`: it stands to the
/// record as a run does, it has asked for what it waits for, and the strip
/// in hand is not after the newest.
pub open spec fn heading(
    config: ConfigView,
    site: Site,
    loaded: Seq<ReaderEntry>,
    hand: Hand,
    s: RunView,
    action: ActionView,
) -> bool {
    &&& keeps_record(site, loaded, hand, s, action)
    &&& s.config == config
    &&& fits(s, action)
    &&& strip_in_hand(s.waiting) || bin_in_hand(s.waiting) ==> s.current <= s.latest
    &&& s.phase == Phase::Finalizing || s.phase == Phase::Done || s.waiting == Waiting::Time
        || s.waiting == Waiting::RecordSaved ==> s.latest == newest(site)
}

/// A step of a run that is heading for the newest strip leaves it heading
/// there, unless it fails the run; and it asks for a page exactly where
/// the run waits for one, which is then the page of the next strip.
#[verifier::rlimit(100)]
proof fn lemma_step_keeps_heading(
    config: ConfigView,
    site: Site,
    loaded: Seq<ReaderEntry>,
    hand: Hand,
    s: RunView,
    action: ActionView,
)
    requires
        heading(config, site, loaded, hand, s, action),
        !is_closing(action),
    ensures
        ({
            let (event, held) = answer_of(site, hand, s, action);
            let (next, asked) = step_of(s, event);
            let last_known = loaded.last().i as int;
            &&& is_closing(asked) <==> next.waiting == Waiting::Nothing
            &&& next.phase != Phase::Failed ==> {
                &&& heading(config, site, loaded, held, next, asked)
                &&& if s.waiting == Waiting::PageBody {
                    &&& action == (ActionView::FetchPage {
                        number: s.current,
                        url: page_url_of(config, s.current as int, newest(site)),
                    })
                    &&& s.current <= newest(site)
                    &&& next_page(next, last_known) == s.current + 1
                } else {
                    &&& !(action is FetchPage)
                    &&& next_page(next, last_known) == next_page(s, last_known) || (next_page(
                        next,
                        last_known,
                    ) > newest(site) && next_page(s, last_known) > newest(site))
                }
            }
        }),
{
    lemma_step_keeps_record(site, loaded, hand, s, action);
}

/// A run that is heading for the newest strip and comes to be done has
/// asked for the pages of the strips from the next one to the newest, one
/// after the other, and for no other page.
proof fn lemma_pages_of_a_heading_run(
    config: ConfigView,
    site: Site,
    loaded: Seq<ReaderEntry>,
    hand: Hand,
    s: RunView,
    action: ActionView,
    steps: nat,
)
    requires
        heading(config, site, loaded, hand, s, action),
    ensures
        driven(site, hand, s, action, steps).1.phase == Phase::Done ==> pages_asked(
            site,
            hand,
            s,
            action,
            steps,
        ) == pages_of(config, next_page(s, loaded.last().i as int), newest(site)),
    decreases steps,
{
    let last_known = loaded.last().i as int;
    let to = newest(site);
    if steps == 0 || is_closing(action) {
        if s.phase == Phase::Done {
            assert(next_page(s, last_known) > to);
        }
    } else {
        let (event, held) = answer_of(site, hand, s, action);
        let (next, asked) = step_of(s, event);
        lemma_step_keeps_heading(config, site, loaded, hand, s, action);
        if next.phase == Phase::Failed {
            assert(driven(site, held, next, asked, (steps - 1) as nat).1 == next);
        } else {
            lemma_pages_of_a_heading_run(config, site, loaded, held, next, asked, (steps - 1) as nat);
        }
    }
}

/// The pages of a run. A run that is done has asked for the page of each
/// strip after the newest that the local copy held, up to the newest of
/// the site, once and in the order of the strips, each at the address of
/// its strip, and for no other page.
pub proof fn lemma_pages_of_a_run(config: ConfigView, site: Site, files: Files, steps: nat)
    ensures
        run_over(config, site, files, steps).1.phase == Phase::Done ==> pages_asked(
            site,
            Hand { files, images: Map::empty(), held: None },
            begin_of(config).0,
            begin_of(config).1,
            steps,
        ) == pages_of(config, newest_held(files) + 1, newest(site)),
{
    lemma_pages_of_a_heading_run(
        config,
        site,
        files.record,
        Hand { files, images: Map::empty(), held: None },
        begin_of(config).0,
        begin_of(config).1,
        steps,
    );
}

/// Whether the site has a page for strip `n` that can be read, with an
/// image that can be had and that is a PNG.
pub open spec fn serves_strip(config: ConfigView, site: Site, n: int) -> bool {
    let url = page_url_of(config, n, newest(site));
    &&& site.pages.dom().contains(url)
    &&& parsed_page(site.pages[url], config.navigation) matches Ok(page) && image_location(
        page,
        false,
        config.origin,
    ) is Ok && image_file_of(page) is Ok
}

/// Whether a run over `site` and `files` finds all that it asks for: the
/// local copy is in step, the feed is wrapped as it is to be, the site
/// serves each strip that the local copy lacks, and where the run fetches
/// the last strip of a bin, the file in progress of that bin is there to
/// be removed.
pub open spec fn is_served(config: ConfigView, site: Site, files: Files) -> bool {
    let first = bin_of(newest_held(files) + 1);
    &&& in_step(site, files)
    &&& unwrapped_feed(site.feed) is Ok
    &&& forall|n: int|
        newest_held(files) < n <= newest(site) ==> #[trigger] serves_strip(config, site, n)
    &&& newest_held(files) < newest(site) && newest(site) >= 100 * first + 99
        ==> files.in_progress.dom().contains(bin_file_name(first))
}

/// How many steps a run that finds all that it asks for has before it at
/// most: five for each strip that is left, and the rest for what comes
/// before the strips and after them.
pub open spec fn steps_left(s: RunView, last_known: int, newest: int) -> int {
    match s.waiting {
        Waiting::Feed => 5 * (newest - last_known) + 10,
        Waiting::FeedEntries => 5 * (newest - last_known) + 9,
        Waiting::Record => 5 * (newest - last_known) + 8,
        Waiting::Bin => 5 * (newest - last_known) + 7,
        Waiting::PageBody => 5 * (newest - s.current) + 9,
        Waiting::Image => 5 * (newest - s.current) + 8,
        Waiting::ImageSaved => 5 * (newest - s.current) + 7,
        Waiting::BinFiled => 5 * (newest - s.current) + 6,
        Waiting::BinRemoved => 5 * (newest - s.current) + 5,
        Waiting::BinSaved => 3,
        Waiting::Time => 2,
        Waiting::RecordSaved => 1,
        Waiting::Nothing => 0,
    }
}

/// The page of strip `n` as the site has it.
pub open spec fn strip_page(config: ConfigView, site: Site, n: int) -> PageView {
    match parsed_page(site.pages[page_url_of(config, n, newest(site))], config.navigation) {
        Ok(page) => page,
        Err(_) => arbitrary(),
    }
}

/// The name of the file under which the image of strip `n` is saved.
pub open spec fn strip_image(config: ConfigView, site: Site, n: int) -> Seq<char> {
    match image_file_of(strip_page(config, site, n)) {
        Ok(file) => file,
        Err(_) => Seq::empty(),
    }
}

/// The first strip whose image a run has not saved yet: the strip in hand
/// while it is being fetched, and the strip after it once its image is
/// saved.
pub open spec fn first_unsaved(s: RunView, last_known: int) -> int {
    match s.waiting {
        Waiting::Feed | Waiting::FeedEntries | Waiting::Record | Waiting::Bin => last_known + 1,
        Waiting::PageBody | Waiting::Image | Waiting::ImageSaved => s.current as int,
        Waiting::BinFiled | Waiting::BinRemoved => s.current + 1,
        _ => s.latest + 1,
    }
}

/// Whether the run `s`, which has asked for `action`, is on its course
/// over a site and files where it finds all that it asks for, and has not
/// failed: the image that is to be saved is in hand, the page in hand is
/// the page of its strip, no bin in progress is written before the first
/// bin is put away, and the image of each strip before the one in hand is
/// saved.
pub open spec fn thrives(
    config: ConfigView,
    site: Site,
    files: Files,
    hand: Hand,
    s: RunView,
    action: ActionView,
) -> bool {
    let first = bin_of(newest_held(files) + 1);
    &&& on_course(config, site, files, hand, s, action)
    &&& is_served(config, site, files)
    &&& s.phase != Phase::Failed
    &&& s.waiting == Waiting::ImageSaved ==> hand.held is Some && action == (ActionView::SaveImage {
        file: strip_image(config, site, s.current as int),
    })
    &&& s.waiting == Waiting::Image || s.waiting == Waiting::ImageSaved ==> s.page == Some(
        strip_page(config, site, s.current as int),
    )
    &&& (strip_in_hand(s.waiting) && s.current <= 100 * first + 99) || bin_in_hand(s.waiting)
        ==> hand.files.in_progress == files.in_progress
    &&& forall|n: int|
        newest_held(files) < n < first_unsaved(s, newest_held(files))
            ==> hand.images.dom().contains(#[trigger] strip_image(config, site, n))
}

/// Whether the step that follows leaves a run thriving, with fewer steps
/// before it.
pub open spec fn goes_on(
    config: ConfigView,
    site: Site,
    files: Files,
    hand: Hand,
    s: RunView,
    action: ActionView,
) -> bool {
    let (event, held) = answer_of(site, hand, s, action);
    let (next, asked) = step_of(s, event);
    &&& thrives(config, site, files, held, next, asked)
    &&& 0 <= steps_left(next, newest_held(files), newest(site)) < steps_left(
        s,
        newest_held(files),
        newest(site),
    )
}

/// A run that thrives goes on when it reads the feed, the record or the
/// bin in progress.
#[verifier::rlimit(100)]
proof fn lemma_reading_goes_on(
    config: ConfigView,
    site: Site,
    files: Files,
    hand: Hand,
    s: RunView,
    action: ActionView,
)
    requires
        thrives(config, site, files, hand, s, action),
        s.waiting == Waiting::Feed || s.waiting == Waiting::FeedEntries || s.waiting
            == Waiting::Record || s.waiting == Waiting::Bin,
    ensures
        goes_on(config, site, files, hand, s, action),
{
    lemma_step_stays_on_course(config, site, files, hand, s, action);
    if strip_in_hand(s.waiting) {
        assert(serves_strip(config, site, s.current as int));
    }
}

/// A run that thrives goes on when its page comes.
#[verifier::rlimit(100)]
proof fn lemma_page_goes_on(
    config: ConfigView,
    site: Site,
    files: Files,
    hand: Hand,
    s: RunView,
    action: ActionView,
)
    requires
        thrives(config, site, files, hand, s, action),
        s.waiting == Waiting::PageBody,
    ensures
        goes_on(config, site, files, hand, s, action),
{
    lemma_step_stays_on_course(config, site, files, hand, s, action);
    if strip_in_hand(s.waiting) {
        assert(serves_strip(config, site, s.current as int));
    }
}

/// A run that thrives goes on when its image comes.
#[verifier::rlimit(100)]
proof fn lemma_image_goes_on(
    config: ConfigView,
    site: Site,
    files: Files,
    hand: Hand,
    s: RunView,
    action: ActionView,
)
    requires
        thrives(config, site, files, hand, s, action),
        s.waiting == Waiting::Image,
    ensures
        goes_on(config, site, files, hand, s, action),
{
    lemma_step_stays_on_course(config, site, files, hand, s, action);
    if strip_in_hand(s.waiting) {
        assert(serves_strip(config, site, s.current as int));
    }
}

/// A run that thrives goes on when its image is saved.
#[verifier::rlimit(100)]
proof fn lemma_saved_image_goes_on(
    config: ConfigView,
    site: Site,
    files: Files,
    hand: Hand,
    s: RunView,
    action: ActionView,
)
    requires
        thrives(config, site, files, hand, s, action),
        s.waiting == Waiting::ImageSaved,
    ensures
        goes_on(config, site, files, hand, s, action),
{
    lemma_step_stays_on_course(config, site, files, hand, s, action);
    if strip_in_hand(s.waiting) {
        assert(serves_strip(config, site, s.current as int));
    }
}

/// A run that thrives goes on when it puts a full bin away.
#[verifier::rlimit(100)]
proof fn lemma_filing_goes_on(
    config: ConfigView,
    site: Site,
    files: Files,
    hand: Hand,
    s: RunView,
    action: ActionView,
)
    requires
        thrives(config, site, files, hand, s, action),
        bin_in_hand(s.waiting),
    ensures
        goes_on(config, site, files, hand, s, action),
{
    lemma_step_stays_on_course(config, site, files, hand, s, action);
    if strip_in_hand(s.waiting) {
        assert(serves_strip(config, site, s.current as int));
    }
}

/// A run that thrives goes on when it has fetched its strips.
#[verifier::rlimit(100)]
proof fn lemma_closing_goes_on(
    config: ConfigView,
    site: Site,
    files: Files,
    hand: Hand,
    s: RunView,
    action: ActionView,
)
    requires
        thrives(config, site, files, hand, s, action),
        s.waiting == Waiting::BinSaved || s.waiting == Waiting::Time || s.waiting
            == Waiting::RecordSaved,
    ensures
        goes_on(config, site, files, hand, s, action),
{
    lemma_step_stays_on_course(config, site, files, hand, s, action);
    if strip_in_hand(s.waiting) {
        assert(serves_strip(config, site, s.current as int));
    }
}

/// A run that thrives is done after the steps that it has before it, and
/// has then saved the image of each strip that the local copy lacked.
proof fn lemma_thriving_run_is_done(
    config: ConfigView,
    site: Site,
    files: Files,
    hand: Hand,
    s: RunView,
    action: ActionView,
    steps: nat,
)
    requires
        thrives(config, site, files, hand, s, action),
        steps >= steps_left(s, newest_held(files), newest(site)),
    ensures
        driven(site, hand, s, action, steps).1.phase == Phase::Done,
        forall|n: int|
            newest_held(files) < n <= newest(site) ==> driven(
                site,
                hand,
                s,
                action,
                steps,
            ).0.images.dom().contains(#[trigger] strip_image(config, site, n)),
    decreases steps,
{
    if is_closing(action) {
    } else {
        if s.waiting == Waiting::PageBody {
            lemma_page_goes_on(config, site, files, hand, s, action);
        } else if s.waiting == Waiting::Image {
            lemma_image_goes_on(config, site, files, hand, s, action);
        } else if s.waiting == Waiting::ImageSaved {
            lemma_saved_image_goes_on(config, site, files, hand, s, action);
        } else if bin_in_hand(s.waiting) {
            lemma_filing_goes_on(config, site, files, hand, s, action);
        } else if s.waiting == Waiting::BinSaved || s.waiting == Waiting::Time || s.waiting
            == Waiting::RecordSaved {
            lemma_closing_goes_on(config, site, files, hand, s, action);
        } else {
            lemma_reading_goes_on(config, site, files, hand, s, action);
        }
        let (event, held) = answer_of(site, hand, s, action);
        let (next, asked) = step_of(s, event);
        lemma_thriving_run_is_done(config, site, files, held, next, asked, (steps - 1) as nat);
    }
}

/// A run that finds all that it asks for is done. Over a site that serves
/// each strip that the local copy lacks, and where one bin at most is
/// completed, a run that is driven for five steps for each such strip and
/// ten more has come to its end without a failure, and has saved the
/// image of each of these strips.
pub proof fn lemma_served_run_is_done(config: ConfigView, site: Site, files: Files, steps: nat)
    requires
        is_served(config, site, files),
        newest(site) < 100 * bin_of(newest_held(files) + 1) + 199,
        steps >= 5 * (newest(site) - newest_held(files)) + 10,
    ensures
        run_over(config, site, files, steps).1.phase == Phase::Done,
        forall|n: int|
            newest_held(files) < n <= newest(site) ==> run_over(
                config,
                site,
                files,
                steps,
            ).0.images.dom().contains(#[trigger] strip_image(config, site, n)),
{
    lemma_begins_on_course(config, site, files);
    lemma_thriving_run_is_done(
        config,
        site,
        files,
        Hand { files, images: Map::empty(), held: None },
        begin_of(config).0,
        begin_of(config).1,
        steps,
    );
}

/// A whole run. Over a site that serves each strip that the local copy
/// lacks, and where one bin at most is completed, a run that is driven to
/// its end is done. It has asked for the page of each of these strips,
/// once and in their order, and for no other; it has saved the image of
/// each; where it has fetched the last strip of a bin, that bin is filed;
/// where the newest strip is not the last of its bin, the bin of the
/// newest strip is saved in progress; each bin holds the dates of its own
/// strips; and the record is as it was but for its last entry, which is at
/// the newest strip and has the time at which the site was asked.
pub proof fn lemma_run_brings_the_copy_up_to_date(
    config: ConfigView,
    site: Site,
    files: Files,
    steps: nat,
)
    requires
        is_served(config, site, files),
        newest(site) < 100 * bin_of(newest_held(files) + 1) + 199,
        steps >= 5 * (newest(site) - newest_held(files)) + 10,
    ensures
        ({
            let start = Hand { files, images: Map::empty(), held: None };
            let (last, end) = run_over(config, site, files, steps);
            let first = bin_of(newest_held(files) + 1);
            &&& end.phase == Phase::Done
            &&& pages_asked(site, start, begin_of(config).0, begin_of(config).1, steps) == pages_of(
                config,
                newest_held(files) + 1,
                newest(site),
            )
            &&& forall|n: int|
                newest_held(files) < n <= newest(site) ==> last.images.dom().contains(
                    #[trigger] strip_image(config, site, n),
                )
            &&& newest_held(files) < newest(site) && newest(site) >= 100 * first + 99 ==> holds_bin(
                last.files.filed,
                first,
                100,
                config,
                site,
                files,
            )
            &&& newest_held(files) < newest(site) && newest(site) % 100 != 99 ==> holds_bin(
                last.files.in_progress,
                bin_of(newest(site)),
                newest(site) % 100 + 1,
                config,
                site,
                files,
            )
            &&& last.files.record == files.record.update(
                files.record.len() - 1,
                ReaderEntry {
                    i: site.entries.last().i,
                    checked: Some(site.now),
                    ..files.record.last()
                },
            )
        }),
{
    lemma_served_run_is_done(config, site, files, steps);
    lemma_pages_of_a_run(config, site, files, steps);
    lemma_bins_of_a_run(config, site, files, steps);
    lemma_record_of_a_run(config, site, files, steps);
}

/// A run that has failed because the page of a strip of its first bin could
/// not be had can be made again. That run is not done, it has left the
/// record and the bins as they were, and the run that is made after it,
/// over the site with all its pages, ends as the run would have ended that
/// had been made in its place: with the same record, the same bins and the
/// same images on disk, the images that the failed run has saved being
/// saved again.
pub proof fn lemma_run_after_failed_run(
    config: ConfigView,
    less: Site,
    more: Site,
    files: Files,
    images: Map<Seq<char>, Seq<char>>,
    lacking: int,
    steps: nat,
)
    requires
        lacks_pages(less, more),
        fails_in_first_bin(config, less, files, lacking),
    ensures
        ({
            let failed = run_over(config, less, files, steps).0;
            let again = run_over(config, more, failed.files, steps);
            let at_once = run_over(config, more, files, steps);
            &&& failed.files == files
            &&& run_over(config, less, files, steps).1.phase != Phase::Done
            &&& again.1 == at_once.1
            &&& again.0.files == at_once.0.files
            &&& images_after(images_after(images, failed.images), again.0.images) == images_after(
                images,
                at_once.0.images,
            )
        }),
{
    let start = Hand { files, images: Map::empty(), held: None };
    lemma_failed_fetch_leaves_files(config, less, files, lacking, steps);
    lemma_images_of_a_failed_run(
        less,
        more,
        start,
        begin_of(config).0,
        begin_of(config).1,
        steps,
    );
    let failed = run_over(config, less, files, steps).0;
    let at_once = run_over(config, more, files, steps);
    assert(images_after(images_after(images, failed.images), at_once.0.images) =~= images_after(
        images,
        at_once.0.images,
    ));
}

/// Whether the run over `files` and `site` is to fetch strip `lacking` in
/// the bin with which it begins, and cannot: the local copy holds strip 0
/// or a later one, the bin in progress holds a date for each strip of its
/// bin up to the newest that the local copy holds, `lacking` is a strip
/// that the local copy lacks and that belongs to the bin of the first such
/// strip, and the site does not have its page.
pub open spec fn fails_in_first_bin(config: ConfigView, site: Site, files: Files, lacking: int) -> bool {
    &&& in_step(site, files)
    &&& newest_held(files) < lacking <= newest(site)
    &&& bin_of(lacking) == bin_of(newest_held(files) + 1)
    &&& !site.pages.dom().contains(page_url_of(config, lacking, newest(site)))
}

/// Whether the run `s`, which has asked for `action`, is on its way to
/// strip `lacking` and has asked for nothing yet but to read and to fetch.
pub open spec fn on_the_way(
    config: ConfigView,
    site: Site,
    hand: Hand,
    s: RunView,
    action: ActionView,
    lacking: int,
) -> bool {
    let last_known = hand.files.record.last().i;
    let latest = site.entries.last().i;
    &&& fails_in_first_bin(config, site, hand.files, lacking)
    &&& s.wf()
    &&& aligned(s)
    &&& s.config == config
    &&& match s.waiting {
        Waiting::Feed => action is FetchFeed,
        Waiting::FeedEntries => action is ParseFeed,
        Waiting::Record => action is LoadRecord && s.latest == latest,
        Waiting::Bin => action == (ActionView::LoadBin {
            index: bin_of(last_known as int) as i32,
            file: bin_file_name(bin_of(last_known as int)),
        }) && s.latest == latest && s.last_known == last_known && !is_last_of_bin(
            last_known as int,
        ),
        Waiting::PageBody => action == (ActionView::FetchPage {
            number: s.current,
            url: page_url_of(config, s.current as int, latest as int),
        }) && s.latest == latest && s.last_known == last_known && last_known < s.current
            <= lacking,
        Waiting::Image => action is FetchImage && s.latest == latest && s.last_known == last_known
            && last_known < s.current < lacking,
        Waiting::ImageSaved => action is SaveImage && s.latest == latest && s.last_known
            == last_known && last_known < s.current < lacking,
        _ => false,
    }
}

/// One step of a run on its way to a strip whose page the site does not
/// have: the record and the bins are not touched, and the run has failed
/// or is still on its way.
#[verifier::rlimit(100)]
proof fn lemma_on_the_way_step(
    config: ConfigView,
    site: Site,
    hand: Hand,
    s: RunView,
    action: ActionView,
    lacking: int,
)
    requires
        on_the_way(config, site, hand, s, action, lacking),
    ensures
        !is_closing(action),
        !touches_files(action),
        ({
            let (event, held) = answer_of(site, hand, s, action);
            let (next, asked) = step_of(s, event);
            &&& held.files == hand.files
            &&& is_closing(asked) ==> next.phase == Phase::Failed
            &&& !is_closing(asked) ==> on_the_way(config, site, held, next, asked, lacking)
        }),
{
}

/// A run on its way to a strip whose page the site does not have asks for
/// nothing that touches the record or a bin, and is never done.
proof fn lemma_on_the_way_leaves_files(
    config: ConfigView,
    site: Site,
    hand: Hand,
    s: RunView,
    action: ActionView,
    lacking: int,
    steps: nat,
)
    requires
        on_the_way(config, site, hand, s, action, lacking),
    ensures
        leaves_files(site, hand, s, action, steps),
        driven(site, hand, s, action, steps).1.phase != Phase::Done,
    decreases steps,
{
    lemma_on_the_way_step(config, site, hand, s, action, lacking);
    if steps > 0 {
        let (event, held) = answer_of(site, hand, s, action);
        let (next, asked) = step_of(s, event);
        if is_closing(asked) {
            assert(leaves_files(site, held, next, asked, (steps - 1) as nat));
            assert(driven(site, held, next, asked, (steps - 1) as nat).1 == next);
        } else {
            lemma_on_the_way_leaves_files(config, site, held, next, asked, lacking, (steps - 1) as nat);
        }
    }
}

/// A run that cannot fetch a strip of the bin with which it begins leaves
/// the record and the bins as they were, however far it is driven, and
/// does not come to be done.
pub proof fn lemma_failed_fetch_leaves_files(
    config: ConfigView,
    site: Site,
    files: Files,
    lacking: int,
    steps: nat,
)
    requires
        fails_in_first_bin(config, site, files, lacking),
    ensures
        run_over(config, site, files, steps).0.files == files,
        run_over(config, site, files, steps).1.phase != Phase::Done,
{
    let start = Hand { files, images: Map::empty(), held: None };
    lemma_on_the_way_leaves_files(
        config,
        site,
        start,
        begin_of(config).0,
        begin_of(config).1,
        lacking,
        steps,
    );
    lemma_files_are_left(site, start, begin_of(config).0, begin_of(config).1, steps);
}

} // verus!
