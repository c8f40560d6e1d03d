//! What holds of every run, whatever its driver answers.

use crate::data::{date_text, record_synced, ReaderEntry};
use crate::error::ErrorView;
use crate::plan::{bin_file_name, bin_of, is_last_of_bin, page_url_of, ConfigView, BIN_SIZE};
use crate::sync::{
    begin_of, bin_in_hand, parsed_page, step_of, strip_in_hand, ActionView, EventView, Fault,
    Phase, RunView, Waiting,
};
use vstd::prelude::*;

verus! {

/// A run begins well.
pub proof fn lemma_begin_is_well_formed(config: ConfigView)
    ensures
        begin_of(config).0.wf(),
        begin_of(config).0.phase == Phase::CheckUpToDate,
{
}

/// A run that is well stays well, whatever comes.
pub proof fn lemma_step_keeps_well_formed(s: RunView, event: EventView)
    requires
        s.wf(),
    ensures
        step_of(s, event).0.wf(),
{
}

/// A bin is filed exactly when it has reached its hundred dates, and it
/// never holds more: a step asks for a bin to be filed exactly if the bin
/// held less than a hundred dates before the step and holds a hundred
/// after it, and it is then filed under the bin of the strip whose date
/// came last.
pub proof fn lemma_bin_is_filed_when_full(s: RunView, event: EventView)
    requires
        s.wf(),
    ensures
        step_of(s, event).0.bin.len() <= BIN_SIZE,
        step_of(s, event).1 is FileBin <==> (s.bin.len() < BIN_SIZE && step_of(s, event).0.bin.len()
            == BIN_SIZE),
        step_of(s, event).1 is FileBin ==> step_of(s, event).1 == (ActionView::FileBin {
            index: bin_of(s.current as int) as i32,
            file: bin_file_name(bin_of(s.current as int)),
        }),
{
}

/// Whether the bin of a run keeps step with its strips: while a strip is
/// being fetched, the bin holds the dates of the strips of the same bin
/// before it, and a bin that is being put away ends with the last strip of
/// its bin.
pub open spec fn aligned(s: RunView) -> bool {
    &&& strip_in_hand(s.waiting) ==> s.current >= 0 && s.bin.len() == s.current % 100
    &&& bin_in_hand(s.waiting) ==> is_last_of_bin(s.current as int)
    &&& s.waiting == Waiting::Bin ==> 0 <= s.last_known < s.latest
}

/// Whether what has come keeps the bin in step with the strips: the local
/// copy is not ahead of the site and holds strip 0 or a later one, and the
/// bin in progress holds a date for each strip of its bin up to the newest
/// that the local copy holds.
pub open spec fn keeps_step(s: RunView, event: EventView) -> bool {
    match event {
        EventView::Record(record) => record.len() > 0 ==> 0 <= record.last().i <= s.latest,
        EventView::Bin(loaded) => loaded matches Some(entries) && entries.len() == s.last_known % 100
            + 1,
        _ => true,
    }
}

/// A bin that keeps step with the strips goes on keeping step.
pub proof fn lemma_step_keeps_aligned(s: RunView, event: EventView)
    requires
        s.wf(),
        aligned(s),
        keeps_step(s, event),
    ensures
        aligned(step_of(s, event).0),
{
}

/// Where the bin keeps step with the strips, a bin is filed exactly after
/// the image of the last strip of a bin is saved, under that strip's
/// number divided by a hundred.
pub proof fn lemma_aligned_bin_is_filed_at_its_last_strip(s: RunView, event: EventView)
    requires
        s.wf(),
        aligned(s),
    ensures
        step_of(s, event).1 is FileBin <==> (s.waiting == Waiting::ImageSaved && event is Completed
            && s.page is Some && is_last_of_bin(s.current as int)),
        step_of(s, event).1 matches ActionView::FileBin { index, .. } ==> index == s.current / 100,
{
}

/// After the last strip of a bin, the bin being filed and its file in
/// progress removed, a new bin begins without a date.
pub proof fn lemma_new_bin_after_full_bin(s: RunView)
    requires
        s.wf(),
        s.waiting == Waiting::BinFiled,
    ensures
        step_of(s, EventView::Completed).1 == (ActionView::RemoveBin {
            index: bin_of(s.current as int) as i32,
            file: bin_file_name(bin_of(s.current as int)),
        }),
        step_of(step_of(s, EventView::Completed).0, EventView::Completed).0.bin.len() == 0,
        s.current < s.latest ==> step_of(
            step_of(s, EventView::Completed).0,
            EventView::Completed,
        ).1 == (ActionView::FetchPage {
            number: (s.current + 1) as i32,
            url: page_url_of(s.config, s.current + 1, s.latest as int),
        }),
{
}

/// The strip whose date stands at place `k` of the bin of a run: while a
/// strip is being fetched the bin ends with the strip before it, and else
/// with the strip that was fetched last.
pub open spec fn strip_at(s: RunView, k: int) -> int {
    if strip_in_hand(s.waiting) {
        s.current - s.bin.len() + k
    } else {
        s.current + 1 - s.bin.len() + k
    }
}

/// Whether a run has fetched the strips that the local copy lacked.
pub open spec fn has_fetched(s: RunView) -> bool {
    s.phase == Phase::Finalizing || (s.phase == Phase::Done && s.last_known != s.latest)
}

/// Whether the bin of a run holds for each strip what `entries` gives for
/// it, `entries` giving for each strip what its bin is to hold: for a
/// strip that the run fetches its date, and for an earlier one what the
/// bin in progress held. The bin keeps step with the strips, the strip in
/// hand is one that the local copy lacks and the site has, a run that has
/// fetched its strips stands at the newest one, the page in hand has the
/// date of its strip, and at each place of the bin stands what the strip
/// of that place is to have.
pub open spec fn carries(s: RunView, entries: spec_fn(int) -> Option<Seq<char>>) -> bool {
    &&& aligned(s)
    &&& strip_in_hand(s.waiting) || bin_in_hand(s.waiting) || has_fetched(s) ==> {
        &&& 0 <= s.last_known < s.current <= s.latest
        &&& forall|k: int| 0 <= k < s.bin.len() ==> #[trigger] s.bin[k] == entries(strip_at(s, k))
    }
    &&& has_fetched(s) ==> s.current == s.latest && s.bin.len() == (s.current + 1) % 100
    &&& s.waiting == Waiting::Image || s.waiting == Waiting::ImageSaved ==> (s.page matches Some(
        page,
    ) ==> Some(date_text(page.date)) == entries(s.current as int))
}

/// Whether what has come is what `entries` gives: a page that has come
/// has the date of the strip in hand, and a bin in progress that has come
/// holds for each of its strips what that strip is to have.
pub open spec fn tells(s: RunView, event: EventView, entries: spec_fn(int) -> Option<Seq<char>>) -> bool {
    match event {
        EventView::Text(body) => s.waiting == Waiting::PageBody ==> (parsed_page(
            body,
            s.config.navigation,
        ) matches Ok(page) ==> Some(date_text(page.date)) == entries(s.current as int)),
        EventView::Bin(Some(loaded)) => forall|k: int|
            0 <= k < loaded.len() ==> #[trigger] loaded[k] == entries(
                100 * bin_of(s.last_known as int) + k,
            ),
        _ => true,
    }
}

/// A run begins with a bin that holds what it is to hold: nothing.
pub proof fn lemma_begin_carries(config: ConfigView, entries: spec_fn(int) -> Option<Seq<char>>)
    ensures
        aligned(begin_of(config).0),
        carries(begin_of(config).0, entries),
{
}

/// A run whose bin holds what it is to hold goes on holding it, as long as
/// the bin in progress and each page come as they are to be.
pub proof fn lemma_step_carries(
    s: RunView,
    event: EventView,
    entries: spec_fn(int) -> Option<Seq<char>>,
)
    requires
        s.wf(),
        carries(s, entries),
        keeps_step(s, event),
        tells(s, event, entries),
    ensures
        carries(step_of(s, event).0, entries),
{
}

/// A bin that is written holds the dates of its own strips: a bin is
/// written under the number of its strips divided by a hundred, it holds
/// an entry for each strip of that bin up to the one that was fetched
/// last, and for each of them what that strip is to have. So a bin that
/// begins after another was filed holds the dates of the strips after
/// that one and nothing else.
pub proof fn lemma_bin_written_holds_its_dates(
    s: RunView,
    event: EventView,
    entries: spec_fn(int) -> Option<Seq<char>>,
)
    requires
        s.wf(),
        carries(s, entries),
        keeps_step(s, event),
        tells(s, event, entries),
    ensures
        ({
            let (next, action) = step_of(s, event);
            action is FileBin || action is SaveBin ==> {
                let index = bin_of(next.current as int);
                &&& action is FileBin ==> action == (ActionView::FileBin {
                    index: index as i32,
                    file: bin_file_name(index),
                })
                &&& action is SaveBin ==> action == (ActionView::SaveBin {
                    index: index as i32,
                    file: bin_file_name(index),
                }) && next.current == next.latest
                &&& next.bin.len() == next.current % 100 + 1
                &&& forall|k: int|
                    0 <= k < next.bin.len() ==> #[trigger] next.bin[k] == entries(100 * index + k)
            }
        }),
{
    lemma_step_carries(s, event, entries);
    let (next, action) = step_of(s, event);
    if action is FileBin || action is SaveBin {
        assert forall|k: int| 0 <= k < next.bin.len() implies #[trigger] next.bin[k] == entries(
            100 * bin_of(next.current as int) + k,
        ) by {
            assert(strip_at(next, k) == 100 * bin_of(next.current as int) + k);
        }
    }
}

/// The bin that a run leaves in progress: a run that has fetched its
/// strips holds a bin with an entry for each strip of the bin of the
/// newest strip up to that strip, each what its strip is to have, and an
/// empty bin where the newest strip is the last of its bin.
pub proof fn lemma_bin_left_in_progress(s: RunView, entries: spec_fn(int) -> Option<Seq<char>>)
    requires
        s.wf(),
        carries(s, entries),
        has_fetched(s),
    ensures
        s.latest >= 0,
        is_last_of_bin(s.latest as int) ==> s.bin.len() == 0,
        !is_last_of_bin(s.latest as int) ==> s.bin.len() == s.latest % 100 + 1,
        forall|k: int|
            0 <= k < s.bin.len() ==> #[trigger] s.bin[k] == entries(
                100 * bin_of(s.latest as int) + k,
            ),
{
    assert forall|k: int| 0 <= k < s.bin.len() implies #[trigger] s.bin[k] == entries(
        100 * bin_of(s.latest as int) + k,
    ) by {
        assert(strip_at(s, k) == 100 * bin_of(s.latest as int) + k);
    }
}

/// One bin is read at most, and it is the bin of the newest strip that the
/// local copy holds: a bin is asked for exactly when the record has come,
/// the local copy is not at the newest strip of the site and does not end
/// with the last strip of a bin, and it is then the bin in progress of that
/// strip's number divided by a hundred.
pub proof fn lemma_bin_of_the_local_copy_is_read(s: RunView, event: EventView)
    requires
        s.wf(),
    ensures
        step_of(s, event).1 is LoadBin <==> (s.waiting == Waiting::Record && (event matches EventView::Record(
            record,
        ) && record.len() > 0 && record.last().i != s.latest && !is_last_of_bin(
            record.last().i as int,
        ))),
        step_of(s, event).1 is LoadBin ==> (event matches EventView::Record(record) && step_of(
            s,
            event,
        ).1 == (ActionView::LoadBin {
            index: bin_of(record.last().i as int) as i32,
            file: bin_file_name(bin_of(record.last().i as int)),
        })),
{
}

/// The strips are fetched one after the other, from the one after the
/// newest that the local copy holds to the newest of the site: a page that
/// is asked for is that of the first of them where the record or the bin
/// has just come, and else that of the strip after the one that was
/// fetched last; it is asked for at the address of its strip; and after
/// the newest strip of the site no page is asked for.
pub proof fn lemma_strips_are_fetched_in_order(s: RunView, event: EventView)
    requires
        s.wf(),
    ensures
        step_of(s, event).1 matches ActionView::FetchPage { number, url } ==> {
            let next = step_of(s, event).0;
            &&& next.waiting == Waiting::PageBody
            &&& next.current == number
            &&& number <= next.latest
            &&& url == page_url_of(s.config, number as int, next.latest as int)
            &&& if s.waiting == Waiting::Record || s.waiting == Waiting::Bin {
                number == next.last_known + 1
            } else {
                (s.waiting == Waiting::ImageSaved || s.waiting == Waiting::BinRemoved) && number
                    == s.current + 1 && next.last_known == s.last_known
            }
        },
        s.waiting == Waiting::ImageSaved || s.waiting == Waiting::BinRemoved ==> (s.current
            >= s.latest ==> !(step_of(s, event).1 is FetchPage)),
        s.waiting == Waiting::ImageSaved && event is Completed && s.page is Some && s.current
            < s.latest ==> step_of(s, event).1 is FileBin || step_of(s, event).1 == (
            ActionView::FetchPage {
                number: (s.current + 1) as i32,
                url: page_url_of(s.config, s.current + 1, s.latest as int),
            }),
{
}

/// The record is touched last: a step changes the run's record only when
/// the record comes and when the time comes, the record is asked to be
/// saved only when the time has come, and a step that fails the run
/// leaves the record and the newest strip of the local copy as they were.
pub proof fn lemma_record_is_touched_last(s: RunView, event: EventView)
    requires
        s.wf(),
    ensures
        step_of(s, event).0.record != s.record ==> (s.waiting == Waiting::Record && event is Record)
            || (s.waiting == Waiting::Time && event is Time),
        step_of(s, event).1 is SaveRecord <==> (s.waiting == Waiting::Time && event is Time),
        step_of(s, event).0.phase == Phase::Failed ==> step_of(s, event).0.record == s.record
            && step_of(s, event).0.last_known == s.last_known,
{
}

/// The time is asked for only when nothing is left to fetch: in a run that
/// has found the local copy up to date, or in one that has put away its
/// bin.
pub proof fn lemma_time_is_asked_last(s: RunView, event: EventView)
    requires
        s.wf(),
        s.waiting != Waiting::Time,
        step_of(s, event).0.waiting == Waiting::Time,
    ensures
        step_of(s, event).1 == ActionView::ReadClock,
        step_of(s, event).0.phase == Phase::CheckUpToDate || step_of(s, event).0.phase
            == Phase::Finalizing,
        step_of(s, event).0.phase == Phase::CheckUpToDate ==> step_of(s, event).0.last_known
            == s.latest,
        strip_in_hand(s.waiting) || bin_in_hand(s.waiting) ==> s.current >= s.latest,
{
}

/// A run that is over stays as it is and says the same again.
pub proof fn lemma_over_is_over(s: RunView, event: EventView)
    requires
        s.wf(),
        s.waiting == Waiting::Nothing,
    ensures
        step_of(s, event).0 == s,
        step_of(s, event).1 == (if s.phase == Phase::Done {
            ActionView::Finish
        } else {
            ActionView::Abort
        }),
{
}

/// An action that could not be carried out fails the run at once, and so
/// does an answer that was not asked for.
pub proof fn lemma_failure_is_final(s: RunView, fault: Fault, detail: Seq<char>)
    requires
        s.wf(),
        s.waiting != Waiting::Nothing,
    ensures
        step_of(s, EventView::Failed { fault, detail }).0.phase == Phase::Failed,
        step_of(s, EventView::Failed { fault, detail }).1 == ActionView::Abort,
        step_of(s, EventView::Failed { fault, detail }).0.error is Some,
        s.waiting == Waiting::BinRemoved ==> step_of(s, EventView::Failed { fault, detail }).0.error
            == Some(ErrorView::Leftover { index: bin_of(s.current as int), detail }),
{
}

/// Where the local copy is at the newest strip, nothing is fetched: the
/// time is asked for, the last entry of the record is given that time and
/// nothing else of the record is changed, the record is saved, and the run
/// is done.
pub proof fn lemma_up_to_date_run(s: RunView, record: Seq<ReaderEntry>, now: i64)
    requires
        s.wf(),
        s.waiting == Waiting::Record,
        record.len() > 0,
        record.last().i == s.latest,
    ensures
        ({
            let (s1, a1) = step_of(s, EventView::Record(record));
            let (s2, a2) = step_of(s1, EventView::Time(now));
            let (s3, a3) = step_of(s2, EventView::Completed);
            &&& a1 == ActionView::ReadClock
            &&& a2 == ActionView::SaveRecord
            &&& a3 == ActionView::Finish
            &&& s3.phase == Phase::Done
            &&& s3.record == record.update(
                record.len() - 1,
                ReaderEntry { checked: Some(now), ..record.last() },
            )
            &&& s3.bin == s.bin
        }),
{
    let (s1, a1) = step_of(s, EventView::Record(record));
    let (s2, a2) = step_of(s1, EventView::Time(now));
    assert(s2.record == record_synced(record, s.latest, now));
    assert(record_synced(record, s.latest, now) =~= record.update(
        record.len() - 1,
        ReaderEntry { checked: Some(now), ..record.last() },
    ));
}

/// A run that is done has brought the record to the newest strip of the
/// site: the last entry of its record is at that strip and has the time at
/// which the site was asked.
pub proof fn lemma_done_run_is_synced(s: RunView)
    requires
        s.wf(),
        s.phase == Phase::Done,
    ensures
        s.record.len() > 0,
        s.record.last().i == s.latest,
        s.record.last().checked is Some,
{
}

/// The run is done by the step after the record is saved, and by no
/// other: the record that it holds then is the record that was loaded with
/// its last entry brought to the newest strip and to the time that came.
pub proof fn lemma_run_is_done_when_record_is_saved(s: RunView, event: EventView)
    requires
        s.wf(),
        s.phase != Phase::Done,
    ensures
        step_of(s, event).0.phase == Phase::Done <==> (s.waiting == Waiting::RecordSaved && event
            is Completed),
        step_of(s, event).0.phase == Phase::Done ==> step_of(s, event).0.record == s.record
            && step_of(s, event).1 == ActionView::Finish,
        s.waiting == Waiting::Time ==> (event matches EventView::Time(now) ==> step_of(
            s,
            event,
        ).0.record == s.record.update(
            s.record.len() - 1,
            ReaderEntry { i: s.latest, checked: Some(now), ..s.record.last() },
        )),
{
}

} // verus!
