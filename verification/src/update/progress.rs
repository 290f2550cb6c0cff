use vstd::prelude::*;
use crate::update::updater;

verus! {

/// A progress report sent to the front end while the game is updated.
#[derive(Debug)]
pub enum Message {
    /// Updated total downloads with `done` bytes downloaded out of `total`.
    UpdateState { name: Option<String>, done: u64, total: u64 },
    /// Starting update process
    Start,
    /// Fetch of files to update completed
    FetchDone,
    /// Unnecessary files deletion completed
    CleanDone,
    /// Update completed
    DownloadDone,
    /// Update failed
    Failure,
}

/// What is known of one download: its name, the bytes done and its size.
pub struct ProgressEntry {
    pub id: u32,
    pub name: Option<String>,
    pub done: u64,
    pub size: u64,
}

/// Sum of the bytes done over a sequence of downloads.
pub open spec fn sum_done(s: Seq<ProgressEntry>) -> int
    decreases s.len(),
{
    if s.len() == 0 {
        0
    } else {
        sum_done(s.drop_last()) + s.last().done
    }
}

/// Sum of the sizes over a sequence of downloads.
pub open spec fn sum_size(s: Seq<ProgressEntry>) -> int
    decreases s.len(),
{
    if s.len() == 0 {
        0
    } else {
        sum_size(s.drop_last()) + s.last().size
    }
}

/// No two downloads share an id.
pub open spec fn ids_unique(s: Seq<ProgressEntry>) -> bool {
    forall|i: int, j: int| 0 <= i < s.len() && 0 <= j < s.len() && i != j ==> s[i].id != s[j].id
}

/// The position of the download with the given id, if any.
pub open spec fn find_id(s: Seq<ProgressEntry>, id: u32) -> Option<int> {
    if exists|k: int| 0 <= k < s.len() && s[k].id == id {
        Some(choose|k: int| 0 <= k < s.len() && s[k].id == id)
    } else {
        None
    }
}

proof fn lemma_sums_push(s: Seq<ProgressEntry>, e: ProgressEntry)
    ensures
        sum_done(s.push(e)) == sum_done(s) + e.done,
        sum_size(s.push(e)) == sum_size(s) + e.size,
{
    assert(s.push(e).drop_last() =~= s);
}

proof fn lemma_sums_update(s: Seq<ProgressEntry>, k: int, e: ProgressEntry)
    requires
        0 <= k < s.len(),
    ensures
        sum_done(s.update(k, e)) == sum_done(s) - s[k].done + e.done,
        sum_size(s.update(k, e)) == sum_size(s) - s[k].size + e.size,
    decreases s.len(),
{
    if k == s.len() - 1 {
        assert(s.update(k, e).drop_last() =~= s.drop_last());
    } else {
        lemma_sums_update(s.drop_last(), k, e);
        assert(s.update(k, e).drop_last() =~= s.drop_last().update(k, e));
    }
}

proof fn lemma_entry_within_sums(s: Seq<ProgressEntry>, k: int)
    requires
        0 <= k < s.len(),
    ensures
        s[k].done <= sum_done(s),
        s[k].size <= sum_size(s),
    decreases s.len(),
{
    lemma_sums_nonneg(s.drop_last());
    if k < s.len() - 1 {
        lemma_entry_within_sums(s.drop_last(), k);
    }
}

proof fn lemma_sums_nonneg(s: Seq<ProgressEntry>)
    ensures
        sum_done(s) >= 0,
        sum_size(s) >= 0,
    decreases s.len(),
{
    if s.len() > 0 {
        lemma_sums_nonneg(s.drop_last());
    }
}

/// Aggregates the progress of all downloads of an update into the reports
/// that the front end shows.
pub struct ProgressTracker {
    entries: Vec<ProgressEntry>,
    total: u64,
    total_done: u64,
}

impl ProgressTracker {
    /// Ids are unique, and the running totals cover at least what the
    /// known downloads account for.
    pub closed spec fn wf(self) -> bool {
        &&& ids_unique(self.entries@)
        &&& sum_done(self.entries@) <= self.total_done
        &&& sum_size(self.entries@) <= self.total
    }

    pub closed spec fn entries(self) -> Seq<ProgressEntry> {
        self.entries@
    }

    pub closed spec fn total(self) -> u64 {
        self.total
    }

    pub closed spec fn total_done(self) -> u64 {
        self.total_done
    }

    /// What the tracker knows: its downloads and its two running totals.
    pub open spec fn model(self) -> TrackerView {
        TrackerView { entries: self.entries(), total: self.total() as int, total_done: self.total_done() as int }
    }

    /// The bytes counted in `total_done` that no known download accounts
    /// for any more (those of downloads whose id was registered again).
    pub open spec fn done_surplus(self) -> int {
        self.total_done() - sum_done(self.entries())
    }

    /// The bytes counted in `total` that no known download accounts for.
    pub open spec fn size_surplus(self) -> int {
        self.total() - sum_size(self.entries())
    }

    /// Whether handling `msg` keeps the running totals within `u64`.
    pub open spec fn accepts(self, msg: updater::Message) -> bool {
        match msg {
            updater::Message::AddState(_, size, _) => self.total() + size <= u64::MAX,
            updater::Message::UpdateState(id, done) => match find_id(self.entries(), id) {
                Some(k) => self.total_done() - self.entries()[k].done + done <= u64::MAX,
                None => true,
            },
            _ => true,
        }
    }

    /// A tracker that knows no download.
    pub fn new() -> (t: Self)
        ensures
            t.wf(),
            t.entries() == Seq::<ProgressEntry>::empty(),
            t.total() == 0,
            t.total_done() == 0,
            t.done_surplus() == 0,
            t.size_surplus() == 0,
            t.model() == empty_tracker(),
    {
        ProgressTracker { entries: Vec::new(), total: 0, total_done: 0 }
    }

    fn find(&self, id: u32) -> (r: Option<usize>)
        requires
            self.wf(),
        ensures
            match r {
                Some(k) => find_id(self.entries(), id) == Some(k as int),
                None => find_id(self.entries(), id) is None,
            },
    {
        let mut i: usize = 0;
        while i < self.entries.len()
            invariant
                i <= self.entries@.len(),
                ids_unique(self.entries@),
                forall|j: int| 0 <= j < i ==> self.entries@[j].id != id,
            decreases self.entries@.len() - i,
        {
            if self.entries[i].id == id {
                proof {
                    assert(self.entries@[i as int].id == id);
                    let k = choose|k: int| 0 <= k < self.entries@.len() && self.entries@[k].id == id;
                    assert(self.entries@[k].id == self.entries@[i as int].id);
                }
                return Some(i);
            }
            i = i + 1;
        }
        None
    }

    /// Whether handling `msg` keeps the running totals within `u64` (the
    /// counterpart of [`Self::accepts`] that callers run).
    pub fn can_handle(&self, msg: &updater::Message) -> (r: bool)
        requires
            self.wf(),
        ensures
            r == self.accepts(*msg),
    {
        match msg {
            updater::Message::AddState(_, size, _) => self.total <= u64::MAX - *size,
            updater::Message::UpdateState(id, done) => match self.find(*id) {
                Some(k) => {
                    proof { lemma_entry_within_sums(self.entries@, k as int); }
                    self.total_done - self.entries[k].done <= u64::MAX - *done
                },
                None => true,
            },
            _ => true,
        }
    }

    /// Handles a message of the update task and returns the report to
    /// forward to the front end, if any.
    ///
    /// A new download adds its size to the total; a progress update
    /// replaces the download's previous progress in the total done and is
    /// forwarded with the running totals; an update for an unknown id is
    /// dropped; the phase messages are forwarded, and an interruption is
    /// reported as a failure.
    pub fn handle(&mut self, msg: updater::Message) -> (out: Option<Message>)
        requires
            old(self).wf(),
            old(self).accepts(msg),
        ensures
            final(self).wf(),
            (final(self).model(), out) == tracker_step(old(self).model(), msg),
            match msg {
                updater::Message::AddState(id, size, name) => {
                    let e = ProgressEntry { id, name, done: 0, size };
                    &&& out is None
                    &&& final(self).entries() == match find_id(old(self).entries(), id) {
                        Some(k) => old(self).entries().update(k, e),
                        None => old(self).entries().push(e),
                    }
                    &&& final(self).total() == old(self).total() + size
                    &&& final(self).total_done() == old(self).total_done()
                    &&& final(self).done_surplus() == old(self).done_surplus() + match find_id(old(self).entries(), id) {
                        Some(k) => old(self).entries()[k].done as int,
                        None => 0,
                    }
                    &&& final(self).size_surplus() == old(self).size_surplus() + match find_id(old(self).entries(), id) {
                        Some(k) => old(self).entries()[k].size as int,
                        None => 0,
                    }
                },
                updater::Message::UpdateState(id, done) => match find_id(old(self).entries(), id) {
                    Some(k) => {
                        let e = old(self).entries()[k];
                        let total_done = old(self).total_done() - e.done + done;
                        &&& final(self).entries() == old(self).entries().update(
                            k,
                            ProgressEntry { id: e.id, name: e.name, done, size: e.size },
                        )
                        &&& final(self).total() == old(self).total()
                        &&& final(self).total_done() == total_done
                        &&& out == Some(Message::UpdateState { name: e.name, done: total_done as u64, total: old(self).total() })
                        &&& final(self).done_surplus() == old(self).done_surplus()
                        &&& final(self).size_surplus() == old(self).size_surplus()
                    },
                    None => {
                        &&& out is None
                        &&& final(self).entries() == old(self).entries()
                        &&& final(self).total() == old(self).total()
                        &&& final(self).total_done() == old(self).total_done()
                    },
                },
                _ => {
                    &&& final(self).entries() == old(self).entries()
                    &&& final(self).total() == old(self).total()
                    &&& final(self).total_done() == old(self).total_done()
                    &&& out == match msg {
                        updater::Message::FetchDone => Some(Message::FetchDone),
                        updater::Message::CleanDone => Some(Message::CleanDone),
                        updater::Message::DownloadDone => Some(Message::DownloadDone),
                        _ => Some(Message::Failure),
                    }
                },
            },
    {
        match msg {
            updater::Message::AddState(id, size, name) => {
                let ghost old_entries = self.entries@;
                let e = ProgressEntry { id, name, done: 0, size };
                let found = self.find(id);
                match found {
                    Some(k) => {
                        proof {
                            lemma_sums_update(old_entries, k as int, e);
                            lemma_entry_within_sums(old_entries, k as int);
                        }
                        self.entries.set(k, e);
                    },
                    None => {
                        proof { lemma_sums_push(old_entries, e); }
                        self.entries.push(e);
                    },
                }
                self.total = self.total + size;
                None
            },
            updater::Message::UpdateState(id, done) => {
                let found = self.find(id);
                match found {
                    Some(k) => {
                        let ghost old_entries = self.entries@;
                        let already_done = self.entries[k].done;
                        let size = self.entries[k].size;
                        let name = match &self.entries[k].name {
                            Some(n) => Some(n.clone()),
                            None => None,
                        };
                        let stored = match &self.entries[k].name {
                            Some(n) => Some(n.clone()),
                            None => None,
                        };
                        proof { lemma_entry_within_sums(old_entries, k as int); }
                        self.total_done = self.total_done - already_done + done;
                        let e = ProgressEntry { id, name: stored, done, size };
                        proof { lemma_sums_update(old_entries, k as int, e); }
                        self.entries.set(k, e);
                        Some(Message::UpdateState { name, done: self.total_done, total: self.total })
                    },
                    None => None,
                }
            },
            updater::Message::FetchDone => Some(Message::FetchDone),
            updater::Message::CleanDone => Some(Message::CleanDone),
            updater::Message::DownloadDone => Some(Message::DownloadDone),
            updater::Message::Interrupted(_) => Some(Message::Failure),
        }
    }
}

/// What a tracker knows, with its totals as integers.
pub struct TrackerView {
    pub entries: Seq<ProgressEntry>,
    pub total: int,
    pub total_done: int,
}

/// What handling `msg` makes of the tracker `t`, and the report it
/// forwards (see [`ProgressTracker::handle`]).
pub open spec fn tracker_step(t: TrackerView, msg: updater::Message) -> (TrackerView, Option<Message>) {
    match msg {
        updater::Message::AddState(id, size, name) => {
            let e = ProgressEntry { id, name, done: 0, size };
            let entries = match find_id(t.entries, id) {
                Some(k) => t.entries.update(k, e),
                None => t.entries.push(e),
            };
            (TrackerView { entries, total: t.total + size, total_done: t.total_done }, None)
        },
        updater::Message::UpdateState(id, done) => match find_id(t.entries, id) {
            Some(k) => {
                let e = t.entries[k];
                let total_done = t.total_done - e.done + done;
                (
                    TrackerView {
                        entries: t.entries.update(k, ProgressEntry { id: e.id, name: e.name, done, size: e.size }),
                        total: t.total,
                        total_done,
                    },
                    Some(Message::UpdateState { name: e.name, done: total_done as u64, total: t.total as u64 }),
                )
            },
            None => (t, None),
        },
        updater::Message::FetchDone => (t, Some(Message::FetchDone)),
        updater::Message::CleanDone => (t, Some(Message::CleanDone)),
        updater::Message::DownloadDone => (t, Some(Message::DownloadDone)),
        updater::Message::Interrupted(_) => (t, Some(Message::Failure)),
    }
}

/// What handling the messages `msgs` in turn makes of the tracker `t`, and
/// the report (or none) forwarded for each message.
pub open spec fn tracker_run(t: TrackerView, msgs: Seq<updater::Message>) -> (TrackerView, Seq<Option<Message>>)
    decreases msgs.len(),
{
    if msgs.len() == 0 {
        (t, Seq::empty())
    } else {
        let (t1, out) = tracker_step(t, msgs[0]);
        let (t2, outs) = tracker_run(t1, msgs.drop_first());
        (t2, seq![out] + outs)
    }
}

/// A tracker that knows no download.
pub open spec fn empty_tracker() -> TrackerView {
    TrackerView { entries: Seq::empty(), total: 0, total_done: 0 }
}

proof fn lemma_run_append(t: TrackerView, a: Seq<updater::Message>, b: Seq<updater::Message>)
    ensures
        tracker_run(t, a + b).0 == tracker_run(tracker_run(t, a).0, b).0,
        tracker_run(t, a + b).1 == tracker_run(t, a).1 + tracker_run(tracker_run(t, a).0, b).1,
    decreases a.len(),
{
    if a.len() == 0 {
        assert(a + b =~= b);
        assert(tracker_run(t, a).1 + tracker_run(t, b).1 =~= tracker_run(t, b).1);
    } else {
        let t1 = tracker_step(t, a[0]).0;
        lemma_run_append(t1, a.drop_first(), b);
        assert((a + b)[0] == a[0]);
        assert((a + b).drop_first() =~= a.drop_first() + b);
        let o = tracker_step(t, a[0]).1;
        assert(seq![o] + (tracker_run(t1, a.drop_first()).1 + tracker_run(tracker_run(t1, a.drop_first()).0, b).1)
            =~= (seq![o] + tracker_run(t1, a.drop_first()).1) + tracker_run(tracker_run(t1, a.drop_first()).0, b).1);
    }
}

/// A progress update for an id that the tracker does not know changes
/// nothing: no report is forwarded for it, and the tracker and the reports
/// forwarded for the messages after it are those of the same messages
/// without it.
pub proof fn lemma_unknown_progress_changes_nothing(t: TrackerView, msgs: Seq<updater::Message>, j: int)
    requires
        0 <= j < msgs.len(),
        msgs[j] matches updater::Message::UpdateState(id, _) && find_id(tracker_run(t, msgs.take(j)).0.entries, id) is None,
    ensures
        tracker_run(t, msgs).1[j] is None,
        tracker_run(t, msgs).1 == tracker_run(t, msgs.remove(j)).1.insert(j, None),
        tracker_run(t, msgs).0 == tracker_run(t, msgs.remove(j)).0,
{
    let pre = msgs.take(j);
    let post = msgs.skip(j + 1);
    let tj = tracker_run(t, pre).0;
    assert(msgs =~= pre + (seq![msgs[j]] + post));
    assert(msgs.remove(j) =~= pre + post);
    lemma_run_append(t, pre, seq![msgs[j]] + post);
    lemma_run_append(t, pre, post);
    assert((seq![msgs[j]] + post)[0] == msgs[j]);
    assert((seq![msgs[j]] + post).drop_first() =~= post);
    assert(tracker_step(tj, msgs[j]) == (tj, None::<Message>));
    let outs_pre = tracker_run(t, pre).1;
    let outs_post = tracker_run(tj, post).1;
    assert(outs_pre.len() == j) by { lemma_run_len(t, pre); }
    assert(outs_pre + (seq![None::<Message>] + outs_post) =~= (outs_pre + outs_post).insert(j, None));
}

proof fn lemma_run_len(t: TrackerView, msgs: Seq<updater::Message>)
    ensures
        tracker_run(t, msgs).1.len() == msgs.len(),
    decreases msgs.len(),
{
    if msgs.len() > 0 {
        lemma_run_len(tracker_step(t, msgs[0]).0, msgs.drop_first());
    }
}

/// A tracker learns of a download only from a message that adds it.
proof fn lemma_ids_come_from_adds(t: TrackerView, msgs: Seq<updater::Message>, id: u32)
    requires
        find_id(t.entries, id) is None,
        forall|k: int| 0 <= k < msgs.len() ==> !(#[trigger] msgs[k] matches updater::Message::AddState(i, _, _) && i == id),
    ensures
        find_id(tracker_run(t, msgs).0.entries, id) is None,
    decreases msgs.len(),
{
    if msgs.len() > 0 {
        let t1 = tracker_step(t, msgs[0]).0;
        assert(!(msgs[0] matches updater::Message::AddState(i, _, _) && i == id));
        assert forall|k: int| 0 <= k < t1.entries.len() implies t1.entries[k].id != id by {
            match msgs[0] {
                updater::Message::AddState(i, size, name) => {
                    let e = ProgressEntry { id: i, name, done: 0, size };
                    match find_id(t.entries, i) {
                        Some(m) => {
                            if k != m {
                                assert(t1.entries[k] == t.entries[k]);
                            }
                        },
                        None => {
                            if k < t.entries.len() {
                                assert(t1.entries[k] == t.entries[k]);
                            }
                        },
                    }
                },
                updater::Message::UpdateState(i, done) => {
                    match find_id(t.entries, i) {
                        Some(m) => {
                            if k != m {
                                assert(t1.entries[k] == t.entries[k]);
                            } else {
                                assert(t.entries[m].id == i);
                            }
                        },
                        None => {},
                    }
                },
                _ => {},
            }
        }
        assert forall|k: int| 0 <= k < msgs.drop_first().len() implies !(#[trigger] msgs.drop_first()[k] matches updater::Message::AddState(i, _, _) && i == id) by {
            assert(msgs.drop_first()[k] == msgs[k + 1]);
        }
        lemma_ids_come_from_adds(t1, msgs.drop_first(), id);
    }
}

/// From a fresh tracker, a progress update for an id that no earlier
/// message added forwards no report, and the tracker and the reports for the
/// messages after it are those of the same messages without it.
pub proof fn lemma_progress_before_add_is_dropped(msgs: Seq<updater::Message>, j: int)
    requires
        0 <= j < msgs.len(),
        msgs[j] matches updater::Message::UpdateState(id, _)
            && forall|k: int| 0 <= k < j ==> !(#[trigger] msgs[k] matches updater::Message::AddState(i, _, _) && i == id),
    ensures
        tracker_run(empty_tracker(), msgs).1[j] is None,
        tracker_run(empty_tracker(), msgs).1 == tracker_run(empty_tracker(), msgs.remove(j)).1.insert(j, None),
        tracker_run(empty_tracker(), msgs).0 == tracker_run(empty_tracker(), msgs.remove(j)).0,
{
    if let updater::Message::UpdateState(id, _) = msgs[j] {
        assert forall|k: int| 0 <= k < msgs.take(j).len() implies !(#[trigger] msgs.take(j)[k] matches updater::Message::AddState(i, _, _) && i == id) by {
            assert(msgs.take(j)[k] == msgs[k]);
        }
        lemma_ids_come_from_adds(empty_tracker(), msgs.take(j), id);
        lemma_unknown_progress_changes_nothing(empty_tracker(), msgs, j);
    }
}

} // verus!
