use vstd::prelude::*;

use crate::media_info::{get_default_chapter_title, TocEntry};
use crate::timestamp::Timestamp;

verus! {

/// How far into a chapter a skip-to-previous command still returns to
/// the chapter before, in nanoseconds.
pub const GO_TO_PREV_CHAPTER_THRESHOLD_NANOS: u64 = 1_000_000_000;

/// Start and exclusive end of one chapter.
#[derive(Clone, Copy, Debug, PartialEq, Eq, Structural)]
pub struct ChapterTimestamps {
    pub start: Timestamp,
    pub end: Timestamp,
}

impl ChapterTimestamps {
    pub fn new_from_u64(start: u64, end: u64) -> (r: Self)
        ensures
            r.start@ == start,
            r.end@ == end,
    {
        ChapterTimestamps { start: Timestamp::new(start), end: Timestamp::new(end) }
    }
}

/// One chapter of the navigation index.
#[derive(Debug)]
pub struct ChapterEntry {
    pub ts: ChapterTimestamps,
    pub title: String,
}

impl Clone for ChapterEntry {
    fn clone(&self) -> (r: Self)
        ensures
            r == *self,
    {
        ChapterEntry { ts: self.ts, title: self.title.clone() }
    }
}

impl ChapterEntry {
    pub fn start(&self) -> (r: Timestamp)
        ensures
            r == self.ts.start,
    {
        self.ts.start
    }

    pub fn end(&self) -> (r: Timestamp)
        ensures
            r == self.ts.end,
    {
        self.ts.end
    }

    pub fn timestamps(&self) -> (r: ChapterTimestamps)
        ensures
            r == self.ts,
    {
        self.ts
    }
}

/// The chapter a position tracker was leaving: where it stood in the
/// list, and where it started.
#[derive(Clone, Copy, Debug, PartialEq, Eq, Structural)]
pub struct ChapterIterStart {
    pub index: usize,
    pub start: Timestamp,
}

/// What a position update did to the chapter selection.
#[derive(Debug)]
pub enum PositionStatus {
    ChapterChanged { prev_chapter: Option<ChapterIterStart> },
    ChapterNotChanged,
}

/// A timestamp lies inside a chapter: at or past its start, strictly
/// before its end. A boundary timestamp belongs to the next chapter,
/// never to the one it closes.
pub open spec fn spec_in_range(c: ChapterEntry, ts: Timestamp) -> bool {
    c.ts.start@ <= ts@ < c.ts.end@
}

/// Chapters are in play order and disjoint: each closes no later than
/// the next opens, with gaps allowed.
pub open spec fn chapters_sorted(chapters: Seq<ChapterEntry>) -> bool {
    &&& forall|i: int| 0 <= i < chapters.len() ==> chapters[i].ts.start@ <= chapters[i].ts.end@
    &&& forall|i: int|
        0 <= i < chapters.len() - 1 ==> chapters[i].ts.end@ <= chapters[i + 1].ts.start@
}

/// Some chapter of the list holds the timestamp.
pub open spec fn some_chapter_holds(chapters: Seq<ChapterEntry>, ts: Timestamp) -> bool {
    exists|k: int| 0 <= k < chapters.len() && spec_in_range(chapters[k], ts)
}

/// The status a position update reports on a sorted chapter list: a
/// change exactly on leaving the selected chapter or, with none
/// selected, on landing in a chapter or before the first one; a change
/// carries the chapter left behind and its start.
pub open spec fn spec_update_status(m: ChapterTreeManager, ts: Timestamp) -> PositionStatus {
    let changed = match m.selected {
        Option::Some(i) => !spec_in_range(m.chapters@[i as int], ts),
        Option::None => some_chapter_holds(m.chapters@, ts) || (m.chapters@.len() > 0 && ts@
            < m.chapters@[0].ts.start@),
    };
    if changed {
        PositionStatus::ChapterChanged {
            prev_chapter: match m.selected {
                Option::Some(i) => Option::Some(
                    ChapterIterStart { index: i, start: m.chapters@[i as int].ts.start },
                ),
                Option::None => Option::None,
            },
        }
    } else {
        PositionStatus::ChapterNotChanged
    }
}

/// In a sorted list, bounds propagate across indices.
proof fn lemma_sorted_order(chapters: Seq<ChapterEntry>, i: int, j: int)
    requires
        chapters_sorted(chapters),
        0 <= i <= j < chapters.len(),
    ensures
        chapters[i].ts.start@ <= chapters[j].ts.start@,
        chapters[i].ts.end@ <= chapters[j].ts.end@,
        i < j ==> chapters[i].ts.end@ <= chapters[j].ts.start@,
    decreases j - i,
{
    if i < j {
        lemma_sorted_order(chapters, i, j - 1);
        assert(chapters[j - 1].ts.end@ <= chapters[j].ts.start@);
    }
}

/// In a sorted list, at most one chapter holds a given timestamp.
proof fn lemma_holding_chapter_unique(chapters: Seq<ChapterEntry>, ts: Timestamp, k: int, l: int)
    requires
        chapters_sorted(chapters),
        0 <= k < chapters.len(),
        0 <= l < chapters.len(),
        spec_in_range(chapters[k], ts),
        spec_in_range(chapters[l], ts),
    ensures
        k == l,
{
    if k < l {
        lemma_sorted_order(chapters, k, l);
    } else if l < k {
        lemma_sorted_order(chapters, l, k);
    }
}

/// The chapter navigation index: the ordered chapter list, a scan
/// cursor (`iter`) remembering where the last query stood, and the
/// chapter currently selected for display.
#[derive(Debug)]
pub struct ChapterTreeManager {
    pub chapters: Vec<ChapterEntry>,
    pub iter: Option<usize>,
    pub selected: Option<usize>,
}

impl ChapterTreeManager {
    /// Cursors are in bounds, and a non-empty list always keeps a scan
    /// cursor.
    pub open spec fn wf(&self) -> bool {
        &&& match self.selected {
            Option::Some(i) => i < self.chapters@.len(),
            Option::None => true,
        }
        &&& match self.iter {
            Option::Some(i) => i < self.chapters@.len(),
            Option::None => true,
        }
        &&& self.chapters@.len() > 0 ==> self.iter is Some
    }

    pub fn new() -> (r: Self)
        ensures
            r.wf(),
            r.chapters@.len() == 0,
            r.iter is None,
            r.selected is None,
    {
        ChapterTreeManager { chapters: Vec::new(), iter: Option::None, selected: Option::None }
    }

    pub fn clear(&mut self)
        ensures
            final(self).wf(),
            final(self).chapters@.len() == 0,
            final(self).iter is None,
            final(self).selected is None,
    {
        self.selected = Option::None;
        self.iter = Option::None;
        self.chapters = Vec::new();
    }

    pub fn unselect(&mut self)
        requires
            old(self).wf(),
        ensures
            final(self).wf(),
            final(self).chapters == old(self).chapters,
            final(self).iter == old(self).iter,
            final(self).selected is None,
    {
        self.selected = Option::None;
    }

    /// Rewinds the scan cursor to the first chapter; that chapter is
    /// selected only if it starts at the origin.
    pub fn rewind(&mut self)
        ensures
            final(self).wf(),
            final(self).chapters == old(self).chapters,
            final(self).iter == if old(self).chapters@.len() > 0 {
                Option::Some(0usize)
            } else {
                Option::<usize>::None
            },
            final(self).selected == if old(self).chapters@.len() > 0 && old(self).chapters@[0].ts.start@ == 0 {
                Option::Some(0usize)
            } else {
                Option::<usize>::None
            },
    {
        if self.chapters.len() > 0 {
            self.iter = Option::Some(0);
            if self.chapters[0].ts.start.as_u64() == 0 {
                self.selected = Option::Some(0);
            } else {
                self.selected = Option::None;
            }
        } else {
            self.iter = Option::None;
            self.selected = Option::None;
        }
    }

    /// Rebuilds the index from a table of contents: one chapter per
    /// entry, in the entries' order, untitled entries taking the
    /// default title; then the cursor rewinds.
    pub fn replace_with(&mut self, toc: &Option<Vec<TocEntry>>)
        ensures
            final(self).wf(),
            final(self).chapters@.len() == match toc {
                Option::Some(entries) => entries@.len(),
                Option::None => 0,
            },
            match toc {
                Option::Some(entries) => forall|i: int|
                    0 <= i < entries@.len() ==> {
                        &&& (#[trigger] final(self).chapters@[i]).ts.start == entries@[i].start
                        &&& final(self).chapters@[i].ts.end == entries@[i].end
                        &&& final(self).chapters@[i].title@ == match entries@[i].title {
                            Option::Some(title) => title@,
                            Option::None => "untitled"@,
                        }
                    },
                Option::None => true,
            },
            final(self).iter == if final(self).chapters@.len() > 0 {
                Option::Some(0usize)
            } else {
                Option::<usize>::None
            },
            final(self).selected == if final(self).chapters@.len() > 0 && final(self).chapters@[0].ts.start@ == 0 {
                Option::Some(0usize)
            } else {
                Option::<usize>::None
            },
    {
        self.clear();
        if let Option::Some(entries) = toc {
            let n = entries.len();
            for i in 0..n
                invariant
                    n == entries@.len(),
                    self.chapters@.len() == i,
                    self.iter is None,
                    self.selected is None,
                    forall|j: int|
                        0 <= j < i ==> {
                            &&& (#[trigger] self.chapters@[j]).ts.start == entries@[j].start
                            &&& self.chapters@[j].ts.end == entries@[j].end
                            &&& self.chapters@[j].title@ == match entries@[j].title {
                                Option::Some(title) => title@,
                                Option::None => "untitled"@,
                            }
                        },
            {
                let entry = &entries[i];
                let title = match &entry.title {
                    Option::Some(title) => title.clone(),
                    Option::None => get_default_chapter_title(),
                };
                self.chapters.push(
                    ChapterEntry {
                        ts: ChapterTimestamps { start: entry.start, end: entry.end },
                        title,
                    },
                );
            }
        }
        self.rewind();
    }

    pub fn selected(&self) -> (r: Option<&ChapterEntry>)
        requires
            self.wf(),
        ensures
            match self.selected {
                Option::Some(i) => r matches Option::Some(c) && *c == self.chapters@[i as int],
                Option::None => r is None,
            },
    {
        match self.selected {
            Option::Some(i) => Option::Some(&self.chapters[i]),
            Option::None => Option::None,
        }
    }

    /// The chapter after the selected one, or the first chapter when
    /// nothing is selected; never moves the cursors.
    pub fn pick_next(&self) -> (r: Option<&ChapterEntry>)
        requires
            self.wf(),
        ensures
            match self.selected {
                Option::Some(i) => if i + 1 < self.chapters@.len() {
                    r matches Option::Some(c) && *c == self.chapters@[i + 1]
                } else {
                    r is None
                },
                Option::None => if self.chapters@.len() > 0 {
                    r matches Option::Some(c) && *c == self.chapters@[0]
                } else {
                    r is None
                },
            },
    {
        let n = self.chapters.len();
        match self.selected {
            Option::Some(i) => {
                if i + 1 < n {
                    Option::Some(&self.chapters[i + 1])
                } else {
                    Option::None
                }
            },
            Option::None => {
                if n > 0 {
                    Option::Some(&self.chapters[0])
                } else {
                    Option::None
                }
            },
        }
    }

    /// The chapter before the selected one, or the last chapter when
    /// nothing is selected; never moves the cursors.
    pub fn pick_previous(&self) -> (r: Option<&ChapterEntry>)
        requires
            self.wf(),
        ensures
            match self.selected {
                Option::Some(i) => if i > 0 {
                    r matches Option::Some(c) && *c == self.chapters@[i - 1]
                } else {
                    r is None
                },
                Option::None => if self.chapters@.len() > 0 {
                    r matches Option::Some(c) && *c == self.chapters@[self.chapters@.len() - 1]
                } else {
                    r is None
                },
            },
    {
        match self.selected {
            Option::Some(i) => {
                if i > 0 {
                    Option::Some(&self.chapters[i - 1])
                } else {
                    Option::None
                }
            },
            Option::None => {
                if self.chapters.len() > 0 {
                    Option::Some(&self.chapters[self.chapters.len() - 1])
                } else {
                    Option::None
                }
            },
        }
    }

    /// The seek target of a skip-to-previous-chapter command: the start
    /// of the current chapter when playback is already more than the
    /// threshold into it, otherwise the start of the chapter before the
    /// selection (the last chapter when nothing is selected), if any.
    pub fn previous_chapter(&self, cur_ts: Timestamp) -> (r: Option<Timestamp>)
        requires
            self.wf(),
        ensures
            match self.selected {
                Option::Some(i) => {
                    let cur_start = self.chapters@[i as int].ts.start;
                    if cur_ts@ > cur_start@ + GO_TO_PREV_CHAPTER_THRESHOLD_NANOS {
                        r == Option::Some(cur_start)
                    } else if i > 0 {
                        r == Option::Some(self.chapters@[i - 1].ts.start)
                    } else {
                        r is None
                    }
                },
                Option::None => if self.chapters@.len() > 0 {
                    r == Option::Some(self.chapters@[self.chapters@.len() - 1].ts.start)
                } else {
                    r is None
                },
            },
    {
        let cur_start: Option<Timestamp> = match self.selected() {
            Option::Some(chapter) => Option::Some(chapter.start()),
            Option::None => Option::None,
        };
        let prev_start: Option<Timestamp> = match self.pick_previous() {
            Option::Some(chapter) => Option::Some(chapter.start()),
            Option::None => Option::None,
        };

        match (cur_start, prev_start) {
            (Option::Some(cur_start), prev_start_opt) => {
                if cur_ts.as_u64() > GO_TO_PREV_CHAPTER_THRESHOLD_NANOS && cur_ts.as_u64()
                    - GO_TO_PREV_CHAPTER_THRESHOLD_NANOS > cur_start.as_u64() {
                    Option::Some(cur_start)
                } else {
                    prev_start_opt
                }
            },
            (Option::None, prev_start_opt) => prev_start_opt,
        }
    }

    /// Tracks a position change. Inside the selected chapter nothing
    /// happens (the fast path); otherwise the scan cursor walks toward
    /// the timestamp and the selection lands on the chapter holding it,
    /// or on none when it lies in a gap or past the list.
    #[verifier::rlimit(100)]
    pub fn update_ts(&mut self, ts: Timestamp) -> (r: PositionStatus)
        requires
            old(self).wf(),
        ensures
            final(self).wf(),
            final(self).chapters == old(self).chapters,
            // the fast path: still inside the selected chapter, nothing moves
            (match old(self).selected {
                Option::Some(i) => spec_in_range(old(self).chapters@[i as int], ts),
                Option::None => false,
            }) ==> *final(self) == *old(self) && r is ChapterNotChanged,
            // whatever is selected afterwards holds the timestamp
            match final(self).selected {
                Option::Some(i) => spec_in_range(final(self).chapters@[i as int], ts),
                Option::None => true,
            },
            // a change reports the chapter left behind, and its start
            r matches PositionStatus::ChapterChanged { prev_chapter } ==> match old(self).selected {
                Option::Some(i) => prev_chapter matches Option::Some(p) && p.index == i && p.start
                    == old(self).chapters@[i as int].ts.start,
                Option::None => prev_chapter is None,
            },
            // no change leaves the selection as it was
            r is ChapterNotChanged ==> final(self).selected == old(self).selected,
            // on a sorted list the walk always finds the holding chapter
            forall|k: int|
                chapters_sorted(old(self).chapters@) && 0 <= k < old(self).chapters@.len()
                    && spec_in_range(old(self).chapters@[k], ts) ==> final(self).selected
                    == Option::Some(k as usize),
            // on a sorted list the reported status is fixed entirely
            chapters_sorted(old(self).chapters@) ==> r == spec_update_status(*old(self), ts),
    {
        let ghost pre = *old(self);
        let ghost sorted = chapters_sorted(pre.chapters@);

        // the fast path: the selected chapter still holds the timestamp
        let prev_chapter: Option<ChapterIterStart> = match self.selected {
            Option::Some(i) => {
                let sel_ts = self.chapters[i].timestamps();
                if ts.as_u64() >= sel_ts.start.as_u64() && ts.as_u64() < sel_ts.end.as_u64() {
                    proof {
                        assert forall|k: int|
                            sorted && 0 <= k < pre.chapters@.len() && spec_in_range(
                                pre.chapters@[k],
                                ts,
                            ) implies self.selected == Option::Some(k as usize) by {
                            lemma_holding_chapter_unique(pre.chapters@, ts, k, i as int);
                        }
                    }
                    return PositionStatus::ChapterNotChanged;
                }
                self.selected = Option::None;
                Option::Some(ChapterIterStart { index: i, start: sel_ts.start })
            },
            Option::None => Option::None,
        };

        if let Option::Some(start_i) = self.iter {
            let mut i = start_i;
            let mut searching_forward = true;
            proof {
                if sorted {
                    assert forall|k: int|
                        0 <= k < pre.chapters@.len() && spec_in_range(pre.chapters@[k], ts) && k
                            < i implies ts@ < pre.chapters@[i as int].ts.start@ by {
                        lemma_sorted_order(pre.chapters@, k, i as int);
                    }
                }
            }
            loop
                invariant
                    pre == *old(self),
                    self.chapters == pre.chapters,
                    self.selected is None,
                    self.iter == Option::Some(i),
                    i < self.chapters@.len(),
                    sorted == chapters_sorted(pre.chapters@),
                    match pre.selected {
                        Option::Some(si) => si < pre.chapters@.len() && !spec_in_range(
                            pre.chapters@[si as int],
                            ts,
                        ) && prev_chapter == Option::Some(
                            ChapterIterStart {
                                index: si,
                                start: pre.chapters@[si as int].ts.start,
                            },
                        ),
                        Option::None => prev_chapter is None,
                    },
                    searching_forward ==> (forall|k: int|
                        sorted && 0 <= k < pre.chapters@.len() && spec_in_range(
                            pre.chapters@[k],
                            ts,
                        ) ==> k >= i || ts@ < pre.chapters@[i as int].ts.start@),
                    !searching_forward ==> (forall|k: int|
                        sorted && 0 <= k < pre.chapters@.len() && spec_in_range(
                            pre.chapters@[k],
                            ts,
                        ) ==> k <= i),
                ensures
                    pre == *old(self),
                    self.chapters == pre.chapters,
                    self.selected is None,
                    self.iter matches Option::Some(j) && j < self.chapters@.len(),
                    match pre.selected {
                        Option::Some(si) => si < pre.chapters@.len() && !spec_in_range(
                            pre.chapters@[si as int],
                            ts,
                        ) && prev_chapter == Option::Some(
                            ChapterIterStart {
                                index: si,
                                start: pre.chapters@[si as int].ts.start,
                            },
                        ),
                        Option::None => prev_chapter is None,
                    },
                    sorted ==> !some_chapter_holds(pre.chapters@, ts),
                    sorted && pre.chapters@.len() > 0 ==> ts@ >= pre.chapters@[0].ts.start@,
                decreases (if searching_forward {
                    2 * (self.chapters@.len() as int) - (i as int)
                } else {
                    i as int
                }),
            {
                let n = self.chapters.len();
                let iter_ts = self.chapters[i].timestamps();
                if ts.as_u64() >= iter_ts.start.as_u64() && ts.as_u64() < iter_ts.end.as_u64() {
                    // the timestamp lies in the cursor's chapter
                    self.selected = Option::Some(i);
                    proof {
                        assert forall|k: int|
                            sorted && 0 <= k < pre.chapters@.len() && spec_in_range(
                                pre.chapters@[k],
                                ts,
                            ) implies self.selected == Option::Some(k as usize) by {
                            lemma_holding_chapter_unique(pre.chapters@, ts, k, i as int);
                        }
                        assert(some_chapter_holds(pre.chapters@, ts)) by {
                            assert(spec_in_range(pre.chapters@[i as int], ts));
                        }
                    }
                    return PositionStatus::ChapterChanged { prev_chapter };
                } else if ts.as_u64() >= iter_ts.end.as_u64() && searching_forward {
                    // past the cursor's chapter, still scanning forward
                    if i + 1 < n {
                        proof {
                            assert forall|k: int|
                                sorted && 0 <= k < pre.chapters@.len() && spec_in_range(
                                    pre.chapters@[k],
                                    ts,
                                ) implies k >= i + 1 || ts@ < pre.chapters@[i + 1].ts.start@ by {
                                if k < i + 1 {
                                    if k < i {
                                        lemma_sorted_order(pre.chapters@, k, i as int);
                                        assert(false);
                                    } else {
                                        assert(spec_in_range(pre.chapters@[i as int], ts));
                                        assert(false);
                                    }
                                }
                            }
                        }
                        i = i + 1;
                        self.iter = Option::Some(i);
                    } else {
                        // no more chapters: remember the last one, a later
                        // seek back will start from here
                        proof {
                            if sorted {
                                assert forall|k: int|
                                    !(0 <= k < pre.chapters@.len() && spec_in_range(
                                        pre.chapters@[k],
                                        ts,
                                    )) by {
                                    if 0 <= k < pre.chapters@.len() && spec_in_range(
                                        pre.chapters@[k],
                                        ts,
                                    ) {
                                        if k < i {
                                            lemma_sorted_order(pre.chapters@, k, i as int);
                                        }
                                    }
                                }
                                lemma_sorted_order(pre.chapters@, 0, i as int);
                            }
                        }
                        break;
                    }
                } else if ts.as_u64() < iter_ts.start.as_u64() {
                    // before the cursor's chapter: scan backward
                    searching_forward = false;
                    proof {
                        assert forall|k: int|
                            sorted && 0 <= k < pre.chapters@.len() && spec_in_range(
                                pre.chapters@[k],
                                ts,
                            ) implies k < i by {
                            if k >= i {
                                lemma_sorted_order(pre.chapters@, i as int, k);
                            }
                        }
                    }
                    if i > 0 {
                        i = i - 1;
                        self.iter = Option::Some(i);
                    } else {
                        // before the first chapter
                        self.iter = Option::Some(0);
                        proof {
                            if sorted {
                                assert(!some_chapter_holds(pre.chapters@, ts)) by {
                                    if some_chapter_holds(pre.chapters@, ts) {
                                        let k = choose|k: int|
                                            0 <= k < pre.chapters@.len() && spec_in_range(
                                                pre.chapters@[k],
                                                ts,
                                            );
                                        assert(k < 0);
                                    }
                                }
                            }
                        }
                        return PositionStatus::ChapterChanged { prev_chapter };
                    }
                } else {
                    // in a gap between two chapters
                    proof {
                        if sorted {
                            assert(!some_chapter_holds(pre.chapters@, ts)) by {
                                if some_chapter_holds(pre.chapters@, ts) {
                                    let k = choose|k: int|
                                        0 <= k < pre.chapters@.len() && spec_in_range(
                                            pre.chapters@[k],
                                            ts,
                                        );
                                    if searching_forward {
                                        assert(spec_in_range(pre.chapters@[i as int], ts));
                                    } else {
                                        if k < i {
                                            lemma_sorted_order(pre.chapters@, k, i as int);
                                        } else {
                                            assert(spec_in_range(pre.chapters@[i as int], ts));
                                        }
                                    }
                                }
                            }
                            lemma_sorted_order(pre.chapters@, 0, i as int);
                        }
                    }
                    break;
                }
            }
        }

        // no chapter holds the timestamp: a change is reported only if a
        // chapter had been selected
        match prev_chapter {
            Option::Some(prev_chapter) => PositionStatus::ChapterChanged {
                prev_chapter: Option::Some(prev_chapter),
            },
            Option::None => PositionStatus::ChapterNotChanged,
        }
    }
}

} // verus!
