//! The interactive session state machine: a finalized entry list, a
//! bounded cursor, and a monotonically increasing reclaimed-byte
//! counter.
//!
//! Deletion is optimistic by design: an entry is marked deleted and its
//! size added to the counter at the moment the removal is dispatched,
//! and the counter is never reconciled against the outcome of the
//! removal — a failed removal leaves the entry shown as deleted. The
//! caller performing the dispatch receives the path to remove and owes
//! the state machine nothing back.

use vstd::prelude::*;

use crate::entry::NodeModule;

verus! {

/// One interpreted input event of the session.
#[derive(Clone, Copy, Debug, PartialEq, Eq, Structural)]
pub enum Key {
    /// Move the cursor up.
    Up,
    /// Move the cursor down.
    Down,
    /// Mark the entry under the cursor deleted and dispatch its removal.
    Select,
    /// Any other (ignored) key.
    Other,
}

/// The sum of the sizes of all entries.
pub open spec fn sum_sizes(s: Seq<NodeModule>) -> int
    decreases s.len(),
{
    if s.len() == 0 {
        0
    } else {
        s[0].size + sum_sizes(s.drop_first())
    }
}

/// The sum of the sizes of the entries marked deleted.
pub open spec fn sum_deleted_sizes(s: Seq<NodeModule>) -> int
    decreases s.len(),
{
    if s.len() == 0 {
        0
    } else {
        (if s[0].deleted {
            s[0].size as int
        } else {
            0
        }) + sum_deleted_sizes(s.drop_first())
    }
}

/// The deleted entries' sizes sum to at most the sizes of all entries.
pub proof fn lemma_sum_deleted_le(s: Seq<NodeModule>)
    ensures
        0 <= sum_deleted_sizes(s) <= sum_sizes(s),
    decreases s.len(),
{
    if s.len() > 0 {
        lemma_sum_deleted_le(s.drop_first());
    }
}

/// With no entry marked deleted, the deleted sum is zero.
proof fn lemma_sum_deleted_none(s: Seq<NodeModule>)
    requires
        forall|i: int| 0 <= i < s.len() ==> !s[i].deleted,
    ensures
        sum_deleted_sizes(s) == 0,
    decreases s.len(),
{
    if s.len() > 0 {
        assert(forall|i: int|
            0 <= i < s.drop_first().len() ==> s.drop_first()[i] == s[i + 1]);
        lemma_sum_deleted_none(s.drop_first());
    }
}

/// Marking one undeleted entry deleted leaves an undeleted entry's
/// share of room: its size still fits under the total.
proof fn lemma_sum_deleted_headroom(s: Seq<NodeModule>, i: int)
    requires
        0 <= i < s.len(),
        !s[i].deleted,
    ensures
        sum_deleted_sizes(s) + s[i].size <= sum_sizes(s),
    decreases s.len(),
{
    if i == 0 {
        lemma_sum_deleted_le(s.drop_first());
    } else {
        assert(s.drop_first()[i - 1] == s[i]);
        lemma_sum_deleted_headroom(s.drop_first(), i - 1);
    }
}

/// How marking the entry at `i` deleted moves the two sums: the total
/// is unchanged, the deleted sum grows by that entry's size.
proof fn lemma_sums_update_delete(s: Seq<NodeModule>, i: int, m: NodeModule)
    requires
        0 <= i < s.len(),
        !s[i].deleted,
        m.deleted,
        m.size == s[i].size,
    ensures
        sum_sizes(s.update(i, m)) == sum_sizes(s),
        sum_deleted_sizes(s.update(i, m)) == sum_deleted_sizes(s) + s[i].size,
    decreases s.len(),
{
    let s2 = s.update(i, m);
    if i == 0 {
        assert(s2.drop_first() =~= s.drop_first());
    } else {
        assert(s2.drop_first() =~= s.drop_first().update(i - 1, m));
        assert(s.drop_first()[i - 1] == s[i]);
        lemma_sums_update_delete(s.drop_first(), i - 1, m);
    }
}

/// The entry `m` with its deleted flag set.
pub open spec fn mark_deleted(m: NodeModule) -> NodeModule {
    NodeModule {
        path: m.path,
        size: m.size,
        modified: m.modified,
        deleted: true,
        is_dangerous: m.is_dangerous,
    }
}

/// The paths of the entries not yet marked deleted, in list order.
pub open spec fn undeleted_paths(s: Seq<NodeModule>) -> Seq<Seq<char>>
    decreases s.len(),
{
    if s.len() == 0 {
        Seq::empty()
    } else if s[0].deleted {
        undeleted_paths(s.drop_first())
    } else {
        seq![s[0].path@] + undeleted_paths(s.drop_first())
    }
}

/// The interactive session state.
pub struct App {
    /// The finalized, ordered entry list.
    pub modules: Vec<NodeModule>,
    /// Cursor index into `modules`.
    pub scroll: usize,
    /// Duration of the scan, in milliseconds, recorded once at startup.
    pub scan_time: u64,
    /// Bytes reclaimed so far: the sum of the sizes of the entries
    /// marked deleted. Never decremented.
    pub total_deleted: u64,
}

impl App {
    /// Session well-formedness: the cursor is a valid index (or zero on
    /// an empty list), the counter equals the deleted entries' size
    /// sum, and all sizes together fit the counter's width.
    pub open spec fn wf(self) -> bool {
        &&& self.total_deleted == sum_deleted_sizes(self.modules@)
        &&& sum_sizes(self.modules@) <= u64::MAX
        &&& (if self.modules@.len() == 0 {
            self.scroll == 0
        } else {
            self.scroll < self.modules@.len()
        })
    }

    /// Starts a session over the finalized entry list. The entries come
    /// from discovery and none is yet deleted; their sizes sum within
    /// the counter's width, which the caller checks beforehand.
    pub fn new(modules: Vec<NodeModule>, scan_time: u64) -> (r: App)
        requires
            sum_sizes(modules@) <= u64::MAX,
            forall|i: int| 0 <= i < modules@.len() ==> !modules@[i].deleted,
        ensures
            r.wf(),
            r.modules@ == modules@,
            r.scroll == 0,
            r.scan_time == scan_time,
            r.total_deleted == 0,
    {
        proof {
            lemma_sum_deleted_none(modules@);
        }
        App { modules, scroll: 0, scan_time, total_deleted: 0 }
    }

    /// Whether a select event would act: the list is non-empty and the
    /// entry under the cursor is not yet deleted.
    pub open spec fn select_active(self) -> bool {
        self.modules@.len() > 0 && !self.modules@[self.scroll as int].deleted
    }

    /// The cursor after a clamped move: one step up or down, held
    /// within the list.
    pub open spec fn moved_cursor(self, key: Key) -> int {
        match key {
            Key::Up => if self.scroll > 0 {
                self.scroll - 1
            } else {
                0
            },
            Key::Down => if self.scroll + 1 < self.modules@.len() {
                self.scroll + 1
            } else {
                self.scroll as int
            },
            _ => self.scroll as int,
        }
    }

    /// Consumes one input event.
    ///
    /// Cursor moves clamp at the ends of the list. Selecting an
    /// undeleted entry marks it deleted, adds its size to the counter,
    /// and returns its path so the caller can dispatch the removal;
    /// the state does not change again if the removal later fails.
    /// Selecting a deleted entry, or anything on an empty list, is a
    /// no-op.
    pub fn on_key(&mut self, key: Key) -> (dispatch: Option<String>)
        requires
            old(self).wf(),
        ensures
            final(self).wf(),
            final(self).scan_time == old(self).scan_time,
            (key is Up || key is Down) ==> {
                &&& final(self).modules@ == old(self).modules@
                &&& final(self).total_deleted == old(self).total_deleted
                &&& final(self).scroll as int == old(self).moved_cursor(key)
            },
            key is Other ==> *final(self) == *old(self),
            (key is Select && old(self).select_active()) ==> {
                let m = old(self).modules@[old(self).scroll as int];
                &&& final(self).modules@ == old(self).modules@.update(
                    old(self).scroll as int,
                    mark_deleted(m),
                )
                &&& final(self).total_deleted == old(self).total_deleted + m.size
                &&& final(self).scroll == old(self).scroll
                &&& (dispatch matches Some(p) && p@ == m.path@)
            },
            (key is Select && !old(self).select_active()) ==> *final(self) == *old(self),
            !(key is Select && old(self).select_active()) ==> dispatch is None,
            final(self).total_deleted >= old(self).total_deleted,
    {
        match key {
            Key::Up => {
                if self.scroll > 0 {
                    self.scroll = self.scroll - 1;
                }
                None
            },
            Key::Down => {
                let len: usize = self.modules.len();
                if len > 0 && self.scroll < len - 1 {
                    self.scroll = self.scroll + 1;
                }
                None
            },
            Key::Select => {
                let len: usize = self.modules.len();
                if len == 0 {
                    return None;
                }
                if self.modules[self.scroll].deleted {
                    return None;
                }
                let ghost s = self.modules@;
                let ghost i = self.scroll as int;
                let size: u64 = self.modules[self.scroll].size;
                let path: String = self.modules[self.scroll].path.clone();
                proof {
                    lemma_sum_deleted_headroom(s, i);
                }
                self.modules[self.scroll].deleted = true;
                proof {
                    assert(self.modules@ =~= s.update(i, mark_deleted(s[i])));
                    lemma_sums_update_delete(s, i, mark_deleted(s[i]));
                }
                self.total_deleted = self.total_deleted + size;
                Some(path)
            },
            Key::Other => None,
        }
    }

    /// One bulk-deletion pass: marks every entry not yet deleted,
    /// accounts each size once, and returns the marked entries' paths,
    /// in list order, for the caller to dispatch. Entries already
    /// deleted — including everything on a second pass — are skipped,
    /// so each entry is dispatched exactly once across passes.
    pub fn bulk_mark_pass(&mut self) -> (dispatch: Vec<String>)
        requires
            old(self).wf(),
        ensures
            final(self).wf(),
            final(self).scan_time == old(self).scan_time,
            final(self).scroll == old(self).scroll,
            final(self).modules@.len() == old(self).modules@.len(),
            forall|i: int|
                0 <= i < old(self).modules@.len() ==> final(self).modules@[i] == mark_deleted(
                    old(self).modules@[i],
                ),
            dispatch.deep_view() == undeleted_paths(old(self).modules@),
            final(self).total_deleted == sum_sizes(old(self).modules@),
            final(self).total_deleted >= old(self).total_deleted,
    {
        let ghost orig = self.modules@;
        let len: usize = self.modules.len();
        let mut out: Vec<String> = Vec::new();
        let mut i: usize = 0;
        proof {
            assert(out.deep_view() =~= Seq::<Seq<char>>::empty());
            assert(orig.skip(0) =~= orig);
        }
        while i < len
            invariant
                i <= len,
                len == self.modules@.len(),
                len == orig.len(),
                self.scroll == old(self).scroll,
                self.scan_time == old(self).scan_time,
                self.wf(),
                forall|k: int| 0 <= k < i ==> self.modules@[k] == mark_deleted(orig[k]),
                forall|k: int| i <= k < len ==> self.modules@[k] == orig[k],
                out.deep_view() + undeleted_paths(self.modules@.skip(i as int))
                    == undeleted_paths(orig),
                sum_sizes(self.modules@) == sum_sizes(orig),
            decreases len - i,
        {
            let ghost s = self.modules@;
            let ghost tail = s.skip(i as int);
            proof {
                assert(tail[0] == s[i as int]);
                assert(tail.drop_first() =~= s.skip(i + 1));
            }
            if !self.modules[i].deleted {
                let size: u64 = self.modules[i].size;
                let path: String = self.modules[i].path.clone();
                proof {
                    lemma_sum_deleted_headroom(s, i as int);
                }
                let ghost odv = out.deep_view();
                out.push(path);
                self.modules[i].deleted = true;
                proof {
                    assert(self.modules@ =~= s.update(i as int, mark_deleted(s[i as int])));
                    lemma_sums_update_delete(s, i as int, mark_deleted(s[i as int]));
                    assert(out.deep_view() =~= odv.push(s[i as int].path@));
                    assert(undeleted_paths(tail) == seq![s[i as int].path@]
                        + undeleted_paths(s.skip(i + 1)));
                    assert(self.modules@.skip(i + 1) =~= s.skip(i + 1));
                    assert(out.deep_view() + undeleted_paths(self.modules@.skip(i + 1))
                        =~= odv + undeleted_paths(tail));
                }
                self.total_deleted = self.total_deleted + size;
            } else {
                proof {
                    assert(undeleted_paths(tail) == undeleted_paths(s.skip(i + 1)));
                    assert(mark_deleted(orig[i as int]) == s[i as int]);
                }
            }
            i = i + 1;
        }
        proof {
            assert(self.modules@.skip(len as int) =~= Seq::<NodeModule>::empty());
            assert(out.deep_view() + Seq::<Seq<char>>::empty() =~= out.deep_view());
            assert(self.total_deleted == sum_deleted_sizes(self.modules@));
            lemma_all_deleted_sum(self.modules@);
            lemma_sum_deleted_le(orig);
        }
        out
    }
}

/// When every entry is marked deleted, the deleted sum is the whole
/// sum.
proof fn lemma_all_deleted_sum(s: Seq<NodeModule>)
    requires
        forall|i: int| 0 <= i < s.len() ==> s[i].deleted,
    ensures
        sum_deleted_sizes(s) == sum_sizes(s),
    decreases s.len(),
{
    if s.len() > 0 {
        assert(forall|i: int|
            0 <= i < s.drop_first().len() ==> s.drop_first()[i] == s[i + 1]);
        lemma_all_deleted_sum(s.drop_first());
    }
}

/// The bulk-delete confirmation decision: only the affirmative key
/// proceeds; any other key aborts the session with no deletions.
pub fn confirm_decision(key: char) -> (r: bool)
    ensures
        r == (key == 'y'),
{
    key == 'y'
}

/// Accounting law: in any well-formed session state, the reclaimed-byte
/// counter equals the sum of the sizes of the entries marked deleted —
/// whether or not any dispatched removal succeeded.
pub proof fn lemma_reclaimed_equals_deleted_sizes(app: App)
    requires
        app.wf(),
    ensures
        app.total_deleted == sum_deleted_sizes(app.modules@),
{
}

/// Cursor law: in any well-formed session state the cursor stays within
/// the list; on an empty list it stays at zero, so there is no entry to
/// select.
pub proof fn lemma_cursor_in_bounds(app: App)
    requires
        app.wf(),
    ensures
        app.modules@.len() == 0 ==> app.scroll == 0,
        app.modules@.len() > 0 ==> app.scroll < app.modules@.len(),
{
}

} // verus!
