//! The delivery ledger: which commits have been announced. It is the one
//! source of truth for that question, and it bounds its own growth.

use crate::clock::now_rfc3339;
use crate::text::starts_with;
use vstd::prelude::*;
use vstd::string::*;

verus! {

/// One announced commit.
#[derive(Debug, PartialEq, Eq)]
pub struct LedgerEntry {
    pub commit_id: i32,
    pub author: String,
    pub message: String,
    pub branch: String,
    pub changeset: String,
    pub sent_at: String,
}

pub struct LedgerEntryView {
    pub commit_id: i32,
    pub author: Seq<char>,
    pub message: Seq<char>,
    pub branch: Seq<char>,
    pub changeset: Seq<char>,
    pub sent_at: Seq<char>,
}

impl View for LedgerEntry {
    type V = LedgerEntryView;

    open spec fn view(&self) -> LedgerEntryView {
        LedgerEntryView {
            commit_id: self.commit_id,
            author: self.author@,
            message: self.message@,
            branch: self.branch@,
            changeset: self.changeset@,
            sent_at: self.sent_at@,
        }
    }
}

/// A failure of the store behind a ledger.
#[derive(Debug, PartialEq, Eq)]
pub struct StorageError {
    pub detail: String,
}

pub struct StorageErrorView {
    pub detail: Seq<char>,
}

impl View for StorageError {
    type V = StorageErrorView;

    open spec fn view(&self) -> StorageErrorView {
        StorageErrorView { detail: self.detail@ }
    }
}

impl StorageError {
    /// The error in words.
    pub fn message(&self) -> (r: String)
        ensures
            r@ == self@.detail,
    {
        self.detail.clone()
    }
}

/// The ledger after `entry` was recorded: unchanged where its commit is
/// already there, else with `entry` under its commit id.
pub open spec fn recorded(
    ledger: Map<int, LedgerEntryView>,
    entry: LedgerEntryView,
) -> Map<int, LedgerEntryView> {
    if ledger.contains_key(entry.commit_id as int) {
        ledger
    } else {
        ledger.insert(entry.commit_id as int, entry)
    }
}

/// The ids among `ids` that are higher than `id`.
pub open spec fn newer_than(ids: Set<int>, id: int) -> Set<int> {
    ids.filter(|other: int| other > id)
}

/// Whether `id` is among the `keep` highest of `ids`. A negative `keep` sets
/// no bound.
pub open spec fn survives(ids: Set<int>, keep: int, id: int) -> bool {
    ids.contains(id) && (keep < 0 || newer_than(ids, id).len() < keep)
}

/// The ledger after trimming to the `keep` entries with the highest ids.
pub open spec fn trimmed(ledger: Map<int, LedgerEntryView>, keep: int) -> Map<
    int,
    LedgerEntryView,
> {
    ledger.restrict(Set::new(|id: int| survives(ledger.dom(), keep, id)))
}

/// Whether `id` is the highest id in the ledger.
pub open spec fn is_latest(ledger: Map<int, LedgerEntryView>, id: int) -> bool {
    ledger.contains_key(id) && forall|other: int| ledger.contains_key(other) ==> other <= id
}

/// The file behind a store address of the form `sqlite:` and a path.
pub open spec fn sqlite_path(url: Seq<char>) -> Option<Seq<char>> {
    if "sqlite:"@.is_prefix_of(url) {
        Some(url.skip(7))
    } else {
        None
    }
}

/// The commit ids of the rows, in the rows' order.
spec fn ids_of(rows: Seq<LedgerEntry>) -> Seq<int> {
    rows.map_values(|row: LedgerEntry| row.commit_id as int)
}

/// Whether each id is higher than all before it.
spec fn ascending(ids: Seq<int>) -> bool {
    forall|i: int, j: int| 0 <= i < j < ids.len() ==> ids[i] < ids[j]
}

/// A row that holds the commit `id`.
spec fn row_of(rows: Seq<LedgerEntry>, id: int) -> int {
    choose|i: int| 0 <= i < rows.len() && rows[i].commit_id as int == id
}

/// The ledger that the rows make up: each row's entry under its commit id.
spec fn ledger_of(rows: Seq<LedgerEntry>) -> Map<int, LedgerEntryView> {
    Map::new(
        |id: int| exists|i: int| 0 <= i < rows.len() && rows[i].commit_id as int == id,
        |id: int| rows[row_of(rows, id)]@,
    )
}

/// Rows in ascending order hold each id once: the ledger has one entry per
/// row, the one that the row holds.
proof fn lemma_rows(rows: Seq<LedgerEntry>)
    requires
        ascending(ids_of(rows)),
    ensures
        ledger_of(rows).dom() == ids_of(rows).to_set(),
        ledger_of(rows).dom().finite(),
        ledger_of(rows).dom().len() == rows.len(),
        ids_of(rows).no_duplicates(),
        forall|i: int|
            0 <= i < rows.len() ==> #[trigger] ledger_of(rows).contains_key(
                rows[i].commit_id as int,
            ) && ledger_of(rows)[rows[i].commit_id as int] == rows[i]@,
{
    let ids = ids_of(rows);
    assert(ids.no_duplicates()) by {
        assert forall|i: int, j: int| 0 <= i < ids.len() && 0 <= j < ids.len() && i != j implies ids[i]
            != ids[j] by {
            if i < j {
                assert(ids[i] < ids[j]);
            } else {
                assert(ids[j] < ids[i]);
            }
        }
    }
    assert(ledger_of(rows).dom() =~= ids.to_set()) by {
        assert forall|id: int| ledger_of(rows).dom().contains(id) implies ids.to_set().contains(
            id,
        ) by {
            let i = row_of(rows, id);
            assert(ids[i] == id);
        }
        assert forall|id: int| ids.to_set().contains(id) implies ledger_of(rows).dom().contains(
            id,
        ) by {
            let i = choose|i: int| 0 <= i < ids.len() && ids[i] == id;
            assert(rows[i].commit_id as int == id);
        }
    }
    ids.unique_seq_to_set();
    assert forall|i: int| 0 <= i < rows.len() implies #[trigger] ledger_of(rows).contains_key(
        rows[i].commit_id as int,
    ) && ledger_of(rows)[rows[i].commit_id as int] == rows[i]@ by {
        let id = rows[i].commit_id as int;
        let k = row_of(rows, id);
        assert(ids[i] == id);
        assert(ids[k] == id);
        if k < i {
            assert(ids[k] < ids[i]);
        } else if i < k {
            assert(ids[i] < ids[k]);
        }
    }
}

/// In ascending rows the ids above that of row `i` are those of the rows
/// after it.
proof fn lemma_newer(rows: Seq<LedgerEntry>, i: int)
    requires
        ascending(ids_of(rows)),
        0 <= i < rows.len(),
    ensures
        newer_than(ledger_of(rows).dom(), rows[i].commit_id as int).len() == rows.len() - 1 - i,
{
    let ids = ids_of(rows);
    let tail = ids.subrange(i + 1, ids.len() as int);
    lemma_rows(rows);
    assert(tail.no_duplicates()) by {
        assert forall|a: int, b: int| 0 <= a < tail.len() && 0 <= b < tail.len() && a != b implies tail[a]
            != tail[b] by {
            assert(tail[a] == ids[i + 1 + a]);
            assert(tail[b] == ids[i + 1 + b]);
        }
    }
    tail.unique_seq_to_set();
    let above = newer_than(ledger_of(rows).dom(), ids[i]);
    assert(above =~= tail.to_set()) by {
        assert forall|id: int| above.contains(id) implies tail.to_set().contains(id) by {
            let k = choose|k: int| 0 <= k < ids.len() && ids[k] == id;
            if k <= i {
                if k < i {
                    assert(ids[k] < ids[i]);
                }
            } else {
                assert(tail[k - i - 1] == id);
            }
        }
        assert forall|id: int| tail.to_set().contains(id) implies above.contains(id) by {
            let k = choose|k: int| 0 <= k < tail.len() && tail[k] == id;
            assert(ids[i + 1 + k] == id);
            assert(ids[i] < ids[i + 1 + k]);
            assert(ids.to_set().contains(id));
        }
    }
}

/// Where the rows are cut so that the `keep` highest stay.
spec fn cut_of(len: int, keep: int) -> int {
    if keep < 0 || keep >= len {
        0
    } else {
        len - keep
    }
}

/// Trimming ascending rows drops a prefix of them.
proof fn lemma_trim(rows: Seq<LedgerEntry>, keep: int)
    requires
        ascending(ids_of(rows)),
    ensures
        trimmed(ledger_of(rows), keep) == ledger_of(
            rows.subrange(cut_of(rows.len() as int, keep), rows.len() as int),
        ),
        ascending(ids_of(rows.subrange(cut_of(rows.len() as int, keep), rows.len() as int))),
{
    let len = rows.len() as int;
    let cut = cut_of(len, keep);
    let kept = rows.subrange(cut, len);
    let ids = ids_of(rows);
    assert(ascending(ids_of(kept))) by {
        assert forall|i: int, j: int| 0 <= i < j < kept.len() implies ids_of(kept)[i] < ids_of(
            kept,
        )[j] by {
            assert(ids_of(kept)[i] == ids[cut + i]);
            assert(ids_of(kept)[j] == ids[cut + j]);
        }
    }
    lemma_rows(rows);
    lemma_rows(kept);
    let left = trimmed(ledger_of(rows), keep);
    let right = ledger_of(kept);
    assert forall|id: int| #[trigger] left.dom().contains(id) implies right.dom().contains(id)
        && left[id] == right[id] by {
        assert(ids.to_set().contains(id));
        let i = choose|i: int| 0 <= i < ids.len() && ids[i] == id;
        assert(rows[i].commit_id as int == id);
        lemma_newer(rows, i);
        assert(survives(ledger_of(rows).dom(), keep, id));
        assert(i >= cut);
        assert(kept[i - cut] == rows[i]);
        assert(ledger_of(rows).contains_key(rows[i].commit_id as int));
        assert(right.contains_key(kept[i - cut].commit_id as int));
        assert(left[id] == ledger_of(rows)[id]);
    }
    assert forall|id: int| #[trigger] right.dom().contains(id) implies left.dom().contains(id) by {
        assert(ids_of(kept).to_set().contains(id));
        let k = choose|k: int| 0 <= k < kept.len() && ids_of(kept)[k] == id;
        assert(kept[k] == rows[cut + k]);
        assert(rows[cut + k].commit_id as int == id);
        assert(ledger_of(rows).contains_key(rows[cut + k].commit_id as int));
        lemma_newer(rows, cut + k);
        assert(survives(ledger_of(rows).dom(), keep, id));
    }
    assert(left.dom() =~= right.dom());
    assert(left =~= right);
}

/// Ascending ids lie at least as far apart as their rows.
proof fn lemma_spread(ids: Seq<int>, i: int)
    requires
        ascending(ids),
        0 <= i < ids.len(),
    ensures
        ids[i] >= ids[0] + i,
    decreases i,
{
    if i > 0 {
        lemma_spread(ids, i - 1);
        assert(ids[i - 1] < ids[i]);
    }
}

/// The ledger, held in memory: its entries in ascending order of their
/// commit ids.
#[derive(Debug)]
pub struct Database {
    rows: Vec<LedgerEntry>,
}

impl View for Database {
    type V = Map<int, LedgerEntryView>;

    closed spec fn view(&self) -> Map<int, LedgerEntryView> {
        ledger_of(self.rows@)
    }
}

impl Database {
    /// The validity of a ledger: it holds each commit id at most once.
    pub closed spec fn wf(&self) -> bool {
        ascending(ids_of(self.rows@))
    }

    /// An empty ledger.
    pub fn new() -> (r: Self)
        ensures
            r.wf(),
            r@ == Map::<int, LedgerEntryView>::empty(),
    {
        let r = Database { rows: Vec::new() };
        assert(r@ =~= Map::<int, LedgerEntryView>::empty());
        r
    }

    /// A valid ledger is finite and keyed by the ids of its entries.
    pub proof fn lemma_valid(self)
        requires
            self.wf(),
        ensures
            self@.dom().finite(),
            forall|id: int| self@.contains_key(id) ==> #[trigger] self@[id].commit_id as int == id,
    {
        lemma_rows(self.rows@);
        assert forall|id: int| self@.contains_key(id) implies #[trigger] self@[id].commit_id as int
            == id by {
            let i = row_of(self.rows@, id);
            assert(self.rows@[i].commit_id as int == id);
        }
    }

    /// What trimming leaves of a valid ledger: its highest entries, as many
    /// as the bound allows.
    proof fn lemma_trimmed(self, keep: int)
        requires
            self.wf(),
            keep >= 0,
        ensures
            self@.dom().finite(),
            trimmed(self@, keep).dom().finite(),
            trimmed(self@, keep).dom().len() == if self@.dom().len() <= keep {
                self@.dom().len()
            } else {
                keep as nat
            },
            keep >= 1 ==> forall|id: int|
                is_latest(self@, id) ==> trimmed(self@, keep).contains_key(id) && trimmed(
                    self@,
                    keep,
                )[id] == self@[id],
    {
        let rows = self.rows@;
        let len = rows.len() as int;
        let cut = cut_of(len, keep);
        let kept = rows.subrange(cut, len);
        lemma_trim(rows, keep);
        lemma_rows(rows);
        lemma_rows(kept);
        if keep >= 1 {
            assert forall|id: int| is_latest(self@, id) implies trimmed(self@, keep).contains_key(
                id,
            ) && trimmed(self@, keep)[id] == self@[id] by {
                let i = row_of(rows, id);
                assert(rows[i].commit_id as int == id);
                assert(self@.contains_key(rows[len - 1].commit_id as int));
                if i < len - 1 {
                    assert(ids_of(rows)[i] < ids_of(rows)[len - 1]);
                }
                assert(i == len - 1);
                assert(kept[len - 1 - cut] == rows[len - 1]);
                assert(ledger_of(kept).contains_key(kept[len - 1 - cut].commit_id as int));
            }
        }
    }

    /// The row at which `commit_id` stands, or before which it would.
    fn position(&self, commit_id: i32) -> (r: (usize, bool))
        requires
            self.wf(),
        ensures
            r.0 <= self.rows@.len(),
            forall|i: int| 0 <= i < r.0 ==> ids_of(self.rows@)[i] < commit_id,
            forall|i: int| r.0 <= i < self.rows@.len() ==> ids_of(self.rows@)[i] >= commit_id,
            r.1 == (r.0 < self.rows@.len() && self.rows@[r.0 as int].commit_id == commit_id),
            r.1 == self@.contains_key(commit_id as int),
    {
        let ghost ids = ids_of(self.rows@);
        let mut lo: usize = 0;
        let mut hi: usize = self.rows.len();
        while lo < hi
            invariant
                lo <= hi <= self.rows@.len(),
                ids == ids_of(self.rows@),
                ascending(ids),
                forall|i: int| 0 <= i < lo ==> ids[i] < commit_id,
                forall|i: int| hi <= i < ids.len() ==> ids[i] >= commit_id,
            decreases hi - lo,
        {
            let mid: usize = lo + (hi - lo) / 2;
            if self.rows[mid].commit_id < commit_id {
                assert forall|i: int| 0 <= i < mid + 1 implies ids[i] < commit_id by {
                    if i < mid {
                        assert(ids[i] < ids[mid as int]);
                    }
                }
                lo = mid + 1;
            } else {
                assert forall|i: int| mid <= i < ids.len() implies ids[i] >= commit_id by {
                    if i > mid {
                        assert(ids[mid as int] < ids[i]);
                    }
                }
                hi = mid;
            }
        }
        let found: bool = lo < self.rows.len() && self.rows[lo].commit_id == commit_id;
        proof {
            lemma_rows(self.rows@);
            if found {
                assert(self@.contains_key(self.rows@[lo as int].commit_id as int));
            } else if self@.contains_key(commit_id as int) {
                let k = row_of(self.rows@, commit_id as int);
                assert(ids[k] == commit_id);
                if k > lo {
                    assert(ids[lo as int] < ids[k]);
                }
            }
        }
        (lo, found)
    }

    /// Whether the commit numbered `commit_id` has been announced.
    pub fn is_commit_sent(&self, commit_id: i32) -> (sent: bool)
        requires
            self.wf(),
        ensures
            sent == self@.contains_key(commit_id as int),
    {
        self.position(commit_id).1
    }

    /// Records a commit as announced at `sent_at`. Recording a commit that is
    /// already there changes nothing.
    pub fn record_at(
        &mut self,
        commit_id: i32,
        author: &str,
        message: &str,
        branch: &str,
        changeset: &str,
        sent_at: &str,
    )
        requires
            old(self).wf(),
        ensures
            final(self).wf(),
            final(self)@ == recorded(
                old(self)@,
                LedgerEntryView {
                    commit_id,
                    author: author@,
                    message: message@,
                    branch: branch@,
                    changeset: changeset@,
                    sent_at: sent_at@,
                },
            ),
    {
        let (at, found) = self.position(commit_id);
        if found {
            return ;
        }
        let entry = LedgerEntry {
            commit_id,
            author: String::from_str(author),
            message: String::from_str(message),
            branch: String::from_str(branch),
            changeset: String::from_str(changeset),
            sent_at: String::from_str(sent_at),
        };
        let ghost before = self.rows@;
        let ghost want = recorded(old(self)@, entry@);
        self.rows.insert(at, entry);
        proof {
            let after = self.rows@;
            assert(after == before.insert(at as int, entry));
            assert(ascending(ids_of(after))) by {
                assert forall|i: int, j: int| 0 <= i < j < after.len() implies ids_of(after)[i]
                    < ids_of(after)[j] by {
                    let a = if i < at {
                        i
                    } else {
                        i - 1
                    };
                    let b = if j < at {
                        j
                    } else {
                        j - 1
                    };
                    if i != at {
                        assert(after[i] == before[a]);
                        assert(ids_of(before)[a] == before[a].commit_id);
                    }
                    if j != at {
                        assert(after[j] == before[b]);
                        assert(ids_of(before)[b] == before[b].commit_id);
                    }
                    if i != at && j != at {
                        assert(ids_of(before)[a] < ids_of(before)[b]);
                    }
                }
            }
            lemma_rows(before);
            lemma_rows(after);
            assert(ledger_of(after) =~= want) by {
                assert forall|id: int| ledger_of(after).contains_key(id) implies want.contains_key(
                    id,
                ) && ledger_of(after)[id] == want[id] by {
                    let i = choose|i: int| 0 <= i < after.len() && ids_of(after)[i] == id;
                    assert(after[i].commit_id as int == id);
                    assert(ledger_of(after).contains_key(after[i].commit_id as int));
                    if i == at {
                    } else {
                        let a = if i < at {
                            i
                        } else {
                            i - 1
                        };
                        assert(after[i] == before[a]);
                        assert(ledger_of(before).contains_key(before[a].commit_id as int));
                    }
                }
                assert forall|id: int| want.contains_key(id) implies ledger_of(after).contains_key(
                    id,
                ) by {
                    if id == commit_id as int {
                        assert(after[at as int].commit_id as int == id);
                    } else {
                        let a = choose|a: int| 0 <= a < before.len() && ids_of(before)[a] == id;
                        let i = if a < at {
                            a
                        } else {
                            a + 1
                        };
                        assert(after[i] == before[a]);
                        assert(after[i].commit_id as int == id);
                    }
                }
            }
        }
    }

    /// Records a commit as announced now. Recording a commit that is already
    /// there changes nothing. Everything but the time of the new entry is
    /// fixed by the arguments.
    pub fn mark_commit_sent(
        &mut self,
        commit_id: i32,
        author: &str,
        message: &str,
        branch: &str,
        changeset: &str,
    )
        requires
            old(self).wf(),
        ensures
            final(self).wf(),
            final(self)@.contains_key(commit_id as int),
            final(self)@ == recorded(
                old(self)@,
                LedgerEntryView {
                    commit_id,
                    author: author@,
                    message: message@,
                    branch: branch@,
                    changeset: changeset@,
                    sent_at: final(self)@[commit_id as int].sent_at,
                },
            ),
    {
        let stamp = now_rfc3339();
        self.record_at(commit_id, author, message, branch, changeset, stamp.as_str());
    }

    /// The highest commit id in the ledger; `None` where the ledger is empty.
    pub fn get_last_sent_commit_id(&self) -> (r: Option<i32>)
        requires
            self.wf(),
        ensures
            match r {
                Some(id) => is_latest(self@, id as int),
                None => self@ == Map::<int, LedgerEntryView>::empty(),
            },
    {
        match self.get_last_sent_commit_info() {
            Some(last) => Some(last.0),
            None => None,
        }
    }

    /// The highest commit id in the ledger with its changeset; `None` where
    /// the ledger is empty.
    pub fn get_last_sent_commit_info(&self) -> (r: Option<(i32, String)>)
        requires
            self.wf(),
        ensures
            match r {
                Some(last) => is_latest(self@, last.0 as int) && last.1@ == self@[last.0 as int].changeset,
                None => self@ == Map::<int, LedgerEntryView>::empty(),
            },
    {
        proof {
            lemma_rows(self.rows@);
        }
        let n: usize = self.rows.len();
        if n == 0 {
            assert(self@ =~= Map::<int, LedgerEntryView>::empty());
            return None;
        }
        let last = &self.rows[n - 1];
        proof {
            let ids = ids_of(self.rows@);
            assert(self@.contains_key(self.rows@[n - 1].commit_id as int));
            assert forall|other: int| self@.contains_key(other) implies other <= last.commit_id by {
                let k = row_of(self.rows@, other);
                assert(ids[k] == other);
                if k < n - 1 {
                    assert(ids[k] < ids[n - 1]);
                }
            }
        }
        Some((last.commit_id, last.changeset.clone()))
    }

    /// How many commits the ledger holds.
    pub fn get_sent_commits_count(&self) -> (n: i64)
        requires
            self.wf(),
        ensures
            n == self@.dom().len(),
    {
        proof {
            lemma_rows(self.rows@);
            let ids = ids_of(self.rows@);
            if ids.len() > 0 {
                lemma_spread(ids, ids.len() - 1);
                assert(ids[0] == self.rows@[0].commit_id);
                assert(ids[ids.len() - 1] == self.rows@[ids.len() - 1].commit_id);
            }
        }
        self.rows.len() as i64
    }

    /// Drops all entries but the `keep_last` with the highest commit ids. A
    /// negative `keep_last` sets no bound, so nothing is dropped.
    pub fn cleanup_old_commits(&mut self, keep_last: i64)
        requires
            old(self).wf(),
        ensures
            final(self).wf(),
            final(self)@ == trimmed(old(self)@, keep_last as int),
    {
        proof {
            lemma_trim(self.rows@, keep_last as int);
        }
        let n: usize = self.rows.len();
        if keep_last < 0 || keep_last as u64 >= n as u64 {
            assert(self.rows@.subrange(0, n as int) =~= self.rows@);
            return ;
        }
        let cut: usize = n - keep_last as usize;
        let ghost before = self.rows@;
        let kept = self.rows.split_off(cut);
        proof {
            assert(ascending(ids_of(self.rows@))) by {
                assert forall|i: int, j: int| 0 <= i < j < self.rows@.len() implies ids_of(
                    self.rows@,
                )[i] < ids_of(self.rows@)[j] by {
                    assert(ids_of(self.rows@)[i] == ids_of(before)[i]);
                    assert(ids_of(self.rows@)[j] == ids_of(before)[j]);
                }
            }
        }
        self.rows = kept;
    }

    /// The file behind the store address `url`, where the address names one:
    /// what follows `sqlite:`.
    pub fn sqlite_file(url: &str) -> (r: Option<String>)
        ensures
            match r {
                Some(path) => sqlite_path(url@) == Some(path@),
                None => sqlite_path(url@) is None,
            },
    {
        if starts_with(url, "sqlite:") {
            proof {
                reveal_strlit("sqlite:");
            }
            let n: usize = url.unicode_len();
            let path = url.substring_char(7, n);
            assert(path@ =~= url@.skip(7));
            Some(String::from_str(path))
        } else {
            None
        }
    }
}

/// A change to the ledger.
pub enum LedgerOp {
    /// Recording an entry.
    Record(LedgerEntryView),
    /// Trimming to so many entries.
    Trim(int),
}

/// The ledger after one change.
pub open spec fn applied(ledger: Map<int, LedgerEntryView>, op: LedgerOp) -> Map<
    int,
    LedgerEntryView,
> {
    match op {
        LedgerOp::Record(entry) => recorded(ledger, entry),
        LedgerOp::Trim(keep) => trimmed(ledger, keep),
    }
}

/// The ledger that a history of changes leaves, starting from an empty one.
pub open spec fn replayed(history: Seq<LedgerOp>) -> Map<int, LedgerEntryView>
    decreases history.len(),
{
    if history.len() == 0 {
        Map::empty()
    } else {
        applied(replayed(history.drop_last()), history.last())
    }
}

/// The entries of `ledger` that carry the commit id `id`.
pub open spec fn entries_with(ledger: Map<int, LedgerEntryView>, id: int) -> Set<int> {
    Set::new(|key: int| ledger.contains_key(key) && ledger[key].commit_id as int == id)
}

/// Recording is idempotent: recording a commit a second time, with whatever
/// details, leaves the ledger as the first recording left it, with exactly
/// one entry for that commit.
pub proof fn lemma_record_is_idempotent(
    ledger: Database,
    first: LedgerEntryView,
    second: LedgerEntryView,
)
    requires
        ledger.wf(),
        first.commit_id == second.commit_id,
    ensures
        recorded(recorded(ledger@, first), second) == recorded(ledger@, first),
        entries_with(recorded(recorded(ledger@, first), second), first.commit_id as int) == set![
            first.commit_id as int,
        ],
        entries_with(recorded(recorded(ledger@, first), second), first.commit_id as int).len()
            == 1,
{
    ledger.lemma_valid();
    let once = recorded(ledger@, first);
    let id = first.commit_id as int;
    assert(once.contains_key(id));
    assert(entries_with(once, id) =~= set![id]);
}

/// Recording adds at most the one entry: the ledger grows by one where the
/// commit is new and keeps its size where it is not, and no other entry
/// changes.
pub proof fn lemma_record_grows_by_one(ledger: Database, entry: LedgerEntryView)
    requires
        ledger.wf(),
    ensures
        recorded(ledger@, entry).dom().finite(),
        recorded(ledger@, entry).dom().len() == ledger@.dom().len() + if ledger@.contains_key(
            entry.commit_id as int,
        ) {
            0int
        } else {
            1int
        },
        forall|id: int|
            ledger@.contains_key(id) ==> #[trigger] recorded(ledger@, entry).contains_key(id)
                && recorded(ledger@, entry)[id] == ledger@[id],
{
    ledger.lemma_valid();
}

/// Dedupe, first half: a commit that was just recorded is in the ledger, and
/// the recording decides the presence of no other commit.
pub proof fn lemma_recorded_is_present(ledger: Database, entry: LedgerEntryView, other: int)
    requires
        ledger.wf(),
    ensures
        recorded(ledger@, entry).contains_key(entry.commit_id as int),
        other != entry.commit_id ==> recorded(ledger@, entry).contains_key(other)
            == ledger@.contains_key(other),
{
}

/// Dedupe, second half: a commit that no change in the ledger's history
/// recorded is not in the ledger.
pub proof fn lemma_never_recorded_is_absent(history: Seq<LedgerOp>, id: int)
    requires
        forall|i: int|
            0 <= i < history.len() ==> (#[trigger] history[i] matches LedgerOp::Record(entry)
                ==> entry.commit_id as int != id),
    ensures
        !replayed(history).contains_key(id),
    decreases history.len(),
{
    if history.len() > 0 {
        let before = history.drop_last();
        assert forall|i: int| 0 <= i < before.len() implies (#[trigger] before[i] matches LedgerOp::Record(
            entry,
        ) ==> entry.commit_id as int != id) by {
            assert(before[i] == history[i]);
        }
        lemma_never_recorded_is_absent(before, id);
        let last = history[history.len() - 1];
        assert(last == history.last());
    }
}

/// Trimming only drops entries: what stays was there, unchanged.
pub proof fn lemma_trim_only_drops(ledger: Database, keep: int, id: int)
    requires
        ledger.wf(),
        trimmed(ledger@, keep).contains_key(id),
    ensures
        ledger@.contains_key(id),
        trimmed(ledger@, keep)[id] == ledger@[id],
{
}

/// The retention bound: after trimming to `keep` entries the ledger holds
/// `keep` of them or, where it held fewer, all it held; and the entry with
/// the highest commit id is still there. Stated for a bound of at least one;
/// for a bound of zero only of a ledger that is empty already.
pub proof fn lemma_trim_bounds(ledger: Database, keep: int)
    requires
        ledger.wf(),
        keep >= 1 || (keep == 0 && ledger@.dom().len() == 0),
    ensures
        trimmed(ledger@, keep).dom().finite(),
        trimmed(ledger@, keep).dom().len() <= keep,
        trimmed(ledger@, keep).dom().len() == if ledger@.dom().len() <= keep {
            ledger@.dom().len()
        } else {
            keep as nat
        },
        forall|id: int|
            is_latest(ledger@, id) ==> trimmed(ledger@, keep).contains_key(id) && trimmed(
                ledger@,
                keep,
            )[id] == ledger@[id],
{
    ledger.lemma_trimmed(keep);
}

/// A negative bound is no bound: trimming to it drops nothing.
pub proof fn lemma_trim_without_bound(ledger: Database, keep: int)
    requires
        ledger.wf(),
        keep < 0,
    ensures
        trimmed(ledger@, keep) == ledger@,
{
    ledger.lemma_valid();
    assert(trimmed(ledger@, keep) =~= ledger@);
}

} // verus!
