//! The action journal: an append-only list of operation records with
//! increasing ids, and the question that undo asks of it.

pub mod schema;

use crate::error::{AppError, AppErrorView};
use crate::text::{opt_view, same_text, views};
use vstd::prelude::*;
use vstd::string::*;

verus! {

/// One record of the journal.
#[derive(Debug)]
pub struct ActionLog {
    pub id: Option<i64>,
    pub timestamp: String,
    pub action: String,
    pub src_path: Option<String>,
    pub dst_path: Option<String>,
    pub status: String,
    pub message: Option<String>,
    pub batch_id: Option<String>,
}

/// A record as contracts see it.
pub struct ActionLogView {
    pub id: Option<i64>,
    pub timestamp: Seq<char>,
    pub action: Seq<char>,
    pub src_path: Option<Seq<char>>,
    pub dst_path: Option<Seq<char>>,
    pub status: Seq<char>,
    pub message: Option<Seq<char>>,
    pub batch_id: Option<Seq<char>>,
}

impl View for ActionLog {
    type V = ActionLogView;

    open spec fn view(&self) -> ActionLogView {
        ActionLogView {
            id: self.id,
            timestamp: self.timestamp@,
            action: self.action@,
            src_path: opt_view(self.src_path),
            dst_path: opt_view(self.dst_path),
            status: self.status@,
            message: opt_view(self.message),
            batch_id: opt_view(self.batch_id),
        }
    }
}

/// A copy of an optional string.
pub fn copy_opt(o: &Option<String>) -> (r: Option<String>)
    ensures
        opt_view(r) == opt_view(*o),
{
    match o {
        Some(s) => Some(s.clone()),
        None => None,
    }
}

impl ActionLog {
    /// A copy of the record.
    pub fn duplicate(&self) -> (r: ActionLog)
        ensures
            r@ == self@,
    {
        ActionLog {
            id: self.id,
            timestamp: self.timestamp.clone(),
            action: self.action.clone(),
            src_path: copy_opt(&self.src_path),
            dst_path: copy_opt(&self.dst_path),
            status: self.status.clone(),
            message: copy_opt(&self.message),
            batch_id: copy_opt(&self.batch_id),
        }
    }
}

/// The record reports an operation that succeeded.
pub open spec fn is_success(r: ActionLogView) -> bool {
    r.status == "SUCCESS"@
}

/// The kinds of operation that undo knows how to reverse.
pub open spec fn is_reversible_kind(action: Seq<char>) -> bool {
    action == "MOVE"@ || action == "RENAME"@ || action == "CREATE_DIR"@ || action == "DELETE"@
}

/// The kinds of record that never stand for a change to reverse.
pub open spec fn is_passive_kind(action: Seq<char>) -> bool {
    action == "LIST_DIR"@ || action == "UNDO"@
}

/// A successful record of a reversible kind.
pub open spec fn is_reversible(r: ActionLogView) -> bool {
    is_success(r) && is_reversible_kind(r.action)
}

/// The record that a successful undo leaves behind.
pub open spec fn is_undo_mark(r: ActionLogView) -> bool {
    is_success(r) && r.action == "UNDO"@
}

/// A record at which the scan from the newest record backwards stops: a
/// reversible one, or the mark of an undo.
pub open spec fn decides(r: ActionLogView) -> bool {
    is_reversible(r) || is_undo_mark(r)
}

/// The record belongs to batch `b`.
pub open spec fn in_batch(r: ActionLogView, b: Seq<char>) -> bool {
    r.batch_id == Some(b)
}

/// The index of the newest record for which `pred` holds.
pub open spec fn newest(s: Seq<ActionLogView>, pred: spec_fn(ActionLogView) -> bool) -> Option<int>
    decreases s.len(),
{
    if s.len() == 0 {
        None
    } else if pred(s.last()) {
        Some(s.len() - 1)
    } else {
        newest(s.drop_last(), pred)
    }
}

/// The records of batch `b`, oldest first.
pub open spec fn members_of(s: Seq<ActionLogView>, b: Seq<char>) -> Seq<ActionLogView> {
    s.filter(|r: ActionLogView| in_batch(r, b))
}

/// The batch that undo may reverse. The newest deciding record settles it:
/// where that is the mark of an undo, or where there is none, nothing is left
/// to reverse; where it is a reversible record, the batch is every record
/// that shares its batch id, oldest first, or the record alone where it
/// carries no batch id.
pub open spec fn reversible_batch(s: Seq<ActionLogView>) -> Seq<ActionLogView> {
    match newest(s, |r: ActionLogView| decides(r)) {
        None => Seq::empty(),
        Some(i) => {
            if is_undo_mark(s[i]) {
                Seq::empty()
            } else {
                match s[i].batch_id {
                    Some(b) => members_of(s, b),
                    None => seq![s[i]],
                }
            }
        },
    }
}

/// The newest `limit` records, newest first.
pub open spec fn recent(s: Seq<ActionLogView>, limit: nat) -> Seq<ActionLogView> {
    let n = if limit < s.len() {
        limit
    } else {
        s.len()
    };
    Seq::new(n, |k: int| s[s.len() - 1 - k])
}

/// Every record has an id, the ids grow strictly, and all lie below `next_id`.
pub open spec fn ids_increase(s: Seq<ActionLogView>, next_id: int) -> bool {
    &&& next_id >= 1
    &&& forall|i: int| 0 <= i < s.len() ==> (#[trigger] s[i]).id is Some
    &&& forall|i: int| 0 <= i < s.len() ==> 1 <= (#[trigger] s[i]).id->0 < next_id
    &&& forall|i: int, j: int|
        0 <= i < j < s.len() ==> (#[trigger] s[i]).id->0 < (#[trigger] s[j]).id->0
}

/// What `newest` finds: a record for which `pred` holds, with none after it.
pub proof fn lemma_newest(s: Seq<ActionLogView>, pred: spec_fn(ActionLogView) -> bool)
    ensures
        newest(s, pred) matches Some(i) ==> 0 <= i < s.len() && pred(s[i]) && forall|j: int|
            i < j < s.len() ==> !pred(s[j]),
        newest(s, pred) is None ==> forall|j: int| 0 <= j < s.len() ==> !pred(s[j]),
    decreases s.len(),
{
    if s.len() > 0 && !pred(s.last()) {
        let t = s.drop_last();
        lemma_newest(t, pred);
        match newest(t, pred) {
            Some(i) => {
                assert(t[i] == s[i]);
                assert forall|j: int| i < j < s.len() implies !pred(s[j]) by {
                    if j < t.len() {
                        assert(t[j] == s[j]);
                    }
                }
            },
            None => {
                assert forall|j: int| 0 <= j < s.len() implies !pred(s[j]) by {
                    if j < t.len() {
                        assert(t[j] == s[j]);
                    }
                }
            },
        }
    }
}

/// An index at which `pred` holds, with none after it, is what `newest` gives.
pub proof fn lemma_newest_is(s: Seq<ActionLogView>, pred: spec_fn(ActionLogView) -> bool, i: int)
    requires
        0 <= i < s.len(),
        pred(s[i]),
        forall|j: int| i < j < s.len() ==> !pred(s[j]),
    ensures
        newest(s, pred) == Some(i),
    decreases s.len(),
{
    if pred(s.last()) {
        if i < s.len() - 1 {
            assert(!pred(s[s.len() - 1]));
        }
    } else {
        let t = s.drop_last();
        assert(t[i] == s[i]);
        assert forall|j: int| i < j < t.len() implies !pred(t[j]) by {
            assert(t[j] == s[j]);
        }
        lemma_newest_is(t, pred, i);
    }
}

/// The last of the records that pass a filter is the newest record for which
/// the filter holds; the filter keeps nothing exactly where there is none.
pub proof fn lemma_filter_ends_with_newest(
    s: Seq<ActionLogView>,
    pred: spec_fn(ActionLogView) -> bool,
)
    ensures
        newest(s, pred) matches Some(i) ==> s.filter(pred).len() > 0 && s.filter(pred).last()
            == s[i],
        newest(s, pred) is None ==> s.filter(pred).len() == 0,
    decreases s.len(),
{
    reveal(Seq::filter);
    if s.len() > 0 {
        let t = s.drop_last();
        lemma_filter_ends_with_newest(t, pred);
        if !pred(s.last()) {
            match newest(t, pred) {
                Some(i) => {
                    lemma_newest(t, pred);
                    assert(t[i] == s[i]);
                },
                None => {},
            }
        }
    }
}

/// A reversible batch never ends in a passive record: unless the newest
/// record that shares the batch id of the newest reversible record is itself
/// a `LIST_DIR` or `UNDO` record, the newest member of the batch returned is
/// neither.
pub proof fn lemma_batch_never_ends_passive(s: Seq<ActionLogView>)
    requires
        forall|i: int, j: int|
            #![trigger s[i], s[j]]
            newest(s, |r: ActionLogView| decides(r)) == Some(i) && is_reversible(s[i])
                && s[i].batch_id is Some && newest(
                s,
                |r: ActionLogView| in_batch(r, s[i].batch_id->0),
            ) == Some(j) ==> !is_passive_kind(s[j].action),
    ensures
        reversible_batch(s).len() > 0 ==> !is_passive_kind(reversible_batch(s).last().action),
{
    let scan = |r: ActionLogView| decides(r);
    lemma_newest(s, scan);
    match newest(s, scan) {
        None => {},
        Some(i) => {
            if !is_undo_mark(s[i]) {
                lemma_kinds_differ();
                match s[i].batch_id {
                    None => {},
                    Some(b) => {
                        let member = |r: ActionLogView| in_batch(r, b);
                        lemma_filter_ends_with_newest(s, member);
                        lemma_newest(s, member);
                        match newest(s, member) {
                            Some(j) => {
                                assert(!is_passive_kind(s[j].action));
                            },
                            None => {},
                        }
                    },
                }
            }
        },
    }
}

/// In a journal whose batches are of one kind each, a reversible batch never
/// ends in a `LIST_DIR` or `UNDO` record.
pub proof fn lemma_uniform_batch_never_ends_passive(s: Seq<ActionLogView>)
    requires
        forall|i: int, j: int|
            #![trigger s[i], s[j]]
            0 <= i < s.len() && 0 <= j < s.len() && s[i].batch_id is Some && s[i].batch_id
                == s[j].batch_id ==> s[i].action == s[j].action,
    ensures
        reversible_batch(s).len() > 0 ==> !is_passive_kind(reversible_batch(s).last().action),
{
    let scan = |r: ActionLogView| decides(r);
    lemma_newest(s, scan);
    lemma_kinds_differ();
    assert forall|i: int, j: int|
        #![trigger s[i], s[j]]
        newest(s, scan) == Some(i) && is_reversible(s[i]) && s[i].batch_id is Some && newest(
            s,
            |r: ActionLogView| in_batch(r, s[i].batch_id->0),
        ) == Some(j) implies !is_passive_kind(s[j].action) by {
        lemma_newest(s, |r: ActionLogView| in_batch(r, s[i].batch_id->0));
        assert(s[j].action == s[i].action);
    }
    lemma_batch_never_ends_passive(s);
}

/// No reversible kind is a passive kind.
pub proof fn lemma_kinds_differ()
    ensures
        forall|a: Seq<char>| is_reversible_kind(a) ==> !is_passive_kind(a),
{
    reveal_strlit("MOVE");
    reveal_strlit("RENAME");
    reveal_strlit("CREATE_DIR");
    reveal_strlit("DELETE");
    reveal_strlit("LIST_DIR");
    reveal_strlit("UNDO");
    assert forall|a: Seq<char>| is_reversible_kind(a) implies !is_passive_kind(a) by {
        if a == "MOVE"@ {
            assert(a.len() == 4 && a[0] == 'M');
        } else if a == "RENAME"@ {
            assert(a.len() == 6);
        } else if a == "CREATE_DIR"@ {
            assert(a.len() == 10);
        } else {
            assert(a.len() == 6);
        }
    }
}

/// Undo is single-shot: once the mark of an undo is the newest record, no
/// batch is left to reverse.
pub proof fn lemma_undo_mark_hides_batch(s: Seq<ActionLogView>, mark: ActionLogView)
    requires
        is_undo_mark(mark),
    ensures
        reversible_batch(s.push(mark)).len() == 0,
{
    let t = s.push(mark);
    assert(t.last() == mark);
    assert(newest(t, |r: ActionLogView| decides(r)) == Some(t.len() - 1));
}

/// A record that does not decide and carries no batch id leaves the
/// reversible batch as it was.
pub proof fn lemma_silent_record_keeps_batch(s: Seq<ActionLogView>, r: ActionLogView)
    requires
        !decides(r),
        r.batch_id is None,
    ensures
        reversible_batch(s.push(r)) == reversible_batch(s),
{
    let t = s.push(r);
    let scan = |x: ActionLogView| decides(x);
    assert(t.last() == r);
    assert(t.drop_last() =~= s);
    assert(newest(t, scan) == newest(s, scan));
    lemma_newest(s, scan);
    match newest(s, scan) {
        None => {},
        Some(i) => {
            assert(t[i] == s[i]);
            match s[i].batch_id {
                None => {},
                Some(b) => {
                    s.lemma_filter_push(r, |x: ActionLogView| in_batch(x, b));
                },
            }
        },
    }
}

/// The records of batch `b` once one more record is appended.
pub proof fn lemma_members_push(s: Seq<ActionLogView>, r: ActionLogView, b: Seq<char>)
    ensures
        members_of(s.push(r), b) == if in_batch(r, b) {
            members_of(s, b).push(r)
        } else {
            members_of(s, b)
        },
{
    s.lemma_filter_push(r, |x: ActionLogView| in_batch(x, b));
}

/// Ids that a journal can be rebuilt from: present, at least 1, below the
/// greatest id there is, and strictly growing.
pub open spec fn ids_in_order(s: Seq<ActionLogView>) -> bool {
    &&& forall|i: int| 0 <= i < s.len() ==> (#[trigger] s[i]).id is Some
    &&& forall|i: int| 0 <= i < s.len() ==> 1 <= (#[trigger] s[i]).id->0 < i64::MAX
    &&& forall|i: int, j: int|
        0 <= i < j < s.len() ==> (#[trigger] s[i]).id->0 < (#[trigger] s[j]).id->0
}

/// Whether the record is a successful one of a reversible kind.
pub fn record_is_reversible(r: &ActionLog) -> (b: bool)
    ensures
        b == is_reversible(r@),
{
    same_text(r.status.as_str(), "SUCCESS") && (same_text(r.action.as_str(), "MOVE") || same_text(
        r.action.as_str(),
        "RENAME",
    ) || same_text(r.action.as_str(), "CREATE_DIR") || same_text(r.action.as_str(), "DELETE"))
}

/// Whether the record is the mark of a successful undo.
pub fn record_is_undo_mark(r: &ActionLog) -> (b: bool)
    ensures
        b == is_undo_mark(r@),
{
    same_text(r.status.as_str(), "SUCCESS") && same_text(r.action.as_str(), "UNDO")
}

/// Whether the record belongs to batch `b`.
pub fn record_in_batch(r: &ActionLog, b: &str) -> (m: bool)
    ensures
        m == in_batch(r@, b@),
{
    match &r.batch_id {
        Some(x) => same_text(x.as_str(), b),
        None => false,
    }
}

/// A filter that holds of every record keeps them all.
pub proof fn lemma_filter_keeps_all(s: Seq<ActionLogView>, pred: spec_fn(ActionLogView) -> bool)
    requires
        forall|i: int| 0 <= i < s.len() ==> pred(#[trigger] s[i]),
    ensures
        s.filter(pred) == s,
    decreases s.len(),
{
    reveal(Seq::filter);
    if s.len() > 0 {
        let t = s.drop_last();
        assert forall|i: int| 0 <= i < t.len() implies pred(#[trigger] t[i]) by {
            assert(t[i] == s[i]);
        }
        lemma_filter_keeps_all(t, pred);
        assert(t.push(s.last()) =~= s);
    }
}

/// A filter that holds of no record keeps none.
pub proof fn lemma_filter_keeps_none(s: Seq<ActionLogView>, pred: spec_fn(ActionLogView) -> bool)
    requires
        forall|i: int| 0 <= i < s.len() ==> !pred(#[trigger] s[i]),
    ensures
        s.filter(pred) == Seq::<ActionLogView>::empty(),
    decreases s.len(),
{
    reveal(Seq::filter);
    if s.len() > 0 {
        let t = s.drop_last();
        assert forall|i: int| 0 <= i < t.len() implies !pred(#[trigger] t[i]) by {
            assert(t[i] == s[i]);
        }
        lemma_filter_keeps_none(t, pred);
    }
}

/// What was journalled for a batch is what undo gets back: once the records
/// of a batch, all reversible and under an identifier that no older record
/// bears, are the newest records of the journal, the reversible batch is
/// exactly those records, in the order in which they were journalled.
pub proof fn lemma_logged_batch_is_reversible_batch(
    journal: Seq<ActionLogView>,
    logged: Seq<ActionLogView>,
    batch_id: Seq<char>,
)
    requires
        logged.len() > 0,
        forall|i: int|
            0 <= i < logged.len() ==> is_reversible(#[trigger] logged[i]) && in_batch(
                logged[i],
                batch_id,
            ),
        forall|i: int| 0 <= i < journal.len() ==> !in_batch(#[trigger] journal[i], batch_id),
    ensures
        reversible_batch(journal + logged) == logged,
{
    let s = journal + logged;
    let last = s.len() - 1;
    assert(s[last] == logged[logged.len() - 1]);
    lemma_kinds_differ();
    assert(!is_undo_mark(s[last]));
    assert(newest(s, |r: ActionLogView| decides(r)) == Some(last));
    let member = |r: ActionLogView| in_batch(r, batch_id);
    Seq::filter_distributes_over_add(journal, logged, member);
    lemma_filter_keeps_none(journal, member);
    lemma_filter_keeps_all(logged, member);
    assert(Seq::<ActionLogView>::empty() + logged =~= logged);
}

/// The journal. Records are kept in the order in which they were appended;
/// each gets the next id, so ids grow strictly.
pub struct Database {
    records: Vec<ActionLog>,
    next_id: i64,
}

impl View for Database {
    type V = Seq<ActionLogView>;

    closed spec fn view(&self) -> Seq<ActionLogView> {
        views(self.records@)
    }
}

impl Database {
    #[verifier::type_invariant]
    spec fn inv(self) -> bool {
        ids_increase(views(self.records@), self.next_id as int)
    }

    /// The id that the next appended record gets.
    pub closed spec fn next_id(&self) -> int {
        self.next_id as int
    }

    /// An empty journal, whose first record will get id 1.
    pub fn new() -> (db: Database)
        ensures
            db@ == Seq::<ActionLogView>::empty(),
            db.next_id() == 1,
    {
        let db = Database { records: Vec::new(), next_id: 1 };
        assert(views(db.records@) =~= Seq::<ActionLogView>::empty());
        db
    }

    /// The number of records.
    pub fn len(&self) -> (n: usize)
        ensures
            n == self@.len(),
    {
        self.records.len()
    }

    /// Appends a record and returns the id it was given. The id that the
    /// record brings along is ignored: the journal assigns the next one. The
    /// only failure is a journal whose ids are used up.
    pub fn log_action(&mut self, log: ActionLog) -> (r: Result<i64, AppError>)
        ensures
            r is Ok <==> old(self).next_id() < i64::MAX,
            r matches Ok(id) ==> {
                &&& id == old(self).next_id()
                &&& final(self).next_id() == id + 1
                &&& final(self)@ == old(self)@.push(ActionLogView { id: Some(id), ..log@ })
                &&& forall|i: int| 0 <= i < old(self)@.len() ==> old(self)@[i].id->0 < id
            },
            r matches Err(e) ==> {
                &&& e@ == AppErrorView::DatabaseError("journal ids are used up"@)
                &&& final(self)@ == old(self)@
                &&& final(self).next_id() == old(self).next_id()
            },
    {
        proof {
            use_type_invariant(&*self);
        }
        if self.next_id == i64::MAX {
            return Err(AppError::DatabaseError("journal ids are used up".to_owned()));
        }
        let id: i64 = self.next_id;
        let stored = ActionLog {
            id: Some(id),
            timestamp: log.timestamp,
            action: log.action,
            src_path: log.src_path,
            dst_path: log.dst_path,
            status: log.status,
            message: log.message,
            batch_id: log.batch_id,
        };
        let ghost before = views(self.records@);
        let mut taken = Database { records: Vec::new(), next_id: 1 };
        core::mem::swap(self, &mut taken);
        let mut records: Vec<ActionLog> = taken.records;
        records.push(stored);
        proof {
            assert(views(records@) =~= before.push(stored@));
        }
        *self = Database { records, next_id: id + 1 };
        Ok(id)
    }

    /// A journal that holds the given records, as read back from where they
    /// are kept. It is made exactly where the ids are in order; the next id
    /// is then one more than the last.
    pub fn from_records(records: Vec<ActionLog>) -> (r: Option<Database>)
        ensures
            r is Some <==> ids_in_order(views(records@)),
            r matches Some(db) ==> {
                &&& db@ == views(records@)
                &&& db.next_id() == if records@.len() == 0 {
                    1
                } else {
                    records@.last()@.id->0 + 1
                }
            },
    {
        let ghost s = views(records@);
        let mut last: i64 = 0;
        let mut i: usize = 0;
        while i < records.len()
            invariant
                i <= records.len(),
                s == views(records@),
                0 <= last < i64::MAX,
                i == 0 ==> last == 0,
                i > 0 ==> s[i - 1].id == Some(last),
                forall|k: int| 0 <= k < i ==> (#[trigger] s[k]).id is Some,
                forall|k: int| 0 <= k < i ==> 1 <= (#[trigger] s[k]).id->0 <= last,
                forall|k: int, j: int|
                    0 <= k < j < i ==> (#[trigger] s[k]).id->0 < (#[trigger] s[j]).id->0,
            decreases records.len() - i,
        {
            assert(s[i as int] == records@[i as int]@);
            match records[i].id {
                None => {
                    return None;
                },
                Some(id) => {
                    if id <= last || id == i64::MAX {
                        assert(!ids_in_order(s)) by {
                            if ids_in_order(s) {
                                if i > 0 {
                                    assert(s[i - 1].id->0 < s[i as int].id->0);
                                }
                            }
                        }
                        return None;
                    }
                    last = id;
                },
            }
            i = i + 1;
        }
        Some(Database { records, next_id: last + 1 })
    }

    /// The batch that undo may reverse; see `reversible_batch`.
    pub fn get_last_reversible_action(&self) -> (batch: Vec<ActionLog>)
        ensures
            views(batch@) == reversible_batch(self@),
    {
        let ghost s = views(self.records@);
        let ghost scan = |r: ActionLogView| decides(r);
        let n: usize = self.records.len();
        let mut i: usize = n;
        while i > 0 && !(record_is_reversible(&self.records[i - 1]) || record_is_undo_mark(
            &self.records[i - 1],
        ))
            invariant
                i <= n == self.records.len(),
                s == views(self.records@),
                forall|j: int| i <= j < n ==> !decides(#[trigger] s[j]),
            decreases i,
        {
            assert(s[i - 1] == self.records@[i - 1]@);
            i = i - 1;
        }
        let mut batch: Vec<ActionLog> = Vec::new();
        if i == 0 {
            proof {
                lemma_newest(s, scan);
                assert(views(batch@) =~= Seq::<ActionLogView>::empty());
            }
            return batch;
        }
        let at: usize = i - 1;
        assert(s[at as int] == self.records@[at as int]@);
        proof {
            lemma_newest_is(s, scan, at as int);
        }
        if record_is_undo_mark(&self.records[at]) {
            assert(views(batch@) =~= Seq::<ActionLogView>::empty());
            return batch;
        }
        match &self.records[at].batch_id {
            None => {
                batch.push(self.records[at].duplicate());
                assert(views(batch@) =~= seq![s[at as int]]);
                batch
            },
            Some(b) => {
                let mut k: usize = 0;
                assert(s.subrange(0, 0) =~= Seq::<ActionLogView>::empty());
                assert(views(batch@) =~= Seq::<ActionLogView>::empty());
                proof {
                    reveal(Seq::filter);
                }
                while k < n
                    invariant
                        k <= n == self.records.len(),
                        s == views(self.records@),
                        views(batch@) == members_of(s.subrange(0, k as int), b@),
                    decreases n - k,
                {
                    let ghost before = views(batch@);
                    assert(s[k as int] == self.records@[k as int]@);
                    proof {
                        lemma_members_push(s.subrange(0, k as int), s[k as int], b@);
                        assert(s.subrange(0, k + 1) =~= s.subrange(0, k as int).push(s[k as int]));
                    }
                    if record_in_batch(&self.records[k], b.as_str()) {
                        batch.push(self.records[k].duplicate());
                        assert(views(batch@) =~= before.push(s[k as int]));
                    }
                    k = k + 1;
                }
                assert(s.subrange(0, n as int) =~= s);
                batch
            },
        }
    }

    /// The newest `limit` records, newest first.
    pub fn get_recent_logs(&self, limit: usize) -> (logs: Vec<ActionLog>)
        ensures
            views(logs@) == recent(self@, limit as nat),
    {
        let ghost s = views(self.records@);
        let n: usize = self.records.len();
        let take: usize = if limit < n {
            limit
        } else {
            n
        };
        let mut logs: Vec<ActionLog> = Vec::new();
        let mut k: usize = 0;
        while k < take
            invariant
                k <= take <= n == self.records.len(),
                s == views(self.records@),
                logs@.len() == k,
                forall|j: int| 0 <= j < k ==> (#[trigger] logs@[j])@ == s[n - 1 - j],
            decreases take - k,
        {
            assert(s[n - 1 - k] == self.records@[n - 1 - k]@);
            logs.push(self.records[n - 1 - k].duplicate());
            k = k + 1;
        }
        assert(views(logs@) =~= recent(s, limit as nat));
        logs
    }

    /// The records, oldest first.
    pub fn records(&self) -> (recs: &Vec<ActionLog>)
        ensures
            views(recs@) == self@,
            ids_increase(self@, self.next_id()),
    {
        proof {
            use_type_invariant(self);
        }
        &self.records
    }
}

} // verus!
