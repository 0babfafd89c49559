//! The bounded audit log: one entry for every attempted mutation, oldest
//! entries dropped first once the log is full.

use crate::principal::Principal;
use vstd::prelude::*;

verus! {

/// The largest number of entries the log retains.
pub const MAX_AUDIT_ENTRIES: u32 = 100;

/// Which kind of mutation an audit entry records.
#[derive(Clone, Copy, Debug, PartialEq, Eq, Structural)]
pub enum Operation {
    Init,
    Update,
    Distribute,
    Import,
    Create,
    Add,
    Withdraw,
    Lock,
    Unlock,
    Pay,
    Deactivate,
}

impl Operation {
    /// The short tag under which the operation is reported.
    pub fn tag(&self) -> (t: &'static str)
        ensures
            t@ == self.tag_text(),
    {
        match self {
            Operation::Init => "init",
            Operation::Update => "update",
            Operation::Distribute => "distrib",
            Operation::Import => "import",
            Operation::Create => "create",
            Operation::Add => "add",
            Operation::Withdraw => "withdraw",
            Operation::Lock => "lock",
            Operation::Unlock => "unlock",
            Operation::Pay => "pay",
            Operation::Deactivate => "deactiv",
        }
    }

    /// The operation reported under `tag`, if there is one.
    pub fn from_tag(tag: &String) -> (operation: Option<Operation>)
        ensures
            forall|any: Operation| operation == Some(any) <==> any.tag_text() == tag@,
    {
        let all = vec![
            Operation::Init,
            Operation::Update,
            Operation::Distribute,
            Operation::Import,
            Operation::Create,
            Operation::Add,
            Operation::Withdraw,
            Operation::Lock,
            Operation::Unlock,
            Operation::Pay,
            Operation::Deactivate,
        ];
        let mut i: usize = 0;
        while i < all.len()
            invariant
                i <= all.len(),
                forall|k: int| 0 <= k < i ==> (#[trigger] all[k]).tag_text() != tag@,
            decreases all.len() - i,
        {
            let candidate = all[i];
            if *tag == candidate.tag().to_owned() {
                proof {
                    assert forall|any: Operation| any.tag_text() == tag@ implies any
                        == candidate by {
                        tags_are_distinct(any, candidate);
                    }
                }
                return Some(candidate);
            }
            i += 1;
        }
        assert forall|any: Operation| any.tag_text() != tag@ by {
            let k: int = match any {
                Operation::Init => 0,
                Operation::Update => 1,
                Operation::Distribute => 2,
                Operation::Import => 3,
                Operation::Create => 4,
                Operation::Add => 5,
                Operation::Withdraw => 6,
                Operation::Lock => 7,
                Operation::Unlock => 8,
                Operation::Pay => 9,
                Operation::Deactivate => 10,
            };
            assert(all[k] == any);
        }
        None
    }

    /// The text of [`Operation::tag`].
    pub open spec fn tag_text(&self) -> Seq<char> {
        match self {
            Operation::Init => "init"@,
            Operation::Update => "update"@,
            Operation::Distribute => "distrib"@,
            Operation::Import => "import"@,
            Operation::Create => "create"@,
            Operation::Add => "add"@,
            Operation::Withdraw => "withdraw"@,
            Operation::Lock => "lock"@,
            Operation::Unlock => "unlock"@,
            Operation::Pay => "pay"@,
            Operation::Deactivate => "deactiv"@,
        }
    }
}

/// No two operations are reported under the same tag.
pub proof fn tags_are_distinct(a: Operation, b: Operation)
    requires
        a.tag_text() == b.tag_text(),
    ensures
        a == b,
{
    reveal_strlit("init");
    reveal_strlit("update");
    reveal_strlit("distrib");
    reveal_strlit("import");
    reveal_strlit("create");
    reveal_strlit("add");
    reveal_strlit("withdraw");
    reveal_strlit("lock");
    reveal_strlit("unlock");
    reveal_strlit("pay");
    reveal_strlit("deactiv");
    assert("init"@.len() == 4 && "init"@[0] == 'i');
    assert("lock"@.len() == 4 && "lock"@[0] == 'l');
    assert("add"@.len() == 3 && "add"@[0] == 'a');
    assert("pay"@.len() == 3 && "pay"@[0] == 'p');
    assert("update"@.len() == 6 && "update"@[0] == 'u' && "update"@[1] == 'p');
    assert("unlock"@.len() == 6 && "unlock"@[0] == 'u' && "unlock"@[1] == 'n');
    assert("import"@.len() == 6 && "import"@[0] == 'i');
    assert("create"@.len() == 6 && "create"@[0] == 'c');
    assert("distrib"@.len() == 7 && "distrib"@[1] == 'i');
    assert("deactiv"@.len() == 7 && "deactiv"@[1] == 'e');
    assert("withdraw"@.len() == 8);
}

/// One attempted mutation and how it ended.
#[derive(Debug, PartialEq, Eq)]
pub struct AuditEntry {
    pub operation: Operation,
    pub caller: Principal,
    pub timestamp: u64,
    pub success: bool,
}

/// What an [`AuditEntry`] says, with the caller as its identifier.
pub ghost struct AuditEntryView {
    pub operation: Operation,
    pub caller: Seq<char>,
    pub timestamp: u64,
    pub success: bool,
}

impl View for AuditEntry {
    type V = AuditEntryView;

    open spec fn view(&self) -> AuditEntryView {
        AuditEntryView {
            operation: self.operation,
            caller: self.caller@,
            timestamp: self.timestamp,
            success: self.success,
        }
    }
}

impl Clone for AuditEntry {
    fn clone(&self) -> (copy: Self)
        ensures
            copy@ == self@,
    {
        AuditEntry {
            operation: self.operation,
            caller: self.caller.clone(),
            timestamp: self.timestamp,
            success: self.success,
        }
    }
}

/// What a sequence of entries says, entry by entry.
pub open spec fn entry_views(entries: Seq<AuditEntry>) -> Seq<AuditEntryView> {
    Seq::new(entries.len(), |i: int| entries[i]@)
}

/// The log after one more entry: the new entry comes last, and a full log
/// first gives up its oldest entry.
pub open spec fn log_append(log: Seq<AuditEntryView>, entry: AuditEntryView) -> Seq<
    AuditEntryView,
> {
    if log.len() >= MAX_AUDIT_ENTRIES {
        log.subrange(1, log.len() as int).push(entry)
    } else {
        log.push(entry)
    }
}

/// The log after a run of entries, appended one after another.
pub open spec fn log_append_all(log: Seq<AuditEntryView>, entries: Seq<AuditEntryView>) -> Seq<
    AuditEntryView,
>
    decreases entries.len(),
{
    if entries.len() == 0 {
        log
    } else {
        log_append(log_append_all(log, entries.drop_last()), entries.last())
    }
}

/// The last `MAX_AUDIT_ENTRIES` items of a history, or all of it if it is shorter.
pub open spec fn most_recent(history: Seq<AuditEntryView>) -> Seq<AuditEntryView> {
    if history.len() > MAX_AUDIT_ENTRIES {
        history.subrange(history.len() - MAX_AUDIT_ENTRIES, history.len() as int)
    } else {
        history
    }
}

/// The page of the log that starts at `from_index` and holds at most
/// `limit` entries, and never more than the log's capacity.
pub open spec fn log_read(log: Seq<AuditEntryView>, from_index: u32, limit: u32) -> Seq<
    AuditEntryView,
> {
    let cap: int = if limit <= MAX_AUDIT_ENTRIES { limit as int } else { MAX_AUDIT_ENTRIES as int };
    if from_index >= log.len() {
        Seq::empty()
    } else if from_index + cap <= log.len() {
        log.subrange(from_index as int, from_index + cap)
    } else {
        log.subrange(from_index as int, log.len() as int)
    }
}

/// The audit log. It holds at most `MAX_AUDIT_ENTRIES` entries, in the order
/// in which they were appended.
pub struct AuditLog {
    entries: Vec<AuditEntry>,
}

impl View for AuditLog {
    type V = Seq<AuditEntryView>;

    closed spec fn view(&self) -> Seq<AuditEntryView> {
        entry_views(self.entries@)
    }
}

impl AuditLog {
    /// The log never outgrows its capacity.
    pub open spec fn wf(&self) -> bool {
        self@.len() <= MAX_AUDIT_ENTRIES
    }

    /// An empty log.
    pub fn new() -> (log: AuditLog)
        ensures
            log.wf(),
            log@ == Seq::<AuditEntryView>::empty(),
    {
        let log = AuditLog { entries: Vec::new() };
        assert(log@ =~= Seq::<AuditEntryView>::empty());
        log
    }

    /// A log holding `entries`, oldest first, if they fit the capacity.
    pub fn from_entries(entries: Vec<AuditEntry>) -> (log: Option<AuditLog>)
        ensures
            log is Some <==> entries.len() <= MAX_AUDIT_ENTRIES,
            log matches Some(l) ==> l.wf() && l@ == entry_views(entries@),
    {
        if entries.len() <= MAX_AUDIT_ENTRIES as usize {
            Some(AuditLog { entries })
        } else {
            None
        }
    }

    /// The number of entries held.
    pub fn len(&self) -> (n: usize)
        requires
            self.wf(),
        ensures
            n == self@.len(),
            n <= MAX_AUDIT_ENTRIES,
    {
        self.entries.len()
    }

    /// Appends one entry, dropping the oldest one first if the log is full.
    pub fn append(&mut self, entry: AuditEntry)
        requires
            old(self).wf(),
        ensures
            final(self).wf(),
            final(self)@ == log_append(old(self)@, entry@),
    {
        if self.entries.len() >= MAX_AUDIT_ENTRIES as usize {
            let _ = self.entries.remove(0);
        }
        self.entries.push(entry);
        assert(self@ =~= log_append(old(self)@, entry@));
    }

    /// The entries from `from_index` on, in insertion order: at most `limit`
    /// of them and never more than the capacity. Empty if `from_index` lies
    /// beyond the log.
    pub fn read(&self, from_index: u32, limit: u32) -> (page: Vec<AuditEntry>)
        ensures
            entry_views(page@) == log_read(self@, from_index, limit),
    {
        let mut page: Vec<AuditEntry> = Vec::new();
        let len: usize = self.entries.len();
        let cap: usize = if limit <= MAX_AUDIT_ENTRIES {
            limit as usize
        } else {
            MAX_AUDIT_ENTRIES as usize
        };
        if from_index as usize >= len {
            assert(entry_views(page@) =~= log_read(self@, from_index, limit));
            return page;
        }
        let start: usize = from_index as usize;
        let end: usize = if cap <= len - start {
            start + cap
        } else {
            len
        };
        let mut i: usize = start;
        while i < end
            invariant
                start <= i <= end <= len,
                len == self.entries.len(),
                page.len() == i - start,
                forall|k: int| 0 <= k < page.len() ==> (#[trigger] page[k])@ == self.entries[start + k]@,
            decreases end - i,
        {
            page.push(self.entries[i].clone());
            i += 1;
        }
        assert(entry_views(page@) =~= log_read(self@, from_index, limit));
        page
    }
}

/// Appending to a history and keeping its most recent part is the same as
/// appending to the most recent part.
proof fn lemma_most_recent_push(history: Seq<AuditEntryView>, entry: AuditEntryView)
    ensures
        most_recent(history.push(entry)) == log_append(most_recent(history), entry),
{
    assert(most_recent(history.push(entry)) =~= log_append(most_recent(history), entry));
}

/// A log that has taken in a run of entries holds the most recent part of
/// everything it ever held, in the order of arrival.
pub proof fn log_keeps_most_recent(log: Seq<AuditEntryView>, entries: Seq<AuditEntryView>)
    requires
        log.len() <= MAX_AUDIT_ENTRIES,
    ensures
        log_append_all(log, entries) == most_recent(log + entries),
    decreases entries.len(),
{
    if entries.len() == 0 {
        assert(log + entries =~= log);
    } else {
        log_keeps_most_recent(log, entries.drop_last());
        lemma_most_recent_push(log + entries.drop_last(), entries.last());
        assert((log + entries.drop_last()).push(entries.last()) =~= log + entries);
    }
}

/// After at least a hundred appends, a page that asks for the whole log
/// holds exactly the hundred entries appended last, oldest first.
pub proof fn log_page_holds_last_hundred(
    log: Seq<AuditEntryView>,
    entries: Seq<AuditEntryView>,
    limit: u32,
)
    requires
        log.len() <= MAX_AUDIT_ENTRIES,
        entries.len() >= MAX_AUDIT_ENTRIES,
        limit >= MAX_AUDIT_ENTRIES,
    ensures
        log_read(log_append_all(log, entries), 0, limit) == entries.subrange(
            entries.len() - MAX_AUDIT_ENTRIES,
            entries.len() as int,
        ),
{
    log_keeps_most_recent(log, entries);
    let kept = most_recent(log + entries);
    assert(kept =~= entries.subrange(
        entries.len() - MAX_AUDIT_ENTRIES,
        entries.len() as int,
    ));
    assert(log_read(kept, 0, limit) =~= kept);
}

/// No page is longer than the log's capacity, whatever limit is asked for.
pub proof fn log_page_is_bounded(log: Seq<AuditEntryView>, from_index: u32, limit: u32)
    ensures
        log_read(log, from_index, limit).len() <= MAX_AUDIT_ENTRIES,
        log_read(log, from_index, limit).len() <= limit,
{
}

} // verus!
