use vstd::prelude::*;

use crate::clock::now_rfc3339;
use vstd::std_specs::convert::FromSpecImpl;

verus! {

/// One recorded step of an analysis: when it happened, what it was, and
/// named values describing it.
#[derive(Debug, PartialEq)]
pub struct AuditEntry<F> {
    pub timestamp: String,
    pub action: String,
    pub details: Vec<(String, AuditValue<F>)>,
}

/// A value recorded in an audit entry.
#[derive(Debug, PartialEq)]
pub enum AuditValue<F> {
    String(String),
    Integer(i64),
    Float(F),
    Boolean(bool),
    Array(Vec<AuditValue<F>>),
}

impl<F> From<i64> for AuditValue<F> {
    fn from(v: i64) -> (r: Self) {
        AuditValue::Integer(v)
    }
}

impl<F> FromSpecImpl<i64> for AuditValue<F> {
    open spec fn obeys_from_spec() -> bool {
        true
    }

    open spec fn from_spec(v: i64) -> Self {
        AuditValue::Integer(v)
    }
}

impl<F> From<bool> for AuditValue<F> {
    fn from(v: bool) -> (r: Self) {
        AuditValue::Boolean(v)
    }
}

impl<F> FromSpecImpl<bool> for AuditValue<F> {
    open spec fn obeys_from_spec() -> bool {
        true
    }

    open spec fn from_spec(v: bool) -> Self {
        AuditValue::Boolean(v)
    }
}

impl<F> From<String> for AuditValue<F> {
    fn from(v: String) -> (r: Self) {
        AuditValue::String(v)
    }
}

impl<F> FromSpecImpl<String> for AuditValue<F> {
    open spec fn obeys_from_spec() -> bool {
        true
    }

    open spec fn from_spec(v: String) -> Self {
        AuditValue::String(v)
    }
}

impl<F> AuditEntry<F> {
    /// An entry for `action`, stamped with the current time, without details.
    pub fn new(action: &str) -> (e: Self)
        ensures
            e.action@ == action@,
            e.details@ == Seq::<(String, AuditValue<F>)>::empty(),
    {
        AuditEntry { timestamp: now_rfc3339(), action: action.to_string(), details: Vec::new() }
    }

    /// The entry with one more detail, `key` = `value`, after the others.
    pub fn with_detail(self, key: &str, value: AuditValue<F>) -> (e: Self)
        ensures
            e.timestamp == self.timestamp,
            e.action == self.action,
            e.details@.len() == self.details@.len() + 1,
            e.details@.drop_last() == self.details@,
            e.details@.last().0@ == key@,
            e.details@.last().1 == value,
    {
        let mut e = self;
        e.details.push((key.to_string(), value));
        proof {
            assert(e.details@.drop_last() =~= self.details@);
        }
        e
    }

    /// The entry with `details` added after its own.
    pub fn with_details(self, details: Vec<(String, AuditValue<F>)>) -> (e: Self)
        ensures
            e.timestamp == self.timestamp,
            e.action == self.action,
            e.details@ == self.details@ + details@,
    {
        let mut e = self;
        let mut details = details;
        e.details.append(&mut details);
        e
    }
}

/// The entries of `entries` whose action is `action`, in order.
pub open spec fn entries_with_action<F>(entries: Seq<AuditEntry<F>>, action: Seq<char>) -> Seq<
    AuditEntry<F>,
>
    decreases entries.len(),
{
    if entries.len() == 0 {
        seq![]
    } else {
        entries_with_action(entries.drop_last(), action) + if entries.last().action@ == action {
            seq![entries.last()]
        } else {
            seq![]
        }
    }
}

/// The record of an analysis: its entries in the order they were appended.
#[derive(Debug, PartialEq)]
pub struct AuditTrail<F> {
    pub entries: Vec<AuditEntry<F>>,
}

impl<F> AuditTrail<F> {
    pub fn new() -> (t: Self)
        ensures
            t.entries@ == Seq::<AuditEntry<F>>::empty(),
    {
        AuditTrail { entries: Vec::new() }
    }

    pub fn append(&mut self, entry: AuditEntry<F>)
        ensures
            final(self).entries@ == old(self).entries@.push(entry),
    {
        self.entries.push(entry);
    }

    /// Appends a new entry for `action`, without details.
    pub fn append_action(&mut self, action: &str)
        ensures
            final(self).entries@.len() == old(self).entries@.len() + 1,
            final(self).entries@.drop_last() == old(self).entries@,
            final(self).entries@.last().action@ == action@,
            final(self).entries@.last().details@ == Seq::<(String, AuditValue<F>)>::empty(),
    {
        self.entries.push(AuditEntry::new(action));
        proof {
            assert(self.entries@.drop_last() =~= old(self).entries@);
        }
    }

    /// Appends a new entry for `action` with `details`.
    pub fn append_with_details(&mut self, action: &str, details: Vec<(String, AuditValue<F>)>)
        ensures
            final(self).entries@.len() == old(self).entries@.len() + 1,
            final(self).entries@.drop_last() == old(self).entries@,
            final(self).entries@.last().action@ == action@,
            final(self).entries@.last().details@ == details@,
    {
        self.entries.push(AuditEntry::new(action).with_details(details));
        proof {
            assert(self.entries@.drop_last() =~= old(self).entries@);
        }
    }

    /// The most recent entry, if any.
    pub fn last_entry(&self) -> (r: Option<&AuditEntry<F>>)
        ensures
            self.entries@.len() == 0 ==> r is None,
            self.entries@.len() > 0 ==> (r matches Some(e) && *e == self.entries@.last()),
    {
        if self.entries.len() == 0 {
            None
        } else {
            Some(&self.entries[self.entries.len() - 1])
        }
    }

    /// The entries recorded for `action`, in order.
    pub fn filter_by_action(&self, action: &str) -> (r: Vec<&AuditEntry<F>>)
        ensures
            r@.map_values(|e: &AuditEntry<F>| *e) == entries_with_action(self.entries@, action@),
    {
        let wanted = action.to_string();
        let mut r: Vec<&AuditEntry<F>> = Vec::new();
        let mut i: usize = 0;
        while i < self.entries.len()
            invariant
                i <= self.entries.len(),
                wanted@ == action@,
                r@.map_values(|e: &AuditEntry<F>| *e) == entries_with_action(
                    self.entries@.take(i as int),
                    action@,
                ),
            decreases self.entries.len() - i,
        {
            let entry = &self.entries[i];
            let ghost before = r@;
            let matches = entry.action == wanted;
            if matches {
                r.push(entry);
            }
            proof {
                let t = self.entries@.take(i + 1);
                assert(t.drop_last() =~= self.entries@.take(i as int));
                assert(t.last() == *entry);
                if matches {
                    assert(r@.map_values(|e: &AuditEntry<F>| *e) =~= before.map_values(
                        |e: &AuditEntry<F>| *e,
                    ).push(*entry));
                } else {
                    assert(r@ == before);
                }
                assert(r@.map_values(|e: &AuditEntry<F>| *e) =~= entries_with_action(t, action@));
            }
            i += 1;
        }
        proof {
            assert(self.entries@.take(self.entries@.len() as int) =~= self.entries@);
        }
        r
    }

    pub fn len(&self) -> (n: usize)
        ensures
            n == self.entries@.len(),
    {
        self.entries.len()
    }

    pub fn is_empty(&self) -> (b: bool)
        ensures
            b == (self.entries@.len() == 0),
    {
        self.entries.len() == 0
    }
}

/// Appending an entry makes it the last entry, and adds it to the entries
/// recorded for its action (after the earlier ones) and to no other action's.
pub proof fn lemma_append_is_recorded<F>(
    entries: Seq<AuditEntry<F>>,
    entry: AuditEntry<F>,
    action: Seq<char>,
)
    ensures
        entries.push(entry).last() == entry,
        entries.push(entry).len() == entries.len() + 1,
        entries_with_action(entries.push(entry), action) == entries_with_action(entries, action)
            + if entry.action@ == action {
            seq![entry]
        } else {
            seq![]
        },
{
    assert(entries.push(entry).drop_last() =~= entries);
}

} // verus!
