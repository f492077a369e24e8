//! Buffering of journal entries before they are written: a batch that is due
//! for flushing once it holds its batch size, an in-memory writer, and the
//! multi-row insert statement the fast writer sends for each chunk.
use vstd::prelude::*;
use crate::decimal::Dec;
use crate::text::{decimal_text, owned, push_char, usize_text};

verus! {

/// A journal entry as the batch writer stores it.
#[derive(Debug, Clone)]
pub struct JournalEntry {
    pub id: u128,
    pub tenant_id: String,
    pub entry_date: i64,
    pub account: String,
    pub amount: Dec,
    pub currency: String,
    pub description: String,
}

/// Entries waiting to be written, with the size at which they are due.
pub struct EntryBatch<T> {
    entries: Vec<T>,
    batch_size: usize,
}

impl<T> EntryBatch<T> {
    /// The entries waiting, in the order they were pushed.
    pub closed spec fn pending(&self) -> Seq<T> {
        self.entries@
    }

    /// The size at which the batch is due.
    pub closed spec fn size_limit(&self) -> nat {
        self.batch_size as nat
    }

    /// An empty batch due at `batch_size` entries.
    pub fn new(batch_size: usize) -> (r: EntryBatch<T>)
        ensures
            r.pending() == Seq::<T>::empty(),
            r.size_limit() == batch_size,
    {
        EntryBatch { entries: Vec::new(), batch_size }
    }

    /// The number of entries waiting.
    pub fn len(&self) -> (r: usize)
        ensures
            r == self.pending().len(),
    {
        self.entries.len()
    }

    /// Whether no entry is waiting.
    pub fn is_empty(&self) -> (r: bool)
        ensures
            r == (self.pending().len() == 0),
    {
        self.entries.len() == 0
    }

    /// The size at which the batch is due.
    pub fn buffer_size(&self) -> (r: usize)
        ensures
            r == self.size_limit(),
    {
        self.batch_size
    }

    /// Adds an entry after those waiting.
    pub fn push(&mut self, entry: T)
        ensures
            final(self).pending() == old(self).pending().push(entry),
            final(self).size_limit() == old(self).size_limit(),
    {
        self.entries.push(entry);
    }

    /// Whether the batch holds at least its batch size.
    pub fn needs_flush(&self) -> (r: bool)
        ensures
            r == (self.pending().len() >= self.size_limit()),
    {
        self.entries.len() >= self.batch_size
    }

    /// Hands out the entries waiting, in order, and empties the batch.
    pub fn take(&mut self) -> (r: Vec<T>)
        ensures
            r@ == old(self).pending(),
            final(self).pending() == Seq::<T>::empty(),
            final(self).size_limit() == old(self).size_limit(),
    {
        let mut out: Vec<T> = Vec::new();
        std::mem::swap(&mut out, &mut self.entries);
        out
    }
}

/// An entry writer that keeps what it is given in memory.
pub struct SimpleEntryWriter {
    entries: Vec<crate::models::JournalEntry>,
}

impl SimpleEntryWriter {
    /// What the writer holds, in the order written.
    pub closed spec fn written(&self) -> Seq<crate::models::JournalEntry> {
        self.entries@
    }

    /// A writer holding nothing.
    pub fn new() -> (r: SimpleEntryWriter)
        ensures
            r.written() == Seq::<crate::models::JournalEntry>::empty(),
    {
        SimpleEntryWriter { entries: Vec::new() }
    }

    /// Keeps `entries` after those already written.
    pub fn write_entries(&mut self, entries: Vec<crate::models::JournalEntry>)
        ensures
            final(self).written() == old(self).written() + entries@,
    {
        let mut more = entries;
        self.entries.append(&mut more);
    }

    /// Hands out everything written so far and forgets it.
    pub fn take_entries(&mut self) -> (r: Vec<crate::models::JournalEntry>)
        ensures
            r@ == old(self).written(),
            final(self).written() == Seq::<crate::models::JournalEntry>::empty(),
    {
        let mut out: Vec<crate::models::JournalEntry> = Vec::new();
        std::mem::swap(&mut out, &mut self.entries);
        out
    }
}

/// The number of buffered entries at which the fast writer flushes.
pub const FAST_FLUSH_THRESHOLD: usize = 1000;

/// The number of entries the fast writer inserts per statement.
pub const FAST_CHUNK_SIZE: usize = 500;

/// Whether the fast writer flushes with `buffered` entries waiting.
pub fn fast_should_flush(buffered: usize) -> (r: bool)
    ensures
        r == (buffered >= FAST_FLUSH_THRESHOLD),
{
    buffered >= FAST_FLUSH_THRESHOLD
}

/// The head of the fast writer's insert statement.
pub open spec fn insert_head() -> Seq<char> {
    "INSERT INTO journal_entries (id,tenant_id,transaction_id,entry_sequence,account_id,amount,currency,side,value_date,narrative,metadata,posted_at) VALUES "@
}

/// `$n`.
pub open spec fn param(n: nat) -> Seq<char> {
    "$"@ + decimal_text(n)
}

/// The placeholders of one row whose first parameter is number `b`.
#[verifier::opaque]
pub open spec fn row_text(b: nat) -> Seq<char> {
    "("@ + param(b) + "::uuid,"@ + param(b + 1) + "::uuid,"@ + param(b + 2) + "::uuid,"@ + param(b + 3) + ","@
        + param(b + 4) + "::uuid,"@ + param(b + 5) + "::numeric,"@ + param(b + 6) + ","@ + param(b + 7)
        + ","@ + param(b + 8) + ","@ + param(b + 9) + ",'{}',"@ + param(b + 10) + ")"@
}

/// The rows of the first `n` entries, comma-separated, eleven parameters each.
#[verifier::opaque]
pub open spec fn rows_text(n: nat) -> Seq<char>
    decreases n,
{
    if n == 0 {
        Seq::empty()
    } else if n == 1 {
        row_text(1)
    } else {
        rows_text((n - 1) as nat) + ","@ + row_text(((n - 1) * 11 + 1) as nat)
    }
}

/// Appends `$n` to `out`.
fn push_param(out: &mut String, n: usize)
    ensures
        final(out)@ == old(out)@ + param(n as nat),
{
    proof {
        reveal_strlit("$");
    }
    push_char(out, '$');
    let t = usize_text(n);
    out.append(t.as_str());
    assert(final(out)@ =~= old(out)@ + param(n as nat)) by {
        assert("$"@ =~= seq!['$']);
    }
}

/// The placeholders of one row whose first parameter is number `b`.
fn row_placeholders(b: usize) -> (r: String)
    requires
        b + 10 <= usize::MAX,
    ensures
        r@ == row_text(b as nat),
{
    proof {
        reveal(row_text);
    }
    let mut r = owned("(");
    push_param(&mut r, b);
    r.append("::uuid,");
    push_param(&mut r, b + 1);
    r.append("::uuid,");
    push_param(&mut r, b + 2);
    r.append("::uuid,");
    push_param(&mut r, b + 3);
    r.append(",");
    push_param(&mut r, b + 4);
    r.append("::uuid,");
    push_param(&mut r, b + 5);
    r.append("::numeric,");
    push_param(&mut r, b + 6);
    r.append(",");
    push_param(&mut r, b + 7);
    r.append(",");
    push_param(&mut r, b + 8);
    r.append(",");
    push_param(&mut r, b + 9);
    r.append(",'{}',");
    push_param(&mut r, b + 10);
    r.append(")");
    r
}

/// The insert statement for a chunk of `count` entries (at least one): the
/// column list, then one row of placeholders per entry, eleven parameters each,
/// the metadata column an empty JSON object.
pub fn insert_sql(count: usize) -> (r: String)
    requires
        1 <= count <= FAST_CHUNK_SIZE,
    ensures
        r@ == insert_head() + rows_text(count as nat),
{
    let mut out = owned(
        "INSERT INTO journal_entries (id,tenant_id,transaction_id,entry_sequence,account_id,amount,currency,side,value_date,narrative,metadata,posted_at) VALUES ",
    );
    proof {
        assert(rows_text(0) == Seq::<char>::empty()) by {
            reveal(rows_text);
        }
        assert(out@ =~= insert_head() + rows_text(0));
    }
    let mut i: usize = 0;
    while i < count
        invariant
            count <= FAST_CHUNK_SIZE,
            i <= count,
            out@ == insert_head() + rows_text(i as nat),
        decreases count - i,
    {
        let ghost before = out@;
        let row = row_placeholders(i * 11 + 1);
        if i > 0 {
            out.append(",");
            out.append(row.as_str());
            proof {
                assert(rows_text((i + 1) as nat) == rows_text(i as nat) + ","@ + row_text((i * 11 + 1) as nat)) by {
                    reveal(rows_text);
                }
                assert(out@ =~= insert_head() + (rows_text(i as nat) + ","@ + row_text((i * 11 + 1) as nat)));
            }
        } else {
            out.append(row.as_str());
            proof {
                assert(rows_text(0) == Seq::<char>::empty() && rows_text(1) == row_text(1)) by {
                    reveal(rows_text);
                }
                assert(out@ =~= insert_head() + rows_text(1));
            }
        }
        i = i + 1;
    }
    out
}

} // verus!
