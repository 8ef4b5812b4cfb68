//! The bot's log lines that go to Discord: their emoji, and how queued lines
//! are batched into webhook messages.
use std::collections::VecDeque;
use vstd::prelude::*;
use vstd::string::StringExecFns;
use vstd::utf8::encode_utf8;

verus! {

/// How important a log line is.
#[derive(Clone, Copy, Debug, PartialEq, Eq, Structural)]
pub enum LogLevel {
    Error,
    Warn,
    Info,
    Debug,
    Trace,
}

/// The emoji a log line starts with.
#[derive(Clone, Copy, Debug, PartialEq, Eq, Structural)]
pub enum LogEmoji {
    No,
    Warn,
    Info,
}

/// The emoji for a log level: errors get a no sign, warnings a warning sign,
/// the rest the info sign (only errors, warnings and info reach Discord).
pub fn get_emoji(level: LogLevel) -> (r: LogEmoji)
    ensures
        r == match level {
            LogLevel::Error => LogEmoji::No,
            LogLevel::Warn => LogEmoji::Warn,
            _ => LogEmoji::Info,
        },
{
    match level {
        LogLevel::Error => LogEmoji::No,
        LogLevel::Warn => LogEmoji::Warn,
        LogLevel::Info => LogEmoji::Info,
        _ => LogEmoji::Info,
    }
}

/// A webhook message stays below this many bytes of log lines.
pub const BATCH_LIMIT: usize = 2000;

/// The bytes the text takes.
pub open spec fn byte_len(s: Seq<char>) -> nat {
    encode_utf8(s).len()
}

/// The bytes the lines take together (the separators not counted).
pub open spec fn total_bytes(lines: Seq<String>) -> nat
    decreases lines.len(),
{
    if lines.len() == 0 {
        0
    } else {
        total_bytes(lines.drop_last()) + byte_len(lines.last()@)
    }
}

/// How many of the queued lines fit in one message: the longest prefix whose
/// lines, counted one after the other, stay below the limit.
pub open spec fn batch_len(lines: Seq<String>) -> nat {
    if exists|k: int| 1 <= k <= lines.len() && total_bytes(#[trigger] lines.take(k)) >= BATCH_LIMIT {
        let k = choose|k: int|
            1 <= k <= lines.len() && total_bytes(#[trigger] lines.take(k)) >= BATCH_LIMIT && forall|j: int|
                1 <= j < k ==> total_bytes(#[trigger] lines.take(j)) < BATCH_LIMIT;
        (k - 1) as nat
    } else {
        lines.len()
    }
}

/// The lines joined by newlines.
pub open spec fn join_lines(lines: Seq<String>) -> Seq<char>
    decreases lines.len(),
{
    if lines.len() == 0 {
        Seq::empty()
    } else if lines.len() == 1 {
        lines[0]@
    } else {
        join_lines(lines.drop_last()) + "\n"@ + lines.last()@
    }
}

proof fn lemma_total_bytes_mono(lines: Seq<String>, a: int, b: int)
    requires
        0 <= a <= b <= lines.len(),
    ensures
        total_bytes(lines.take(a)) <= total_bytes(lines.take(b)),
    decreases b - a,
{
    if a < b {
        lemma_total_bytes_mono(lines, a, b - 1);
        assert(lines.take(b).drop_last() == lines.take(b - 1));
    }
}

proof fn lemma_batch_len_stop(lines: Seq<String>, count: int)
    requires
        0 <= count < lines.len(),
        total_bytes(lines.take(count + 1)) >= BATCH_LIMIT,
        forall|j: int| 1 <= j <= count ==> total_bytes(#[trigger] lines.take(j)) < BATCH_LIMIT,
    ensures
        batch_len(lines) == count,
{
    let k = count + 1;
    assert(1 <= k <= lines.len() && total_bytes(lines.take(k)) >= BATCH_LIMIT);
    let c = choose|c: int|
        1 <= c <= lines.len() && total_bytes(#[trigger] lines.take(c)) >= BATCH_LIMIT && forall|j: int|
            1 <= j < c ==> total_bytes(#[trigger] lines.take(j)) < BATCH_LIMIT;
    if c < k {
        assert(total_bytes(lines.take(c)) < BATCH_LIMIT);
    }
    if c > k {
        assert(total_bytes(lines.take(k)) < BATCH_LIMIT);
    }
}

proof fn lemma_batch_len_all(lines: Seq<String>)
    requires
        forall|j: int| 1 <= j <= lines.len() ==> total_bytes(#[trigger] lines.take(j)) < BATCH_LIMIT,
    ensures
        batch_len(lines) == lines.len(),
{
    if exists|k: int| 1 <= k <= lines.len() && total_bytes(#[trigger] lines.take(k)) >= BATCH_LIMIT {
        let k = choose|k: int| 1 <= k <= lines.len() && total_bytes(#[trigger] lines.take(k)) >= BATCH_LIMIT;
        assert(total_bytes(lines.take(k)) < BATCH_LIMIT);
    }
}

/// Takes every queued line out of the queue and joins, by newlines, those
/// that fit in one message: the lines up to the first one that takes the
/// running total of bytes to the limit, so the lines sent stay below it.
/// The lines after it are dropped.
#[verifier::rlimit(40)]
pub fn take_log_batch(queue: &mut VecDeque<String>) -> (r: String)
    ensures
        final(queue)@.len() == 0,
        r@ == join_lines(old(queue)@.take(batch_len(old(queue)@) as int)),
        total_bytes(old(queue)@.take(batch_len(old(queue)@) as int)) < BATCH_LIMIT,
{
    let ghost lines = queue@;
    let n = queue.len();
    let mut out = String::from_str("");
    proof {
        reveal_strlit("");
        reveal_strlit("\n");
    }
    let mut total: usize = 0;
    let mut count: usize = 0;
    let ghost mut stopped = false;
    while queue.len() > 0
        invariant
            lines == old(queue)@,
            lines.len() == n,
            count <= lines.len(),
            queue@ == lines.skip(count as int),
            total == total_bytes(lines.take(count as int)),
            total < BATCH_LIMIT,
            forall|j: int| 1 <= j <= count ==> total_bytes(#[trigger] lines.take(j)) < BATCH_LIMIT,
            out@ == join_lines(lines.take(count as int)),
        decreases queue.len(),
    {
        let line = queue.pop_front().unwrap();
        let size = line.as_str().as_bytes().len();
        proof {
            assert(lines.take(count + 1).drop_last() == lines.take(count as int));
            assert(lines.take(count + 1).last() == line);
            assert(queue@ == lines.skip(count + 1));
            assert(size == byte_len(line@));
            assert(total_bytes(lines.take(count + 1)) == total + size);
        }
        if size >= BATCH_LIMIT - total {
            proof {
                assert(total_bytes(lines.take(count + 1)) >= BATCH_LIMIT);
                lemma_batch_len_stop(lines, count as int);
            }
            queue.clear();
            return out;
        }
        total = total + size;
        if count == 0 {
            out = line;
        } else {
            let joined = out.concat("\n");
            out = joined.concat(line.as_str());
        }
        count = count + 1;
    }
    proof {
        assert(lines.take(count as int) == lines) by {
            assert(lines.skip(count as int).len() == 0);
        }
        lemma_batch_len_all(lines);
    }
    out
}

/// Puts a message that could not be sent back at the front of the queue.
pub fn requeue(queue: &mut VecDeque<String>, message: String)
    ensures
        final(queue)@ == seq![message] + old(queue)@,
{
    queue.push_front(message);
    assert(queue@ =~= seq![message] + old(queue)@);
}

} // verus!
