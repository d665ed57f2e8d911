//! The log as a sequence of lines, and the laws of the capacity policy.
//!
//! `render` maps a sequence of lines to the byte content of the file that
//! holds them, oldest first, each line terminated by a line feed. The lemmas
//! here connect the byte-level operations of `log` to this model and state
//! the guarantees of the policy: one append on an empty log yields exactly
//! one line; the line count never exceeds the capacity; eviction is strictly
//! first-in-first-out, so the log is always a contiguous suffix of the full
//! append history; and every line of the log was once appended, so a log fed
//! only well-formed record lines holds only well-formed record lines.

use vstd::prelude::*;
use crate::log::{newline_count, spec_step, spec_trim};
use crate::record::{line_clean, token_count};

verus! {

/// Whether every line of `lines` is free of line feeds.
pub open spec fn all_lines_clean(lines: Seq<Seq<u8>>) -> bool {
    forall|k: int| 0 <= k < lines.len() ==> line_clean(#[trigger] lines[k])
}

/// The byte content of a log holding `lines`, oldest first, each line
/// terminated by a line feed.
pub open spec fn render(lines: Seq<Seq<u8>>) -> Seq<u8>
    decreases lines.len(),
{
    if lines.len() == 0 {
        Seq::empty()
    } else {
        lines[0] + seq![10u8] + render(lines.skip(1))
    }
}

/// One polling cycle at the level of lines: the new line goes last; if the
/// log has then reached `capacity` lines, the oldest line is dropped.
pub open spec fn spec_step_lines(lines: Seq<Seq<u8>>, line: Seq<u8>, capacity: nat) -> Seq<
    Seq<u8>,
> {
    let appended = lines.push(line);
    if appended.len() >= capacity {
        appended.skip(1)
    } else {
        appended
    }
}

/// The log left by a whole history: every line of `history` appended in
/// order, the capacity enforced after each append, starting from an empty
/// file.
pub open spec fn run_lines(history: Seq<Seq<u8>>, capacity: nat) -> Seq<Seq<u8>>
    decreases history.len(),
{
    if history.len() == 0 {
        Seq::empty()
    } else {
        spec_step_lines(run_lines(history.drop_last(), capacity), history.last(), capacity)
    }
}

/// Whether `a` is a contiguous suffix of `b`: the lines of `a` are the last
/// `a.len()` lines of `b`, in the same order, with no gap and no reordering.
pub open spec fn is_suffix_of(a: Seq<Seq<u8>>, b: Seq<Seq<u8>>) -> bool {
    a.len() <= b.len() && a == b.skip(b.len() - a.len())
}

/// Counting line feeds distributes over concatenation.
pub proof fn lemma_newline_count_concat(a: Seq<u8>, b: Seq<u8>)
    ensures
        newline_count(a + b) == newline_count(a) + newline_count(b),
    decreases a.len(),
{
    if a.len() == 0 {
        assert(a + b =~= b);
    } else {
        assert((a + b).skip(1) =~= a.skip(1) + b);
        lemma_newline_count_concat(a.skip(1), b);
    }
}

/// A line free of line feeds contributes no line terminator.
pub proof fn lemma_newline_count_clean(a: Seq<u8>)
    requires
        line_clean(a),
    ensures
        newline_count(a) == 0,
    decreases a.len(),
{
    if a.len() > 0 {
        lemma_newline_count_clean(a.skip(1));
    }
}

/// A log of clean lines holds exactly one line terminator per line.
pub proof fn lemma_render_count(lines: Seq<Seq<u8>>)
    requires
        all_lines_clean(lines),
    ensures
        newline_count(render(lines)) == lines.len(),
    decreases lines.len(),
{
    if lines.len() > 0 {
        let nl = seq![10u8];
        assert(newline_count(nl.skip(1)) == 0);
        assert(newline_count(nl) == 1);
        lemma_newline_count_clean(lines[0]);
        lemma_newline_count_concat(lines[0], nl);
        lemma_newline_count_concat(lines[0] + nl, render(lines.skip(1)));
        assert(all_lines_clean(lines.skip(1)));
        lemma_render_count(lines.skip(1));
    }
}

/// Trimming drops exactly the first terminated line: a clean line and its
/// terminator in front of any remainder are removed whole.
pub proof fn lemma_trim_clean_prefix(a: Seq<u8>, rest: Seq<u8>)
    requires
        line_clean(a),
    ensures
        spec_trim(a + seq![10u8] + rest) == rest,
    decreases a.len(),
{
    let whole = a + seq![10u8] + rest;
    if a.len() == 0 {
        assert(whole[0] == 10);
        assert(whole.skip(1) =~= rest);
    } else {
        assert(whole[0] == a[0]);
        assert(whole.skip(1) =~= a.skip(1) + seq![10u8] + rest);
        lemma_trim_clean_prefix(a.skip(1), rest);
    }
}

/// Appending one terminated line to the rendered content renders the log
/// with that line pushed at the end.
pub proof fn lemma_render_push(lines: Seq<Seq<u8>>, line: Seq<u8>)
    ensures
        render(lines.push(line)) == render(lines) + line + seq![10u8],
    decreases lines.len(),
{
    if lines.len() == 0 {
        assert(lines.push(line).skip(1) =~= Seq::<Seq<u8>>::empty());
        assert(render(lines.push(line).skip(1)) == Seq::<u8>::empty());
        assert(render(lines.push(line)) =~= render(lines) + line + seq![10u8]);
    } else {
        assert(lines.push(line).skip(1) =~= lines.skip(1).push(line));
        lemma_render_push(lines.skip(1), line);
        assert(render(lines.push(line)) =~= render(lines) + line + seq![10u8]);
    }
}

/// The byte-level cycle agrees with the lines-level cycle: on content that
/// renders a log of clean lines, appending a clean line and enforcing the
/// capacity renders exactly the stepped log.
pub proof fn lemma_step_model(lines: Seq<Seq<u8>>, line: Seq<u8>, capacity: nat)
    requires
        all_lines_clean(lines),
        line_clean(line),
    ensures
        spec_step(render(lines), line, capacity) == render(spec_step_lines(lines, line, capacity)),
{
    let pushed = lines.push(line);
    lemma_render_push(lines, line);
    assert(all_lines_clean(pushed)) by {
        assert(forall|k: int|
            0 <= k < lines.len() ==> pushed[k] == #[trigger] lines[k]);
    }
    lemma_render_count(pushed);
    if pushed.len() >= capacity {
        assert(render(pushed) == pushed[0] + seq![10u8] + render(pushed.skip(1)));
        lemma_trim_clean_prefix(pushed[0], render(pushed.skip(1)));
    }
}

/// One append on an empty log yields content holding exactly one line: the
/// appended line, terminated.
pub proof fn lemma_single_line(line: Seq<u8>)
    requires
        line_clean(line),
    ensures
        Seq::<u8>::empty() + line + seq![10u8] == render(seq![line]),
        newline_count(Seq::<u8>::empty() + line + seq![10u8]) == 1,
{
    lemma_render_push(Seq::<Seq<u8>>::empty(), line);
    assert(Seq::<Seq<u8>>::empty().push(line) =~= seq![line]);
    assert(all_lines_clean(seq![line]));
    lemma_render_count(seq![line]);
}

/// The capacity law of one cycle: a log within its capacity stays within it,
/// and the line count grows by one exactly until the capacity is reached.
pub proof fn lemma_step_lines_capacity(lines: Seq<Seq<u8>>, line: Seq<u8>, capacity: nat)
    requires
        capacity >= 1,
        lines.len() <= capacity,
    ensures
        spec_step_lines(lines, line, capacity).len() <= capacity,
        spec_step_lines(lines, line, capacity).len() == if lines.len() + 1 >= capacity {
            lines.len() as int
        } else {
            lines.len() + 1 as int
        },
{
}

/// The first-in-first-out law of one cycle: if the log is a contiguous
/// suffix of the append history, it stays one after the next append.
pub proof fn lemma_step_lines_fifo(
    lines: Seq<Seq<u8>>,
    line: Seq<u8>,
    capacity: nat,
    history: Seq<Seq<u8>>,
)
    requires
        is_suffix_of(lines, history),
    ensures
        is_suffix_of(spec_step_lines(lines, line, capacity), history.push(line)),
{
    let d = history.len() - lines.len();
    assert(lines.push(line) =~= history.push(line).skip(d));
    if lines.push(line).len() >= capacity {
        assert(lines.push(line).skip(1) =~= history.push(line).skip(d + 1));
    }
}

/// The laws of a whole history: starting from an empty file and enforcing a
/// capacity of at least one after every append, the log never holds more
/// than `capacity` lines, and it is always a contiguous suffix of the
/// history — the most recently appended lines, oldest first, with no gap and
/// no reordering.
pub proof fn lemma_run_lines_bounded_suffix(history: Seq<Seq<u8>>, capacity: nat)
    requires
        capacity >= 1,
    ensures
        run_lines(history, capacity).len() <= capacity,
        is_suffix_of(run_lines(history, capacity), history),
    decreases history.len(),
{
    if history.len() == 0 {
        assert(Seq::<Seq<u8>>::empty() =~= history.skip(0));
    } else {
        let prev = run_lines(history.drop_last(), capacity);
        lemma_run_lines_bounded_suffix(history.drop_last(), capacity);
        lemma_step_lines_capacity(prev, history.last(), capacity);
        lemma_step_lines_fifo(prev, history.last(), capacity, history.drop_last());
        assert(history.drop_last().push(history.last()) =~= history);
    }
}

/// The capacity law at the byte level: on content rendering at most
/// `capacity` clean lines, one append-and-enforce cycle leaves at most
/// `capacity` line terminators in the file.
pub proof fn lemma_step_capacity_bytes(lines: Seq<Seq<u8>>, line: Seq<u8>, capacity: nat)
    requires
        capacity >= 1,
        all_lines_clean(lines),
        line_clean(line),
        lines.len() <= capacity,
    ensures
        newline_count(spec_step(render(lines), line, capacity)) <= capacity,
{
    lemma_step_model(lines, line, capacity);
    lemma_step_lines_capacity(lines, line, capacity);
    let pushed = lines.push(line);
    assert forall|k: int| 0 <= k < pushed.len() implies line_clean(#[trigger] pushed[k]) by {
        if k < lines.len() {
            assert(pushed[k] == lines[k]);
        } else {
            assert(pushed[k] == line);
        }
    }
    let stepped = spec_step_lines(lines, line, capacity);
    assert forall|k: int| 0 <= k < stepped.len() implies line_clean(#[trigger] stepped[k]) by {
        if pushed.len() >= capacity {
            assert(stepped[k] == pushed[k + 1]);
        } else {
            assert(stepped[k] == pushed[k]);
        }
    }
    lemma_render_count(stepped);
}

/// Every line of the log was appended at some cycle: a history of lines that
/// each parse into two or three whitespace-delimited fields leaves a log
/// whose every line parses into two or three fields.
pub proof fn lemma_run_lines_well_formed(history: Seq<Seq<u8>>, capacity: nat)
    requires
        capacity >= 1,
        forall|k: int|
            0 <= k < history.len() ==> 2 <= token_count(#[trigger] history[k]) <= 3,
    ensures
        forall|k: int|
            0 <= k < run_lines(history, capacity).len() ==> 2 <= token_count(
                #[trigger] run_lines(history, capacity)[k],
            ) <= 3,
{
    lemma_run_lines_bounded_suffix(history, capacity);
    let run = run_lines(history, capacity);
    let d = history.len() - run.len();
    assert(forall|k: int| 0 <= k < run.len() ==> run[k] == #[trigger] history.skip(d)[k]);
}

} // verus!
