//! Byte-level operations on the log file content.
//!
//! The content of the log file is modelled as the byte buffer that the file
//! holds: zero or more lines, each terminated by a line feed. Appending adds
//! one terminated line at the end; trimming drops everything up to and
//! including the first line feed; counting counts line terminators. The
//! combined step mirrors one polling cycle: append, count, and trim once when
//! the count has reached the capacity.

use vstd::prelude::*;

verus! {

/// The number of line terminators in `s`: how many complete lines `s` holds.
pub open spec fn newline_count(s: Seq<u8>) -> nat
    decreases s.len(),
{
    if s.len() == 0 {
        0
    } else {
        (if s[0] == 10 {
            1nat
        } else {
            0nat
        }) + newline_count(s.skip(1))
    }
}

/// `s` with its oldest line removed: everything up to and including the first
/// line feed is dropped. Content without any line feed trims to empty, as
/// rewriting all lines but the first writes nothing.
pub open spec fn spec_trim(s: Seq<u8>) -> Seq<u8>
    decreases s.len(),
{
    if s.len() == 0 {
        s
    } else if s[0] == 10 {
        s.skip(1)
    } else {
        spec_trim(s.skip(1))
    }
}

/// One polling cycle on the content: the terminated line is appended, and if
/// the line count has reached `capacity`, the oldest line is dropped.
pub open spec fn spec_step(content: Seq<u8>, line: Seq<u8>, capacity: nat) -> Seq<u8> {
    let appended = content + line + seq![10u8];
    if newline_count(appended) >= capacity {
        spec_trim(appended)
    } else {
        appended
    }
}

/// Counts the line terminators in `content`.
pub fn count_lines(content: &Vec<u8>) -> (n: usize)
    ensures
        n == newline_count(content@),
{
    let mut n: usize = 0;
    let mut i: usize = 0;
    proof {
        assert(content@.skip(0) =~= content@);
    }
    while i < content.len()
        invariant
            i <= content@.len(),
            n <= i,
            newline_count(content@) == n + newline_count(content@.skip(i as int)),
        decreases content@.len() - i,
    {
        proof {
            assert(content@.skip(i as int).skip(1) =~= content@.skip(i as int + 1));
        }
        if content[i] == 10 {
            n = n + 1;
        }
        i = i + 1;
    }
    proof {
        assert(content@.skip(content@.len() as int) =~= Seq::<u8>::empty());
    }
    n
}

/// Returns `content` with its oldest line removed, leaving `content` itself
/// untouched: the bytes after the first line feed, in their original order.
pub fn trim_oldest(content: &Vec<u8>) -> (out: Vec<u8>)
    ensures
        out@ == spec_trim(content@),
{
    let mut i: usize = 0;
    proof {
        assert(content@.skip(0) =~= content@);
    }
    while i < content.len() && content[i] != 10
        invariant
            i <= content@.len(),
            spec_trim(content@) == spec_trim(content@.skip(i as int)),
        decreases content@.len() - i,
    {
        proof {
            assert(content@.skip(i as int).skip(1) =~= content@.skip(i as int + 1));
        }
        i = i + 1;
    }
    let mut out: Vec<u8> = Vec::new();
    if i == content.len() {
        proof {
            assert(out@ =~= spec_trim(content@.skip(i as int)));
        }
    } else {
        let mut j: usize = i + 1;
        while j < content.len()
            invariant
                i < j <= content@.len(),
                out@ == content@.subrange(i as int + 1, j as int),
            decreases content@.len() - j,
        {
            out.push(content[j]);
            j = j + 1;
            proof {
                assert(content@.subrange(i as int + 1, j as int) =~= content@.subrange(
                    i as int + 1,
                    j as int - 1,
                ).push(content@[j as int - 1]));
            }
        }
        proof {
            assert(content@.skip(i as int).skip(1) =~= content@.subrange(
                i as int + 1,
                content@.len() as int,
            ));
        }
    }
    out
}

/// Appends `line` followed by one line terminator to `content`: the byte
/// image of one append call on the log file.
pub fn append_line(content: &mut Vec<u8>, line: &Vec<u8>)
    ensures
        final(content)@ == old(content)@ + line@ + seq![10u8],
{
    let mut i: usize = 0;
    proof {
        assert(content@ =~= old(content)@ + line@.take(0));
    }
    while i < line.len()
        invariant
            i <= line@.len(),
            content@ == old(content)@ + line@.take(i as int),
        decreases line@.len() - i,
    {
        content.push(line[i]);
        i = i + 1;
        proof {
            assert(line@.take(i as int) =~= line@.take(i as int - 1).push(line@[i as int - 1]));
            assert(content@ =~= old(content)@ + line@.take(i as int));
        }
    }
    content.push(10);
    proof {
        assert(line@.take(line@.len() as int) =~= line@);
        assert(content@ =~= old(content)@ + line@ + seq![10u8]);
    }
}

/// One full cycle of the capacity policy on in-memory content: append the
/// line, count the lines, and drop the oldest line once the count has reached
/// `capacity`. Returns whether a line was dropped.
pub fn append_and_enforce(content: &mut Vec<u8>, line: &Vec<u8>, capacity: usize) -> (trimmed:
    bool)
    ensures
        final(content)@ == spec_step(old(content)@, line@, capacity as nat),
        trimmed == (newline_count(old(content)@ + line@ + seq![10u8]) >= capacity),
{
    append_line(content, line);
    let n = count_lines(content);
    if n >= capacity {
        let t = trim_oldest(content);
        *content = t;
        true
    } else {
        false
    }
}

} // verus!
