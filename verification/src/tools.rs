//! The computing parts of the sibling utilities around the counting engine:
//! joining echo arguments, numbering cat lines, and selecting head lines.
//! Reading the sources and printing stay outside the library.

use vstd::prelude::*;
use vstd::string::StringExecFns;
use crate::format::{dec_digits, right_justified};

verus! {

/// The words joined by single spaces, in order, with no leading or trailing
/// separator.
pub open spec fn joined_of(parts: Seq<Seq<char>>) -> Seq<char>
    decreases parts.len(),
{
    if parts.len() == 0 {
        Seq::empty()
    } else if parts.len() == 1 {
        parts.last()
    } else {
        joined_of(parts.drop_last()) + seq![' '] + parts.last()
    }
}

/// Join the arguments with single spaces and end with a newline unless it
/// was asked to be omitted.
pub fn echo_line(parts: &Vec<String>, omit_newline: bool) -> (r: String)
    ensures
        r@ == joined_of(parts.deep_view()) + (if omit_newline {
            Seq::<char>::empty()
        } else {
            seq!['\n']
        }),
{
    let ghost dv = parts.deep_view();
    let mut out = String::new();
    let mut i: usize = 0;
    while i < parts.len()
        invariant
            dv == parts.deep_view(),
            i <= parts@.len(),
            parts@.len() == dv.len(),
            out@ =~= joined_of(dv.subrange(0, i as int)),
        decreases parts@.len() - i,
    {
        let ghost pre = dv.subrange(0, i as int);
        let ghost post = dv.subrange(0, i as int + 1);
        proof {
            assert(post.drop_last() =~= pre);
            assert(post.last() == dv[i as int]);
        }
        if i > 0 {
            proof {
                reveal_strlit(" ");
            }
            out.append(" ");
        }
        let part = &parts[i];
        out.append(part.as_str());
        proof {
            assert(out@ =~= joined_of(post));
        }
        i = i + 1;
    }
    proof {
        assert(dv.subrange(0, dv.len() as int) =~= dv);
    }
    if !omit_newline {
        proof {
            reveal_strlit("\n");
            assert("\n"@ =~= seq!['\n']);
        }
        out.append("\n");
    }
    out
}

/// One output line of the cat-style tool: the line itself, prefixed — when
/// line numbering or nonblank numbering asks for it — by the number
/// right-justified in six characters and a tab. A blank line under nonblank
/// numbering stays bare.
pub open spec fn cat_line_of(
    line: Seq<char>,
    number: bool,
    nonblank: bool,
    line_no: nat,
    prev_no: nat,
) -> Seq<char> {
    if number {
        right_justified(dec_digits(line_no), 6) + seq!['\t'] + line
    } else if nonblank {
        if line.len() == 0 {
            Seq::empty()
        } else {
            right_justified(dec_digits(prev_no + 1), 6) + seq!['\t'] + line
        }
    } else {
        line
    }
}

/// The nonblank-line counter after rendering one line: it advances exactly
/// when nonblank numbering is in charge and the line is not blank.
pub open spec fn cat_prev_after(
    line: Seq<char>,
    number: bool,
    nonblank: bool,
    prev_no: nat,
) -> nat {
    if !number && nonblank && line.len() > 0 {
        prev_no + 1
    } else {
        prev_no
    }
}

/// Render one line for the cat-style tool and advance the nonblank counter.
/// `line_no` is the one-based position of the line; `prev_no` is the count
/// of nonblank lines seen so far.
pub fn cat_line(line: &str, number: bool, nonblank: bool, line_no: usize, prev_no: usize) -> (r: (
    String,
    usize,
))
    requires
        prev_no < usize::MAX,
    ensures
        r.0@ == cat_line_of(line@, number, nonblank, line_no as nat, prev_no as nat),
        r.1 == cat_prev_after(line@, number, nonblank, prev_no as nat),
{
    proof {
        reveal_strlit("\t");
        assert("\t"@ =~= seq!['\t']);
    }
    if number {
        let mut out = crate::format::format_number(line_no, 6);
        out.append("\t");
        out.append(line);
        (out, prev_no)
    } else if nonblank {
        if line.is_empty() {
            (String::new(), prev_no)
        } else {
            let next = prev_no + 1;
            let mut out = crate::format::format_number(next, 6);
            out.append("\t");
            out.append(line);
            (out, next)
        }
    } else {
        (String::from_str(line), prev_no)
    }
}

/// Clone the first `k` lines.
fn prefix_clone(lines: &Vec<String>, k: usize) -> (r: Vec<String>)
    requires
        k <= lines@.len(),
    ensures
        r.deep_view() == lines.deep_view().take(k as int),
{
    let mut r: Vec<String> = Vec::new();
    let mut i: usize = 0;
    while i < k
        invariant
            k <= lines@.len(),
            i <= k,
            r.deep_view() =~= lines.deep_view().take(i as int),
        decreases k - i,
    {
        let ghost old_r = r.deep_view();
        let s = lines[i].clone();
        r.push(s);
        proof {
            assert(r.deep_view() =~= old_r.push(s@));
            assert(r.deep_view() =~= lines.deep_view().take(i as int + 1));
        }
        i = i + 1;
    }
    r
}

/// The first `n` lines, or all of them when fewer were read: the head-style
/// tool's nonnegative line-count mode.
pub fn head_prefix(lines: &Vec<String>, n: usize) -> (r: Vec<String>)
    ensures
        r.deep_view() == lines.deep_view().take(
            if n <= lines@.len() {
                n as int
            } else {
                lines@.len() as int
            },
        ),
{
    let k = if n <= lines.len() {
        n
    } else {
        lines.len()
    };
    prefix_clone(lines, k)
}

/// All lines but the last `n`, or nothing when there are no more than `n`:
/// the head-style tool's negative line-count mode, which skips the tail.
pub fn all_but_last(lines: &Vec<String>, n: usize) -> (r: Vec<String>)
    ensures
        r.deep_view() == lines.deep_view().take(
            if n <= lines@.len() {
                lines@.len() - n
            } else {
                0int
            },
        ),
{
    let k = if n <= lines.len() {
        lines.len() - n
    } else {
        0
    };
    prefix_clone(lines, k)
}

} // verus!
