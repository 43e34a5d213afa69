//! Rendering of count columns: a selected metric is printed as an
//! 8-character right-justified decimal number, an unselected one as nothing,
//! and a file name as a leading space plus the name (empty for the standard
//! input token).

use vstd::prelude::*;
use vstd::string::StringExecFns;

verus! {

/// The decimal digit character for a value below ten.
pub open spec fn digit_char(d: nat) -> char {
    if d == 0 {
        '0'
    } else if d == 1 {
        '1'
    } else if d == 2 {
        '2'
    } else if d == 3 {
        '3'
    } else if d == 4 {
        '4'
    } else if d == 5 {
        '5'
    } else if d == 6 {
        '6'
    } else if d == 7 {
        '7'
    } else if d == 8 {
        '8'
    } else {
        '9'
    }
}

/// The decimal digits of a value, most significant first, with no leading
/// zeros (zero itself is the single digit `'0'`).
pub open spec fn dec_digits(n: nat) -> Seq<char>
    decreases n,
{
    if n < 10 {
        seq![digit_char(n)]
    } else {
        dec_digits(n / 10).push(digit_char(n % 10))
    }
}

/// A run of space characters.
pub open spec fn spaces(n: nat) -> Seq<char>
    decreases n,
{
    if n == 0 {
        Seq::empty()
    } else {
        spaces((n - 1) as nat).push(' ')
    }
}

/// `s` padded on the left with spaces to width `w`; a value already wider
/// than the field is kept whole.
pub open spec fn right_justified(s: Seq<char>, w: nat) -> Seq<char> {
    if s.len() >= w {
        s
    } else {
        spaces((w - s.len()) as nat) + s
    }
}

/// One output column: the value right-justified in eight characters when the
/// metric is selected, nothing when it is not.
pub open spec fn format_count_of(value: nat, show: bool) -> Seq<char> {
    if show {
        right_justified(dec_digits(value), 8)
    } else {
        Seq::empty()
    }
}

/// The file-name column: empty for the standard-input token `"-"`, otherwise
/// a single space followed by the name.
pub open spec fn format_file_name_of(name: Seq<char>) -> Seq<char> {
    if name == seq!['-'] {
        Seq::empty()
    } else {
        seq![' '] + name
    }
}

/// A decimal digit character.
pub open spec fn is_digit_char(c: char) -> bool {
    c == '0' || c == '1' || c == '2' || c == '3' || c == '4' || c == '5' || c == '6' || c == '7'
        || c == '8' || c == '9'
}

/// The digit character of a value below ten.
fn digit_char_exec(d: usize) -> (c: char)
    requires
        d < 10,
    ensures
        c == digit_char(d as nat),
        is_digit_char(c),
{
    if d == 0 {
        '0'
    } else if d == 1 {
        '1'
    } else if d == 2 {
        '2'
    } else if d == 3 {
        '3'
    } else if d == 4 {
        '4'
    } else if d == 5 {
        '5'
    } else if d == 6 {
        '6'
    } else if d == 7 {
        '7'
    } else if d == 8 {
        '8'
    } else {
        '9'
    }
}

/// Append one decimal digit character to a string.
fn append_digit(out: &mut String, c: char)
    requires
        is_digit_char(c),
    ensures
        final(out)@ == old(out)@.push(c),
{
    let lit: &str = match c {
        '0' => "0",
        '1' => "1",
        '2' => "2",
        '3' => "3",
        '4' => "4",
        '5' => "5",
        '6' => "6",
        '7' => "7",
        '8' => "8",
        _ => "9",
    };
    proof {
        reveal_strlit("0");
        reveal_strlit("1");
        reveal_strlit("2");
        reveal_strlit("3");
        reveal_strlit("4");
        reveal_strlit("5");
        reveal_strlit("6");
        reveal_strlit("7");
        reveal_strlit("8");
        reveal_strlit("9");
        assert(lit@ =~= seq![c]);
    }
    out.append(lit);
    proof {
        assert(out@ =~= old(out)@.push(c));
    }
}

/// Render a value as a right-justified decimal number of the given minimum
/// width; a value with more digits than the field is kept whole.
pub fn format_number(value: usize, width: usize) -> (r: String)
    ensures
        r@ == right_justified(dec_digits(value as nat), width as nat),
{
    let mut rev: Vec<char> = Vec::new();
    let mut m = value;
    while m >= 10
        invariant
            dec_digits(value as nat) =~= dec_digits(m as nat) + rev@.reverse(),
            forall|k: int| 0 <= k < rev@.len() ==> is_digit_char(#[trigger] rev@[k]),
        decreases m,
    {
        let d = m % 10;
        let c = digit_char_exec(d);
        let ghost pre = rev@;
        rev.push(c);
        proof {
            assert(rev@.reverse() =~= seq![c] + pre.reverse());
            assert(dec_digits(m as nat) == dec_digits((m / 10) as nat).push(
                digit_char((m % 10) as nat),
            ));
            assert(dec_digits(m as nat) + pre.reverse() =~= dec_digits((m / 10) as nat) + (seq![c]
                + pre.reverse()));
        }
        m = m / 10;
    }
    let c = digit_char_exec(m);
    let ghost pre = rev@;
    rev.push(c);
    proof {
        assert(rev@.reverse() =~= seq![c] + pre.reverse());
        assert(dec_digits(m as nat) =~= seq![c]);
        assert(dec_digits(value as nat) =~= rev@.reverse());
    }
    let dlen = rev.len();
    let mut out = String::new();
    let mut p = dlen;
    proof {
        reveal_strlit(" ");
        assert(out@ =~= spaces(0));
    }
    while p < width
        invariant
            dlen <= p <= width || (dlen > width && p == dlen),
            out@ =~= spaces((p - dlen) as nat),
        decreases width - p,
    {
        proof {
            reveal_strlit(" ");
        }
        out.append(" ");
        proof {
            assert(out@ =~= spaces((p + 1 - dlen) as nat));
        }
        p = p + 1;
    }
    let ghost pad = out@;
    proof {
        assert(pad =~= spaces(if dlen < width { (width - dlen) as nat } else { 0nat }));
    }
    let mut j = rev.len();
    while j > 0
        invariant
            j <= rev.len(),
            rev@.reverse() =~= dec_digits(value as nat),
            forall|k: int| 0 <= k < rev@.len() ==> is_digit_char(#[trigger] rev@[k]),
            out@ =~= pad + rev@.reverse().take(rev@.len() - j),
        decreases j,
    {
        j = j - 1;
        let c = rev[j];
        let ghost before = out@;
        append_digit(&mut out, c);
        proof {
            assert(out@ =~= pad + rev@.reverse().take(rev@.len() - j)) by {
                assert(rev@.reverse()[rev@.len() - j - 1] == rev@[j as int]);
                assert(rev@.reverse().take(rev@.len() - j) =~= rev@.reverse().take(
                    rev@.len() - j - 1,
                ).push(c));
                assert(before.push(c) =~= pad + rev@.reverse().take(rev@.len() - j));
            }
        }
    }
    proof {
        assert(rev@.reverse().take(rev@.len() as int) =~= rev@.reverse());
        assert(out@ =~= pad + dec_digits(value as nat));
        assert(dec_digits(value as nat).len() == dlen);
        assert(out@ =~= right_justified(dec_digits(value as nat), width as nat));
    }
    out
}

/// Render one count column: the value right-justified in eight characters
/// when `show` is set, the empty string otherwise.
pub fn format_count(value: usize, show: bool) -> (r: String)
    ensures
        r@ == format_count_of(value as nat, show),
{
    if show {
        format_number(value, 8)
    } else {
        String::new()
    }
}

/// Render the file-name column: empty for the standard-input token `"-"`, a
/// leading space and the name otherwise.
pub fn format_file_name(filename: &str) -> (r: String)
    ensures
        r@ == format_file_name_of(filename@),
{
    let n = filename.unicode_len();
    if n == 1 && filename.get_char(0) == '-' {
        proof {
            assert(filename@ =~= seq!['-']);
        }
        String::new()
    } else {
        proof {
            assert(filename@ != seq!['-']);
        }
        let mut out = String::from_str(" ");
        proof {
            reveal_strlit(" ");
            assert(out@ =~= seq![' ']);
        }
        out.append(filename);
        out
    }
}

} // verus!
