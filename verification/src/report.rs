//! Multi-source aggregation and the full output lines.
//!
//! For each source, in the order given, the engine emits one line of
//! selected columns; a running field-wise total over the sources that could
//! be read is kept, and when more than one source was named a final total
//! line is emitted. A source that failed to open contributes no line and
//! nothing to the total, and does not stop the others.

use vstd::prelude::*;
use vstd::string::StringExecFns;
use crate::counting::FileInfo;
use crate::format::{format_count, format_count_of, format_file_name, format_file_name_of};

verus! {

/// Which metrics are shown. The engine always computes all four; selection
/// only filters the output columns.
#[derive(Debug, PartialEq, Eq, Structural, Clone, Copy)]
pub struct Selection {
    pub lines: bool,
    pub words: bool,
    pub bytes: bool,
    pub chars: bool,
}

/// No metric was explicitly requested.
pub open spec fn none_selected(sel: Selection) -> bool {
    !sel.lines && !sel.words && !sel.bytes && !sel.chars
}

/// The default metric set, used when nothing was requested explicitly:
/// lines, words and bytes, with characters excluded.
pub fn normalize_selection(sel: Selection) -> (r: Selection)
    ensures
        none_selected(sel) ==> r == (Selection {
            lines: true,
            words: true,
            bytes: true,
            chars: false,
        }),
        !none_selected(sel) ==> r == sel,
{
    if !sel.lines && !sel.words && !sel.bytes && !sel.chars {
        Selection { lines: true, words: true, bytes: true, chars: false }
    } else {
        sel
    }
}

/// One output line: the four columns in fixed order (lines, words, bytes,
/// characters), each shown only if selected, followed by the file-name
/// column.
pub open spec fn format_line_of(info: FileInfo, sel: Selection, name: Seq<char>) -> Seq<char> {
    format_count_of(info.num_lines as nat, sel.lines) + format_count_of(
        info.num_words as nat,
        sel.words,
    ) + format_count_of(info.num_bytes as nat, sel.bytes) + format_count_of(
        info.num_chars as nat,
        sel.chars,
    ) + format_file_name_of(name)
}

/// The label that ends the total line.
pub open spec fn total_label() -> Seq<char> {
    seq![' ', 't', 'o', 't', 'a', 'l']
}

/// The total line: the four columns of the summed record, followed by the
/// total label in place of a file name.
pub open spec fn format_total_line_of(info: FileInfo, sel: Selection) -> Seq<char> {
    format_count_of(info.num_lines as nat, sel.lines) + format_count_of(
        info.num_words as nat,
        sel.words,
    ) + format_count_of(info.num_bytes as nat, sel.bytes) + format_count_of(
        info.num_chars as nat,
        sel.chars,
    ) + total_label()
}

/// Render the selected columns of one record.
fn format_columns(info: &FileInfo, sel: &Selection) -> (r: String)
    ensures
        r@ == format_count_of(info.num_lines as nat, sel.lines) + format_count_of(
            info.num_words as nat,
            sel.words,
        ) + format_count_of(info.num_bytes as nat, sel.bytes) + format_count_of(
            info.num_chars as nat,
            sel.chars,
        ),
{
    let mut out = format_count(info.num_lines, sel.lines);
    let words = format_count(info.num_words, sel.words);
    out.append(words.as_str());
    let bytes = format_count(info.num_bytes, sel.bytes);
    out.append(bytes.as_str());
    let chars = format_count(info.num_chars, sel.chars);
    out.append(chars.as_str());
    out
}

/// Render one source's output line.
pub fn format_line(info: &FileInfo, sel: &Selection, filename: &str) -> (r: String)
    ensures
        r@ == format_line_of(*info, *sel, filename@),
{
    let mut out = format_columns(info, sel);
    let name = format_file_name(filename);
    out.append(name.as_str());
    out
}

/// Render the total line.
pub fn format_total_line(info: &FileInfo, sel: &Selection) -> (r: String)
    ensures
        r@ == format_total_line_of(*info, *sel),
{
    let mut out = format_columns(info, sel);
    proof {
        reveal_strlit(" total");
        assert(" total"@ =~= total_label());
    }
    out.append(" total");
    out
}

/// What one source yielded: its counts, or nothing when it could not be
/// opened (the failure itself is reported outside the engine).
pub struct SourceOutcome {
    pub name: String,
    pub info: Option<FileInfo>,
}

/// The per-source output lines, in source order; a failed source yields no
/// line.
pub open spec fn ok_lines_of(items: Seq<SourceOutcome>, sel: Selection) -> Seq<Seq<char>>
    decreases items.len(),
{
    if items.len() == 0 {
        Seq::empty()
    } else {
        ok_lines_of(items.drop_last(), sel) + (match items.last().info {
            Some(i) => seq![format_line_of(i, sel, items.last().name@)],
            None => Seq::<Seq<char>>::empty(),
        })
    }
}

/// Field-wise totals over the sources that yielded counts: lines, words,
/// bytes, characters. A failed source contributes nothing.
pub open spec fn totals_of(items: Seq<SourceOutcome>) -> (nat, nat, nat, nat)
    decreases items.len(),
{
    if items.len() == 0 {
        (0nat, 0nat, 0nat, 0nat)
    } else {
        let t = totals_of(items.drop_last());
        match items.last().info {
            Some(i) => (
                (t.0 + i.num_lines) as nat,
                (t.1 + i.num_words) as nat,
                (t.2 + i.num_bytes) as nat,
                (t.3 + i.num_chars) as nat,
            ),
            None => t,
        }
    }
}

/// Every total fits in the machine word, so the running sums cannot
/// overflow.
pub open spec fn totals_fit(items: Seq<SourceOutcome>) -> bool {
    &&& totals_of(items).0 <= usize::MAX
    &&& totals_of(items).1 <= usize::MAX
    &&& totals_of(items).2 <= usize::MAX
    &&& totals_of(items).3 <= usize::MAX
}

/// The record holding the totals.
pub open spec fn total_info_of(items: Seq<SourceOutcome>) -> FileInfo {
    FileInfo {
        num_lines: totals_of(items).0 as usize,
        num_words: totals_of(items).1 as usize,
        num_bytes: totals_of(items).2 as usize,
        num_chars: totals_of(items).3 as usize,
    }
}

/// Everything the invocation prints to standard output: one line per source
/// that could be read, and — only when more than one source was named — one
/// final total line.
pub open spec fn report_of(items: Seq<SourceOutcome>, sel: Selection) -> Seq<Seq<char>> {
    ok_lines_of(items, sel) + (if items.len() > 1 {
        seq![format_total_line_of(total_info_of(items), sel)]
    } else {
        Seq::<Seq<char>>::empty()
    })
}

/// Totals only grow as sources are appended: the totals of a prefix are
/// bounded by the totals of the whole.
proof fn lemma_totals_prefix(items: Seq<SourceOutcome>, i: int)
    requires
        0 <= i <= items.len(),
    ensures
        totals_of(items.subrange(0, i)).0 <= totals_of(items).0,
        totals_of(items.subrange(0, i)).1 <= totals_of(items).1,
        totals_of(items.subrange(0, i)).2 <= totals_of(items).2,
        totals_of(items.subrange(0, i)).3 <= totals_of(items).3,
    decreases items.len(),
{
    if i == items.len() {
        assert(items.subrange(0, i) =~= items);
    } else {
        assert(items.drop_last().subrange(0, i) =~= items.subrange(0, i));
        lemma_totals_prefix(items.drop_last(), i);
    }
}

/// Produce the full standard-output report for a run: one line per source
/// that yielded counts, in order, plus a total line when more than one
/// source was named. The total is the field-wise sum of exactly the sources
/// that yielded counts.
pub fn report(items: &Vec<SourceOutcome>, sel: &Selection) -> (out: Vec<String>)
    requires
        totals_fit(items@),
    ensures
        out.deep_view() == report_of(items@, *sel),
{
    let mut out: Vec<String> = Vec::new();
    let mut total = FileInfo::zero();
    let mut idx: usize = 0;
    while idx < items.len()
        invariant
            totals_fit(items@),
            idx <= items@.len(),
            out.deep_view() =~= ok_lines_of(items@.subrange(0, idx as int), *sel),
            total.num_lines == totals_of(items@.subrange(0, idx as int)).0,
            total.num_words == totals_of(items@.subrange(0, idx as int)).1,
            total.num_bytes == totals_of(items@.subrange(0, idx as int)).2,
            total.num_chars == totals_of(items@.subrange(0, idx as int)).3,
        decreases items@.len() - idx,
    {
        let item = &items[idx];
        let ghost pre = items@.subrange(0, idx as int);
        let ghost post = items@.subrange(0, idx as int + 1);
        proof {
            assert(post.drop_last() =~= pre);
            assert(post.last() == items@[idx as int]);
            lemma_totals_prefix(items@, idx as int + 1);
        }
        match item.info {
            Some(fi) => {
                let ghost old_out = out.deep_view();
                let line = format_line(&fi, sel, item.name.as_str());
                out.push(line);
                proof {
                    assert(out.deep_view() =~= old_out.push(line@));
                    assert(ok_lines_of(post, *sel) =~= ok_lines_of(pre, *sel).push(
                        format_line_of(fi, *sel, item.name@),
                    ));
                }
                total = total.add(&fi);
            },
            None => {},
        }
        idx = idx + 1;
    }
    proof {
        assert(items@.subrange(0, items@.len() as int) =~= items@);
    }
    if items.len() > 1 {
        let ghost old_out = out.deep_view();
        let t = format_total_line(&total, sel);
        out.push(t);
        proof {
            assert(out.deep_view() =~= old_out.push(t@));
            assert(out.deep_view() =~= report_of(items@, *sel));
        }
    } else {
        proof {
            assert(out.deep_view() =~= report_of(items@, *sel));
        }
    }
    out
}

} // verus!
