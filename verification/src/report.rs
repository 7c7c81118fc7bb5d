//! The report of the error that ends a run.

use vstd::prelude::*;

use crate::style::{bold_text, error_label, Shade};
use crate::text::{
    blanks, lemma_lines_concat, lemma_lines_unbroken, lemma_one_line, lines, spaces, split_lines,
    texts, unbroken, without_return,
};

verus! {

/// One line of the report: the first carries the label, the others are indented by the
/// width of the label.
pub open spec fn report_line(label: Seq<char>, index: nat, line: Seq<char>) -> Seq<char> {
    "       "@ + (if index == 0 {
        label
    } else {
        blanks("Error"@.len())
    }) + " "@ + line + "\n"@
}

/// The report on the given lines.
pub open spec fn report(label: Seq<char>, lines: Seq<Seq<char>>) -> Seq<char>
    decreases lines.len(),
{
    if lines.len() == 0 {
        Seq::empty()
    } else {
        report(label, lines.drop_last()) + report_line(
            label,
            (lines.len() - 1) as nat,
            lines.last(),
        )
    }
}

/// Writes the report on an error with a label that was painted before.
pub fn render_report(label: &str, error: &str) -> (r: String)
    ensures
        r@ == report(label@, lines(error@)),
{
    let parts = split_lines(error);
    let indent = spaces("Error".unicode_len());
    let mut out = String::new();
    let mut i: usize = 0;
    assert(texts(parts@).take(0) =~= Seq::<Seq<char>>::empty());
    while i < parts.len()
        invariant
            i <= parts.len(),
            indent@ == blanks("Error"@.len()),
            texts(parts@) == lines(error@),
            out@ == report(label@, lines(error@).take(i as int)),
        decreases parts.len() - i,
    {
        let ghost before = out@;
        out.append("       ");
        if i == 0 {
            out.append(label);
        } else {
            out.append(indent.as_str());
        }
        out.append(" ");
        out.append(parts[i].as_str());
        out.append("\n");
        proof {
            let taken = lines(error@).take(i + 1);
            assert(taken.drop_last() =~= lines(error@).take(i as int));
            assert(taken.last() == texts(parts@)[i as int]);
            assert(out@ =~= before + report_line(label@, i as nat, parts@[i as int]@));
        }
        i = i + 1;
    }
    assert(lines(error@).take(parts@.len() as int) =~= lines(error@));
    out
}

/// Writes the report on an error, in colour where colours are switched on.
pub fn render_error(error: &str) -> (r: String)
    ensures
        r@ == report("Error"@, lines(error@)) || r@ == report(
            bold_text("Error"@, Shade::Red),
            lines(error@),
        ),
{
    let label = error_label();
    render_report(label.as_str(), error)
}

/// In plain text every line of the error starts in the same column of the report.
pub proof fn lemma_report_aligned(index: nat, line: Seq<char>)
    ensures
        report_line("Error"@, index, line).len() == 14 + line.len(),
        report_line("Error"@, index, line).skip(13) == line + "\n"@,
{
    reveal_strlit("       ");
    reveal_strlit("Error");
    reveal_strlit(" ");
    reveal_strlit("\n");
    assert(report_line("Error"@, index, line).skip(13) =~= line + "\n"@);
}

/// The report has a line for each line of the error, in the same order, and no other.
pub proof fn lemma_report_lines(label: Seq<char>, error: Seq<char>)
    requires
        unbroken(label),
    ensures
        lines(report(label, lines(error))) == Seq::new(
            lines(error).len(),
            |i: int| without_return(report_line(label, i as nat, lines(error)[i]).drop_last()),
        ),
{
    lemma_lines_unbroken(error, 0);
    lemma_report_of_unbroken(label, lines(error));
}

proof fn lemma_report_of_unbroken(label: Seq<char>, parts: Seq<Seq<char>>)
    requires
        unbroken(label),
        forall|k: int| 0 <= k < parts.len() ==> unbroken(#[trigger] parts[k]),
    ensures
        report(label, parts).len() > 0 ==> report(label, parts).last() == '\n',
        lines(report(label, parts)) == Seq::new(
            parts.len(),
            |i: int| without_return(report_line(label, i as nat, parts[i]).drop_last()),
        ),
    decreases parts.len(),
{
    let expected = Seq::new(
        parts.len(),
        |i: int| without_return(report_line(label, i as nat, parts[i]).drop_last()),
    );
    if parts.len() == 0 {
        assert(lines(report(label, parts)) =~= expected);
    } else {
        let earlier = parts.drop_last();
        assert forall|k: int| 0 <= k < earlier.len() implies unbroken(#[trigger] earlier[k]) by {
            assert(earlier[k] == parts[k]);
        }
        lemma_report_of_unbroken(label, earlier);
        let n = (parts.len() - 1) as nat;
        let last = report_line(label, n, parts.last());
        let body = last.drop_last();
        reveal_strlit("       ");
        reveal_strlit(" ");
        reveal_strlit("\n");
        assert(unbroken(parts[n as int]));
        assert(last =~= body.push('\n'));
        assert(unbroken(body));
        lemma_one_line(body);
        lemma_lines_concat(report(label, earlier), last);
        assert(lines(report(label, parts)) =~= expected);
    }
}

/// The first line of a report carries the label, behind seven blanks; every other line is
/// indented by thirteen, whatever the label and its number are. Each ends with the line of
/// the error, unchanged, and a line feed.
pub proof fn lemma_report_line(label: Seq<char>, index: nat, line: Seq<char>)
    ensures
        index == 0 ==> report_line(label, index, line) == blanks(7) + label + seq![' '] + line
            + seq!['\n'],
        index > 0 ==> report_line(label, index, line) == blanks(13) + line + seq!['\n'],
{
    reveal_strlit("       ");
    reveal_strlit("Error");
    reveal_strlit(" ");
    reveal_strlit("\n");
    if index == 0 {
        assert(report_line(label, index, line) =~= blanks(7) + label + seq![' '] + line
            + seq!['\n']);
    } else {
        assert(report_line(label, index, line) =~= blanks(13) + line + seq!['\n']);
    }
}

/// A further line of the error adds its line at the end of the report and leaves the rest
/// as it was; without lines the report is empty.
pub proof fn lemma_report_grows(label: Seq<char>, parts: Seq<Seq<char>>, line: Seq<char>)
    ensures
        report(label, Seq::<Seq<char>>::empty()).len() == 0,
        report(label, seq![line]) == blanks(7) + label + seq![' '] + line + seq!['\n'],
        parts.len() > 0 ==> report(label, parts.push(line)) == report(label, parts) + blanks(13)
            + line + seq!['\n'],
{
    assert(seq![line].drop_last() =~= Seq::<Seq<char>>::empty());
    assert(parts.push(line).drop_last() =~= parts);
    lemma_report_line(label, 0, line);
    lemma_report_line(label, parts.len(), line);
    assert(report(label, Seq::<Seq<char>>::empty()) =~= Seq::<char>::empty());
    assert(seq![line].last() == line);
    assert(report(label, seq![line]) =~= report(label, seq![line].drop_last()) + report_line(
        label,
        0,
        line,
    ));
    if parts.len() > 0 {
        assert(report(label, parts.push(line)) =~= report(label, parts) + blanks(13) + line
            + seq!['\n']);
    }
}

} // verus!
