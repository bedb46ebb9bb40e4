//! Lists for the operator, set in columns.

use crate::text::{chars_of, join3, trailing_space, trim_end};
use vstd::prelude::*;
use vstd::string::StringExecFns;
use vstd::string::StringSliceAdditionalSpecFns;
use vstd::utf8::encode_utf8;

verus! {

/// How many bytes a text takes.
pub open spec fn byte_len(s: Seq<char>) -> nat {
    encode_utf8(s).len()
}

/// A row of `n` blanks.
pub open spec fn blanks(n: nat) -> Seq<char> {
    Seq::new(n, |i: int| ' ')
}

/// A field in a column that is `w` characters wide: the field, blanks up to
/// the width if the field is shorter, and one blank more.
pub open spec fn cell(field: Seq<char>, w: nat) -> Seq<char> {
    field + blanks(
        if w > field.len() {
            (w - field.len()) as nat
        } else {
            0
        },
    ) + seq![' ']
}

/// The first `n` fields, each in its column.
pub open spec fn cells(fields: Seq<Seq<char>>, widths: Seq<usize>, n: nat) -> Seq<char>
    decreases n,
{
    if n == 0 {
        Seq::empty()
    } else {
        cells(fields, widths, (n - 1) as nat) + cell(fields[n - 1], widths[n - 1] as nat)
    }
}

/// A line of a table: as many fields as there are columns for, each in its
/// column, without the white space at the end.
pub open spec fn line(fields: Seq<Seq<char>>, widths: Seq<usize>) -> Seq<char> {
    let n = if fields.len() < widths.len() {
        fields.len()
    } else {
        widths.len()
    };
    let all = cells(fields, widths, n);
    all.take(all.len() - trailing_space(all))
}

/// The width of the column `col` after the first `n` rows: that of its
/// heading, or that of the widest field in it if that is wider. The last
/// column is as wide as its heading, whatever it holds.
pub open spec fn width(
    headers: Seq<Seq<char>>,
    rows: Seq<Seq<Seq<char>>>,
    col: int,
    n: nat,
) -> nat
    decreases n,
{
    if n == 0 {
        byte_len(headers[col])
    } else {
        let before = width(headers, rows, col, (n - 1) as nat);
        let row = rows[n - 1];
        if col < headers.len() - 1 && col < row.len() && byte_len(row[col]) > before {
            byte_len(row[col])
        } else {
            before
        }
    }
}

/// Whether `widths` are the widths of the columns of the table.
pub open spec fn fits(widths: Seq<usize>, headers: Seq<Seq<char>>, rows: Seq<Seq<Seq<char>>>) -> bool {
    &&& widths.len() == headers.len()
    &&& forall|c: int| 0 <= c < widths.len() ==> widths[c] as nat == width(headers, rows, c, rows.len())
}

/// The lines of the table with the headings `headers` and the rows `rows`,
/// or the one line that says that there are none of `plural`.
pub open spec fn table_lines(
    rows: Seq<Seq<Seq<char>>>,
    plural: Seq<char>,
    headers: Seq<Seq<char>>,
    widths: Seq<usize>,
) -> Seq<Seq<char>> {
    if rows.len() == 0 {
        seq!["No "@ + plural + "."@]
    } else {
        seq![line(headers, widths)] + Seq::new(rows.len(), |r: int| line(rows[r], widths))
    }
}

/// How many bytes `s` takes.
fn bytes(s: &str) -> (n: usize)
    ensures
        n == byte_len(s@),
{
    s.as_bytes().len()
}

/// A line of a table.
pub fn table_line(fields: &Vec<String>, widths: &Vec<usize>) -> (r: String)
    ensures
        r@ == line(fields.deep_view(), widths@),
{
    let n = if fields.len() < widths.len() {
        fields.len()
    } else {
        widths.len()
    };
    let ghost all = fields.deep_view();
    let mut s = String::new();
    let mut i: usize = 0;
    while i < n
        invariant
            i <= n,
            n <= fields@.len(),
            n <= widths@.len(),
            all == fields.deep_view(),
            s@ == cells(all, widths@, i as nat),
        decreases n - i,
    {
        let field = fields[i].as_str();
        assert(field@ == all[i as int]);
        let have = chars_of(field).len();
        let ghost before = s@;
        s.append(field);
        let mut k: usize = have;
        while k < widths[i]
            invariant
                i < widths@.len(),
                have <= k,
                have == field@.len(),
                k <= widths@[i as int] || k == have,
                s@ == before + field@ + blanks((k - have) as nat),
            decreases widths@[i as int] - k,
        {
            s.append(" ");
            proof {
                reveal_strlit(" ");
                assert(s@ =~= before + field@ + blanks((k + 1 - have) as nat));
            }
            k = k + 1;
        }
        s.append(" ");
        proof {
            reveal_strlit(" ");
            assert(s@ =~= before + cell(field@, widths@[i as int] as nat));
        }
        i = i + 1;
    }
    trim_end(s.as_str())
}

/// The widths of the columns of the table with the headings `headers` and
/// the rows `rows`.
pub fn widths(headers: &Vec<String>, rows: &Vec<Vec<String>>) -> (w: Vec<usize>)
    ensures
        fits(w@, headers.deep_view(), rows.deep_view()),
{
    let ghost heads = headers.deep_view();
    let ghost all = rows.deep_view();
    let mut w: Vec<usize> = Vec::new();
    let mut c: usize = 0;
    while c < headers.len()
        invariant
            c <= headers@.len(),
            heads == headers.deep_view(),
            w@.len() == c,
            forall|j: int| 0 <= j < c ==> w@[j] as nat == width(heads, all, j, 0),
        decreases headers@.len() - c,
    {
        assert(heads[c as int] == headers@[c as int]@);
        w.push(bytes(headers[c].as_str()));
        c = c + 1;
    }
    let mut r: usize = 0;
    while r < rows.len()
        invariant
            r <= rows@.len(),
            heads == headers.deep_view(),
            all == rows.deep_view(),
            w@.len() == headers@.len(),
            forall|j: int| 0 <= j < w@.len() ==> w@[j] as nat == width(heads, all, j, r as nat),
        decreases rows@.len() - r,
    {
        let row = &rows[r];
        assert(all[r as int] == row.deep_view());
        let mut i: usize = 0;
        while i < w.len() && i + 1 < w.len() && i < row.len()
            invariant
                i <= w@.len(),
                r < rows@.len(),
                row == rows@[r as int],
                heads == headers.deep_view(),
                all == rows.deep_view(),
                all[r as int] == row.deep_view(),
                w@.len() == headers@.len(),
                forall|j: int| 0 <= j < i ==> w@[j] as nat == width(heads, all, j, (r + 1) as nat),
                forall|j: int| i <= j < w@.len() ==> w@[j] as nat == width(heads, all, j, r as nat),
            decreases w@.len() - i,
        {
            assert(row.deep_view()[i as int] == row@[i as int]@);
            let n = bytes(row[i].as_str());
            if n > w[i] {
                w.set(i, n);
            }
            i = i + 1;
        }
        r = r + 1;
    }
    w
}

/// The lines that print the table with the headings `headers` and the rows
/// `rows`, or the one line that says that there are none of `plural`.
pub fn print_table(rows: &Vec<Vec<String>>, plural: &str, headers: &Vec<String>) -> (lines: Vec<String>)
    ensures
        exists|w: Seq<usize>|
            fits(w, headers.deep_view(), rows.deep_view()) && lines.deep_view() == #[trigger] table_lines(
                rows.deep_view(),
                plural@,
                headers.deep_view(),
                w,
            ),
{
    let w = widths(headers, rows);
    let mut lines: Vec<String> = Vec::new();
    if rows.len() == 0 {
        lines.push(join3("No ", plural, "."));
        assert(lines.deep_view() =~= table_lines(
            rows.deep_view(),
            plural@,
            headers.deep_view(),
            w@,
        ));
        return lines;
    }
    lines.push(table_line(headers, &w));
    let ghost all = rows.deep_view();
    let ghost heads = headers.deep_view();
    let mut r: usize = 0;
    while r < rows.len()
        invariant
            r <= rows@.len(),
            all == rows.deep_view(),
            lines@.len() == r + 1,
            lines@[0]@ == line(heads, w@),
            forall|j: int| 0 <= j < r ==> lines@[j + 1]@ == line(all[j], w@),
        decreases rows@.len() - r,
    {
        assert(all[r as int] == rows@[r as int].deep_view());
        lines.push(table_line(&rows[r], &w));
        r = r + 1;
    }
    assert(lines.deep_view() =~= table_lines(all, plural@, heads, w@));
    lines
}

} // verus!
