//! Fixed-column text tables.
//!
//! A column is as wide as its longest cell or its heading, counted in UTF-8 bytes; a
//! cell is filled with spaces on the right up to that many characters.
use crate::text::texts;
use vstd::prelude::*;
use vstd::utf8::encode_utf8;

verus! {

/// The length of a text in UTF-8 bytes.
pub open spec fn byte_len(s: Seq<char>) -> nat {
    encode_utf8(s).len()
}

/// The length of a text in UTF-8 bytes.
pub fn len_in_bytes(s: &str) -> (n: usize)
    ensures
        n == byte_len(s@),
{
    s.as_bytes().len()
}

/// The width of a column: the most bytes of the heading and the cells.
pub open spec fn width_of(header: Seq<char>, cells: Seq<Seq<char>>) -> nat
    decreases cells.len(),
{
    if cells.len() == 0 {
        byte_len(header)
    } else {
        let w = width_of(header, cells.drop_last());
        if byte_len(cells.last()) > w {
            byte_len(cells.last())
        } else {
            w
        }
    }
}

/// The characters of each string slice of a sequence.
pub open spec fn str_texts(v: Seq<&str>) -> Seq<Seq<char>> {
    v.map_values(|s: &str| s@)
}

/// The width of a column: the most bytes of the heading and the cells.
pub fn column_width(header: &str, cells: &[&str]) -> (w: usize)
    ensures
        w == width_of(header@, str_texts(cells@)),
{
    let mut w: usize = len_in_bytes(header);
    let mut i: usize = 0;
    let ghost all = str_texts(cells@);
    assert(all.take(0) =~= seq![]);
    while i < cells.len()
        invariant
            i <= cells.len(),
            all == str_texts(cells@),
            w == width_of(header@, all.take(i as int)),
        decreases cells.len() - i,
    {
        let n = len_in_bytes(cells[i]);
        assert(all.take(i + 1).drop_last() =~= all.take(i as int));
        assert(all.take(i + 1).last() == cells@[i as int]@);
        if n > w {
            w = n;
        }
        i += 1;
    }
    assert(all.take(i as int) =~= all);
    w
}

/// The width of a column is that of its heading or of one of its cells, and none is wider.
pub proof fn law_width_is_maximum(header: Seq<char>, cells: Seq<Seq<char>>)
    ensures
        width_of(header, cells) >= byte_len(header),
        forall|i: int| 0 <= i < cells.len() ==> width_of(header, cells) >= byte_len(#[trigger] cells[i]),
        width_of(header, cells) == byte_len(header) || exists|i: int|
            0 <= i < cells.len() && width_of(header, cells) == byte_len(#[trigger] cells[i]),
    decreases cells.len(),
{
    if cells.len() > 0 {
        let init = cells.drop_last();
        law_width_is_maximum(header, init);
        assert forall|i: int| 0 <= i < cells.len() implies width_of(header, cells) >= byte_len(
            #[trigger] cells[i],
        ) by {
            if i < init.len() {
                assert(init[i] == cells[i]);
            }
        }
        if width_of(header, cells) == byte_len(cells.last()) {
            assert(cells[cells.len() - 1] == cells.last());
        } else if width_of(header, init) != byte_len(header) {
            let i = choose|i: int|
                0 <= i < init.len() && width_of(header, init) == byte_len(#[trigger] init[i]);
            assert(cells[i] == init[i]);
        }
    }
}

/// `n` spaces.
pub open spec fn spaces(n: nat) -> Seq<char> {
    Seq::new(n, |i: int| ' ')
}

/// Append `n` spaces.
pub fn push_spaces(out: &mut String, n: usize)
    ensures
        final(out)@ == old(out)@ + spaces(n as nat),
{
    let mut i: usize = 0;
    assert(out@ =~= old(out)@ + spaces(0));
    while i < n
        invariant
            i <= n,
            out@ == old(out)@ + spaces(i as nat),
        decreases n - i,
    {
        out.push(' ');
        i += 1;
        assert(out@ =~= old(out)@ + spaces(i as nat));
    }
}

/// A text filled with spaces on the right up to `w` characters.
pub open spec fn padded(s: Seq<char>, w: nat) -> Seq<char> {
    if s.len() < w {
        s + spaces((w - s.len()) as nat)
    } else {
        s
    }
}

/// Append a text filled with spaces on the right up to `w` characters.
pub fn push_padded(out: &mut String, s: &str, w: usize)
    ensures
        final(out)@ == old(out)@ + padded(s@, w as nat),
{
    out.append(s);
    let n = s.unicode_len();
    if n < w {
        push_spaces(out, w - n);
        assert(out@ =~= old(out)@ + padded(s@, w as nat));
    }
}

/// The first `n` cells of a row, each padded to its width, two spaces between.
pub open spec fn cells_text(cells: Seq<Seq<char>>, widths: Seq<nat>, n: nat) -> Seq<char>
    decreases n,
{
    if n == 0 {
        seq![]
    } else if n == 1 {
        padded(cells[0], widths[0])
    } else {
        cells_text(cells, widths, (n - 1) as nat) + "  "@ + padded(cells[n - 1], widths[n - 1])
    }
}

/// One line of a table.
pub open spec fn row_line(prefix: Seq<char>, cells: Seq<Seq<char>>, widths: Seq<nat>) -> Seq<char> {
    prefix + cells_text(cells, widths, cells.len()) + seq!['\n']
}

/// The widths as mathematical integers.
pub open spec fn nat_widths(widths: Seq<usize>) -> Seq<nat> {
    widths.map_values(|w: usize| w as nat)
}

/// Append one line of a table.
pub fn push_row(out: &mut String, prefix: &str, cells: &Vec<String>, widths: &Vec<usize>)
    requires
        cells@.len() == widths@.len(),
    ensures
        final(out)@ == old(out)@ + row_line(prefix@, texts(cells@), nat_widths(widths@)),
{
    let ghost c = texts(cells@);
    let ghost w = nat_widths(widths@);
    out.append(prefix);
    let ghost head = out@;
    let mut i: usize = 0;
    assert(out@ =~= head + cells_text(c, w, 0));
    while i < cells.len()
        invariant
            i <= cells.len(),
            cells@.len() == widths@.len(),
            c == texts(cells@),
            w == nat_widths(widths@),
            out@ == head + cells_text(c, w, i as nat),
        decreases cells.len() - i,
    {
        if i > 0 {
            out.append("  ");
        }
        push_padded(out, cells[i].as_str(), widths[i]);
        i += 1;
        assert(out@ =~= head + cells_text(c, w, i as nat));
    }
    out.push('\n');
    assert(out@ =~= old(out)@ + row_line(prefix@, c, w));
}

/// The texts of all cells, row by row.
pub open spec fn grid(rows: Seq<Vec<String>>) -> Seq<Seq<Seq<char>>> {
    rows.map_values(|r: Vec<String>| texts(r@))
}

/// The cells of column `j`.
pub open spec fn column(rows: Seq<Seq<Seq<char>>>, j: int) -> Seq<Seq<char>> {
    rows.map_values(|r: Seq<Seq<char>>| r[j])
}

/// The widths of all columns.
pub open spec fn widths_of(header: Seq<Seq<char>>, rows: Seq<Seq<Seq<char>>>) -> Seq<nat> {
    Seq::new(header.len(), |j: int| width_of(header[j], column(rows, j)))
}

/// The widths of all columns.
pub fn column_widths(header: &Vec<String>, rows: &Vec<Vec<String>>) -> (widths: Vec<usize>)
    requires
        forall|i: int| 0 <= i < rows@.len() ==> (#[trigger] rows@[i])@.len() == header@.len(),
    ensures
        nat_widths(widths@) == widths_of(texts(header@), grid(rows@)),
        widths@.len() == header@.len(),
{
    let mut widths: Vec<usize> = Vec::new();
    let mut j: usize = 0;
    while j < header.len()
        invariant
            j <= header.len(),
            forall|i: int| 0 <= i < rows@.len() ==> (#[trigger] rows@[i])@.len() == header@.len(),
            widths@.len() == j,
            forall|k: int|
                0 <= k < j ==> #[trigger] widths@[k] == width_of(
                    texts(header@)[k],
                    column(grid(rows@), k),
                ),
        decreases header.len() - j,
    {
        let mut cells: Vec<&str> = Vec::new();
        let mut i: usize = 0;
        while i < rows.len()
            invariant
                i <= rows.len(),
                j < header@.len(),
                forall|i: int|
                    0 <= i < rows@.len() ==> (#[trigger] rows@[i])@.len() == header@.len(),
                cells@.len() == i,
                forall|k: int| 0 <= k < i ==> (#[trigger] cells@[k])@ == rows@[k]@[j as int]@,
            decreases rows.len() - i,
        {
            let row = &rows[i];
            assert(rows@[i as int]@.len() == header@.len());
            cells.push(row[j].as_str());
            i += 1;
        }
        assert(str_texts(cells@) =~= column(grid(rows@), j as int));
        widths.push(column_width(header[j].as_str(), cells.as_slice()));
        j += 1;
    }
    assert(nat_widths(widths@) =~= widths_of(texts(header@), grid(rows@)));
    widths
}

/// The first `n` rows of a table, each a line after `prefix`.
pub open spec fn lines_text(
    prefix: Seq<char>,
    rows: Seq<Seq<Seq<char>>>,
    widths: Seq<nat>,
    n: nat,
) -> Seq<char>
    decreases n,
{
    if n == 0 {
        seq![]
    } else {
        lines_text(prefix, rows, widths, (n - 1) as nat) + row_line(prefix, rows[n - 1], widths)
    }
}

/// Append the rows of a table, each a line after `prefix`.
pub fn push_rows(out: &mut String, prefix: &str, rows: &Vec<Vec<String>>, widths: &Vec<usize>)
    requires
        forall|i: int| 0 <= i < rows@.len() ==> (#[trigger] rows@[i])@.len() == widths@.len(),
    ensures
        final(out)@ == old(out)@ + lines_text(
            prefix@,
            grid(rows@),
            nat_widths(widths@),
            rows@.len(),
        ),
{
    let ghost g = grid(rows@);
    let ghost w = nat_widths(widths@);
    let mut i: usize = 0;
    assert(out@ =~= old(out)@ + lines_text(prefix@, g, w, 0));
    while i < rows.len()
        invariant
            i <= rows.len(),
            g == grid(rows@),
            w == nat_widths(widths@),
            forall|i: int| 0 <= i < rows@.len() ==> (#[trigger] rows@[i])@.len() == widths@.len(),
            out@ == old(out)@ + lines_text(prefix@, g, w, i as nat),
        decreases rows.len() - i,
    {
        assert(rows@[i as int]@.len() == widths@.len());
        push_row(out, prefix, &rows[i], widths);
        assert(g[i as int] == texts(rows@[i as int]@));
        i += 1;
        assert(out@ =~= old(out)@ + lines_text(prefix@, g, w, i as nat));
    }
}

/// A padded text starts with the text, is as wide as asked for where the text is not wider,
/// and is filled up with spaces.
pub proof fn law_padded(s: Seq<char>, w: nat)
    ensures
        padded(s, w).take(s.len() as int) == s,
        s.len() <= w ==> padded(s, w).len() == w,
        s.len() >= w ==> padded(s, w) == s,
        forall|k: int| s.len() <= k < padded(s, w).len() ==> padded(s, w)[k] == ' ',
{
    assert(padded(s, w).take(s.len() as int) =~= s);
}

/// In a row the cells stand one after another, each padded to its column, two spaces between
/// them, behind the prefix.
pub proof fn law_row(
    prefix: Seq<char>,
    cells: Seq<Seq<char>>,
    cell: Seq<char>,
    widths: Seq<nat>,
    w: nat,
)
    requires
        cells.len() == widths.len(),
    ensures
        cells.len() == 0 ==> row_line(prefix, cells.push(cell), widths.push(w)) == (prefix
            + padded(cell, w)).push('\n'),
        cells.len() > 0 ==> row_line(prefix, cells.push(cell), widths.push(w)) == (row_line(
            prefix,
            cells,
            widths,
        ).drop_last() + seq![' ', ' '] + padded(cell, w)).push('\n'),
{
    let n = cells.len();
    reveal_strlit("  ");
    assert("  "@ =~= seq![' ', ' ']);
    lemma_same_cells(cells, cells.push(cell), widths, widths.push(w), n);
    if n == 0 {
        assert(row_line(prefix, cells.push(cell), widths.push(w)) =~= (prefix + padded(cell, w)).push(
            '\n',
        ));
    } else {
        assert(row_line(prefix, cells, widths).drop_last() =~= prefix + cells_text(
            cells,
            widths,
            n,
        ));
        assert(row_line(prefix, cells.push(cell), widths.push(w)) =~= (prefix + cells_text(
            cells,
            widths,
            n,
        ) + seq![' ', ' '] + padded(cell, w)).push('\n'));
    }
}

proof fn lemma_same_cells(
    a: Seq<Seq<char>>,
    b: Seq<Seq<char>>,
    v: Seq<nat>,
    w: Seq<nat>,
    n: nat,
)
    requires
        n <= a.len() <= b.len(),
        n <= v.len() <= w.len(),
        forall|k: int| 0 <= k < n ==> a[k] == b[k],
        forall|k: int| 0 <= k < n ==> v[k] == w[k],
    ensures
        cells_text(a, v, n) == cells_text(b, w, n),
    decreases n,
{
    if n > 1 {
        lemma_same_cells(a, b, v, w, (n - 1) as nat);
    }
}

} // verus!
