//! Tabular renderer: turns a query result (column metadata plus optional data
//! rows) into a deterministic fixed-width text table.
//!
//! A result with no data rows is rendered as the metadata view: one labelled
//! row per metadatum (type, primary-key flag, allow-null flag, description)
//! under a header of column names. A result with data rows is rendered as the
//! data view: the header band of column names alone. Every displayed cell is
//! at most 30 characters wide; text longer than 27 characters is cut to its
//! first 27 characters and marked with an ellipsis.

use vstd::prelude::*;
use vstd::string::*;

verus! {

/// Column type tag as the backend reports it.
#[derive(Clone, Copy, PartialEq, Eq, Structural, Debug)]
pub enum SqlType {
    Int,
    Bool,
    Char,
    VarChar,
}

/// One column descriptor of a query result.
pub struct Column {
    pub name: String,
    pub sql_type: SqlType,
    pub is_primary_key: bool,
    pub allow_null: bool,
    pub description: String,
}

/// A query result: ordered column descriptors and ordered data rows.
/// `data` empty selects the metadata view.
pub struct RowSet {
    pub columns: Vec<Column>,
    pub data: Vec<Vec<String>>,
}

/// Mathematical model of a column: its strings as character sequences.
pub ghost struct ColModel {
    pub name: Seq<char>,
    pub sql_type: SqlType,
    pub is_primary_key: bool,
    pub allow_null: bool,
    pub description: Seq<char>,
}

pub open spec fn col_model(c: Column) -> ColModel {
    ColModel {
        name: c.name@,
        sql_type: c.sql_type,
        is_primary_key: c.is_primary_key,
        allow_null: c.allow_null,
        description: c.description@,
    }
}

pub open spec fn cols_model(cs: Seq<Column>) -> Seq<ColModel> {
    cs.map_values(|c: Column| col_model(c))
}

/// Display width is capped visually at 30 characters.
pub open spec fn cap30(w: int) -> int {
    if w < 30 {
        w
    } else {
        30
    }
}

/// Data-view width of a column: at least 12, else the name's length.
pub open spec fn data_width(c: ColModel) -> int {
    if c.name.len() < 12 {
        12
    } else {
        c.name.len() as int
    }
}

/// Metadata-view width of a column: at least 12, else the longer of the
/// name and the description.
pub open spec fn meta_width(c: ColModel) -> int {
    let m = if c.name.len() < c.description.len() {
        c.description.len() as int
    } else {
        c.name.len() as int
    };
    if m < 12 {
        12
    } else {
        m
    }
}

pub open spec fn dashes(n: int) -> Seq<char>
    decreases n,
{
    if n <= 0 {
        Seq::empty()
    } else {
        dashes(n - 1) + "-"@
    }
}

pub open spec fn spaces(n: int) -> Seq<char>
    decreases n,
{
    if n <= 0 {
        Seq::empty()
    } else {
        spaces(n - 1) + " "@
    }
}

/// Text centered in a field of `w` characters; the extra padding character of
/// an odd difference goes to the right. Text at least as long as the field is
/// kept whole.
pub open spec fn centered(t: Seq<char>, w: int) -> Seq<char> {
    if t.len() >= w {
        t
    } else {
        spaces((w - t.len()) / 2) + t + spaces(w - t.len() - (w - t.len()) / 2)
    }
}

/// An ordinary cell: delimiter, text centered in the capped width, one space.
pub open spec fn value_cell(t: Seq<char>, w: int) -> Seq<char> {
    "| "@ + centered(t, cap30(w)) + " "@
}

/// A cell for free text: text longer than 27 characters is cut to its first
/// 27 and suffixed with the ellipsis marker, else it is an ordinary cell.
pub open spec fn text_cell(t: Seq<char>, w: int) -> Seq<char> {
    if t.len() > 27 {
        "| "@ + t.take(27) + "... "@
    } else {
        value_cell(t, w)
    }
}

/// One column's stretch of a separator line.
pub open spec fn sep_cell(w: int) -> Seq<char> {
    "+--"@ + dashes(cap30(w))
}

pub open spec fn sep_cells(ws: Seq<int>) -> Seq<char>
    decreases ws.len(),
{
    if ws.len() == 0 {
        Seq::empty()
    } else {
        sep_cells(ws.drop_last()) + sep_cell(ws.last())
    }
}

/// A full separator line over the given column widths.
pub open spec fn sep_line(ws: Seq<int>) -> Seq<char> {
    sep_cells(ws) + "+\n"@
}

/// The cells of one table row, one per column, rendered by `f`.
pub open spec fn row_cells(cs: Seq<ColModel>, f: spec_fn(ColModel) -> Seq<char>) -> Seq<char>
    decreases cs.len(),
{
    if cs.len() == 0 {
        Seq::empty()
    } else {
        row_cells(cs.drop_last(), f) + f(cs.last())
    }
}

pub open spec fn type_text(t: SqlType) -> Seq<char> {
    match t {
        SqlType::Int => "Int"@,
        SqlType::Bool => "Bool"@,
        SqlType::Char => "Char"@,
        SqlType::VarChar => "VarChar"@,
    }
}

pub open spec fn bool_text(b: bool) -> Seq<char> {
    if b {
        "true"@
    } else {
        "false"@
    }
}

pub open spec fn data_name_cell(c: ColModel) -> Seq<char> {
    text_cell(c.name, data_width(c))
}

pub open spec fn meta_name_cell(c: ColModel) -> Seq<char> {
    text_cell(c.name, meta_width(c))
}

pub open spec fn meta_type_cell(c: ColModel) -> Seq<char> {
    value_cell(type_text(c.sql_type), meta_width(c))
}

pub open spec fn meta_primary_cell(c: ColModel) -> Seq<char> {
    value_cell(bool_text(c.is_primary_key), meta_width(c))
}

pub open spec fn meta_null_cell(c: ColModel) -> Seq<char> {
    value_cell(bool_text(c.allow_null), meta_width(c))
}

pub open spec fn meta_desc_cell(c: ColModel) -> Seq<char> {
    text_cell(c.description, meta_width(c))
}

pub open spec fn data_widths(cs: Seq<ColModel>) -> Seq<int> {
    cs.map_values(|c: ColModel| data_width(c))
}

pub open spec fn meta_widths(cs: Seq<ColModel>) -> Seq<int> {
    cs.map_values(|c: ColModel| meta_width(c))
}

pub open spec fn widths_int(ws: Seq<usize>) -> Seq<int> {
    ws.map_values(|w: usize| w as int)
}

/// The data view: a header band of column names bracketed by separators.
pub open spec fn spec_display_data(cs: Seq<ColModel>) -> Seq<char> {
    sep_line(data_widths(cs)) + row_cells(cs, |c: ColModel| data_name_cell(c)) + "|\n"@ + sep_line(
        data_widths(cs),
    )
}

/// The metadata view: a header of column names and one labelled row per
/// metadatum, bracketed by separators that carry a label-wide lead cell.
pub open spec fn spec_display_meta(cs: Seq<ColModel>) -> Seq<char> {
    "\n"@ + "+-------------"@ + sep_line(meta_widths(cs)) + "| Column name "@ + row_cells(
        cs,
        |c: ColModel| meta_name_cell(c),
    ) + "|\n"@ + "+-------------"@ + sep_line(meta_widths(cs)) + "| Type        "@ + row_cells(
        cs,
        |c: ColModel| meta_type_cell(c),
    ) + "|\n"@ + "| Primary     "@ + row_cells(cs, |c: ColModel| meta_primary_cell(c)) + "|\n"@
        + "| Allow NULL  "@ + row_cells(cs, |c: ColModel| meta_null_cell(c)) + "|\n"@
        + "| Description "@ + row_cells(cs, |c: ColModel| meta_desc_cell(c)) + "|\n"@
        + "+-------------"@ + sep_line(meta_widths(cs))
}

/// What `display` returns: the metadata view for an empty data sequence,
/// the data view otherwise.
pub open spec fn spec_display(cs: Seq<ColModel>, has_data: bool) -> Seq<char> {
    if has_data {
        spec_display_data(cs)
    } else {
        spec_display_meta(cs)
    }
}

/// Rendering is deterministic: row sets with the same column model and the
/// same emptiness of their data render to identical text.
pub proof fn lemma_display_deterministic(a: &RowSet, b: &RowSet)
    requires
        cols_model(a.columns@) == cols_model(b.columns@),
        (a.data@.len() > 0) == (b.data@.len() > 0),
    ensures
        spec_display(cols_model(a.columns@), a.data@.len() > 0) == spec_display(
            cols_model(b.columns@),
            b.data@.len() > 0,
        ),
{
}

pub proof fn lemma_spaces_len(n: int)
    ensures
        spaces(n).len() == if n <= 0 {
            0int
        } else {
            n
        },
    decreases n,
{
    reveal_strlit(" ");
    if n > 0 {
        lemma_spaces_len(n - 1);
    }
}

pub proof fn lemma_dashes_len(n: int)
    ensures
        dashes(n).len() == if n <= 0 {
            0int
        } else {
            n
        },
    decreases n,
{
    reveal_strlit("-");
    if n > 0 {
        lemma_dashes_len(n - 1);
    }
}

/// Centering pads text to the field width and never cuts it.
pub proof fn lemma_centered_len(t: Seq<char>, w: int)
    ensures
        centered(t, w).len() == if t.len() >= w {
            t.len() as int
        } else {
            w
        },
{
    if t.len() < w {
        let pad = w - t.len();
        lemma_spaces_len(pad / 2);
        lemma_spaces_len(pad - pad / 2);
    }
}

/// Cells of one column line up: an ordinary cell whose text fits the capped
/// width, and the matching stretch of a separator line, are both exactly
/// `cap30(w) + 3` characters wide — the capped text field, the `| ` bracket
/// and one closing space.
pub proof fn lemma_cell_alignment(t: Seq<char>, w: int)
    requires
        t.len() <= cap30(w),
    ensures
        value_cell(t, w).len() == cap30(w) + 3,
        sep_cell(w).len() == cap30(w) + 3,
{
    reveal_strlit("| ");
    reveal_strlit(" ");
    reveal_strlit("+--");
    lemma_centered_len(t, cap30(w));
    lemma_dashes_len(cap30(w));
}

proof fn lemma_sep_cells_step(ws: Seq<int>, i: int)
    requires
        0 <= i < ws.len(),
    ensures
        sep_cells(ws.take(i + 1)) == sep_cells(ws.take(i)) + sep_cell(ws[i]),
{
    assert(ws.take(i + 1).drop_last() =~= ws.take(i));
    assert(ws.take(i + 1).last() == ws[i]);
}

proof fn lemma_row_cells_step(cs: Seq<ColModel>, f: spec_fn(ColModel) -> Seq<char>, i: int)
    requires
        0 <= i < cs.len(),
    ensures
        row_cells(cs.take(i + 1), f) == row_cells(cs.take(i), f) + f(cs[i]),
{
    assert(cs.take(i + 1).drop_last() =~= cs.take(i));
    assert(cs.take(i + 1).last() == cs[i]);
}

fn push_dashes(out: &mut String, n: usize)
    ensures
        final(out)@ == old(out)@ + dashes(n as int),
{
    let ghost out0 = out@;
    let mut j: usize = 0;
    proof {
        assert(out@ =~= out0 + dashes(0));
    }
    while j < n
        invariant
            j <= n,
            out@ == out0 + dashes(j as int),
        decreases n - j,
    {
        out.append("-");
        proof {
            assert(out@ =~= out0 + dashes(j as int + 1));
        }
        j = j + 1;
    }
}

fn push_spaces(out: &mut String, n: usize)
    ensures
        final(out)@ == old(out)@ + spaces(n as int),
{
    let ghost out0 = out@;
    let mut j: usize = 0;
    proof {
        assert(out@ =~= out0 + spaces(0));
    }
    while j < n
        invariant
            j <= n,
            out@ == out0 + spaces(j as int),
        decreases n - j,
    {
        out.append(" ");
        proof {
            assert(out@ =~= out0 + spaces(j as int + 1));
        }
        j = j + 1;
    }
}

fn push_centered(out: &mut String, t: &str, w: usize)
    ensures
        final(out)@ == old(out)@ + centered(t@, w as int),
{
    let ghost out0 = out@;
    let len = t.unicode_len();
    if len >= w {
        out.append(t);
    } else {
        let pad = w - len;
        push_spaces(out, pad / 2);
        out.append(t);
        push_spaces(out, pad - pad / 2);
        proof {
            assert(out@ =~= out0 + centered(t@, w as int));
        }
    }
}

fn push_value_cell(out: &mut String, t: &str, w: usize)
    ensures
        final(out)@ == old(out)@ + value_cell(t@, w as int),
{
    let ghost out0 = out@;
    out.append("| ");
    let cw = if w < 30 {
        w
    } else {
        30
    };
    push_centered(out, t, cw);
    out.append(" ");
    proof {
        assert(cw as int == cap30(w as int));
        assert(out@ =~= out0 + value_cell(t@, w as int));
    }
}

fn push_text_cell(out: &mut String, t: &str, w: usize)
    ensures
        final(out)@ == old(out)@ + text_cell(t@, w as int),
{
    let ghost out0 = out@;
    let len = t.unicode_len();
    if len > 27 {
        out.append("| ");
        let head = t.substring_char(0, 27);
        out.append(head);
        out.append("... ");
        proof {
            assert(t@.subrange(0, 27) =~= t@.take(27));
            assert(out@ =~= out0 + text_cell(t@, w as int));
        }
    } else {
        push_value_cell(out, t, w);
    }
}

/// The text name of a column type, as the metadata view shows it.
pub fn type_label(t: &SqlType) -> (r: &'static str)
    ensures
        r@ == type_text(*t),
{
    match t {
        SqlType::Int => "Int",
        SqlType::Bool => "Bool",
        SqlType::Char => "Char",
        SqlType::VarChar => "VarChar",
    }
}

fn bool_str(b: bool) -> (r: &'static str)
    ensures
        r@ == bool_text(b),
{
    if b {
        "true"
    } else {
        "false"
    }
}

fn column_data_width(c: &Column) -> (w: usize)
    ensures
        w as int == data_width(col_model(*c)),
{
    let l = c.name.as_str().unicode_len();
    if l < 12 {
        12
    } else {
        l
    }
}

fn column_meta_width(c: &Column) -> (w: usize)
    ensures
        w as int == meta_width(col_model(*c)),
{
    let ln = c.name.as_str().unicode_len();
    let ld = c.description.as_str().unicode_len();
    let m = if ln < ld {
        ld
    } else {
        ln
    };
    if m < 12 {
        12
    } else {
        m
    }
}

fn data_widths_vec(cols: &Vec<Column>) -> (r: Vec<usize>)
    ensures
        widths_int(r@) == data_widths(cols_model(cols@)),
{
    let mut r: Vec<usize> = Vec::new();
    let mut i: usize = 0;
    while i < cols.len()
        invariant
            i <= cols@.len(),
            r@.len() == i,
            forall|j: int| 0 <= j < i ==> r@[j] as int == data_width(col_model(cols@[j])),
        decreases cols@.len() - i,
    {
        let w = column_data_width(&cols[i]);
        r.push(w);
        i = i + 1;
    }
    proof {
        assert(widths_int(r@) =~= data_widths(cols_model(cols@)));
    }
    r
}

fn meta_widths_vec(cols: &Vec<Column>) -> (r: Vec<usize>)
    ensures
        widths_int(r@) == meta_widths(cols_model(cols@)),
{
    let mut r: Vec<usize> = Vec::new();
    let mut i: usize = 0;
    while i < cols.len()
        invariant
            i <= cols@.len(),
            r@.len() == i,
            forall|j: int| 0 <= j < i ==> r@[j] as int == meta_width(col_model(cols@[j])),
        decreases cols@.len() - i,
    {
        let w = column_meta_width(&cols[i]);
        r.push(w);
        i = i + 1;
    }
    proof {
        assert(widths_int(r@) =~= meta_widths(cols_model(cols@)));
    }
    r
}

/// One separator line: per width a `+--` bracket and the capped run of
/// dashes, closed with `+` and a newline.
pub fn display_seperator(cols: &Vec<usize>) -> (r: String)
    ensures
        r@ == sep_line(widths_int(cols@)),
{
    let ghost ws = widths_int(cols@);
    let mut res = String::new();
    let mut i: usize = 0;
    proof {
        assert(res@ =~= sep_cells(ws.take(0)));
    }
    while i < cols.len()
        invariant
            i <= cols@.len(),
            ws == widths_int(cols@),
            ws.len() == cols@.len(),
            res@ == sep_cells(ws.take(i as int)),
        decreases cols@.len() - i,
    {
        res.append("+--");
        let w = cols[i];
        let cw = if w < 30 {
            w
        } else {
            30
        };
        push_dashes(&mut res, cw);
        proof {
            lemma_sep_cells_step(ws, i as int);
            assert(cw as int == cap30(ws[i as int]));
            assert(res@ =~= sep_cells(ws.take(i as int + 1)));
        }
        i = i + 1;
    }
    proof {
        assert(ws.take(ws.len() as int) =~= ws);
    }
    res.append("+\n");
    res
}

fn push_data_name_cells(out: &mut String, cols: &Vec<Column>)
    ensures
        final(out)@ == old(out)@ + row_cells(
            cols_model(cols@),
            |c: ColModel| data_name_cell(c),
        ),
{
    let ghost out0 = out@;
    let ghost f = |c: ColModel| data_name_cell(c);
    let ghost m = cols_model(cols@);
    let mut i: usize = 0;
    proof {
        assert(out@ =~= out0 + row_cells(m.take(0), f));
    }
    while i < cols.len()
        invariant
            i <= cols@.len(),
            m == cols_model(cols@),
            m.len() == cols@.len(),
            f == (|c: ColModel| data_name_cell(c)),
            out@ == out0 + row_cells(m.take(i as int), f),
        decreases cols@.len() - i,
    {
        let w = column_data_width(&cols[i]);
        push_text_cell(out, cols[i].name.as_str(), w);
        proof {
            lemma_row_cells_step(m, f, i as int);
            assert(m[i as int] == col_model(cols@[i as int]));
            assert(out@ =~= out0 + row_cells(m.take(i as int + 1), f));
        }
        i = i + 1;
    }
    proof {
        assert(m.take(m.len() as int) =~= m);
    }
}

fn push_meta_name_cells(out: &mut String, cols: &Vec<Column>)
    ensures
        final(out)@ == old(out)@ + row_cells(
            cols_model(cols@),
            |c: ColModel| meta_name_cell(c),
        ),
{
    let ghost out0 = out@;
    let ghost f = |c: ColModel| meta_name_cell(c);
    let ghost m = cols_model(cols@);
    let mut i: usize = 0;
    proof {
        assert(out@ =~= out0 + row_cells(m.take(0), f));
    }
    while i < cols.len()
        invariant
            i <= cols@.len(),
            m == cols_model(cols@),
            m.len() == cols@.len(),
            f == (|c: ColModel| meta_name_cell(c)),
            out@ == out0 + row_cells(m.take(i as int), f),
        decreases cols@.len() - i,
    {
        let w = column_meta_width(&cols[i]);
        push_text_cell(out, cols[i].name.as_str(), w);
        proof {
            lemma_row_cells_step(m, f, i as int);
            assert(m[i as int] == col_model(cols@[i as int]));
            assert(out@ =~= out0 + row_cells(m.take(i as int + 1), f));
        }
        i = i + 1;
    }
    proof {
        assert(m.take(m.len() as int) =~= m);
    }
}

fn push_meta_type_cells(out: &mut String, cols: &Vec<Column>)
    ensures
        final(out)@ == old(out)@ + row_cells(
            cols_model(cols@),
            |c: ColModel| meta_type_cell(c),
        ),
{
    let ghost out0 = out@;
    let ghost f = |c: ColModel| meta_type_cell(c);
    let ghost m = cols_model(cols@);
    let mut i: usize = 0;
    proof {
        assert(out@ =~= out0 + row_cells(m.take(0), f));
    }
    while i < cols.len()
        invariant
            i <= cols@.len(),
            m == cols_model(cols@),
            m.len() == cols@.len(),
            f == (|c: ColModel| meta_type_cell(c)),
            out@ == out0 + row_cells(m.take(i as int), f),
        decreases cols@.len() - i,
    {
        let w = column_meta_width(&cols[i]);
        let name = type_label(&cols[i].sql_type);
        push_value_cell(out, name, w);
        proof {
            lemma_row_cells_step(m, f, i as int);
            assert(m[i as int] == col_model(cols@[i as int]));
            assert(out@ =~= out0 + row_cells(m.take(i as int + 1), f));
        }
        i = i + 1;
    }
    proof {
        assert(m.take(m.len() as int) =~= m);
    }
}

fn push_meta_primary_cells(out: &mut String, cols: &Vec<Column>)
    ensures
        final(out)@ == old(out)@ + row_cells(
            cols_model(cols@),
            |c: ColModel| meta_primary_cell(c),
        ),
{
    let ghost out0 = out@;
    let ghost f = |c: ColModel| meta_primary_cell(c);
    let ghost m = cols_model(cols@);
    let mut i: usize = 0;
    proof {
        assert(out@ =~= out0 + row_cells(m.take(0), f));
    }
    while i < cols.len()
        invariant
            i <= cols@.len(),
            m == cols_model(cols@),
            m.len() == cols@.len(),
            f == (|c: ColModel| meta_primary_cell(c)),
            out@ == out0 + row_cells(m.take(i as int), f),
        decreases cols@.len() - i,
    {
        let w = column_meta_width(&cols[i]);
        let text = bool_str(cols[i].is_primary_key);
        push_value_cell(out, text, w);
        proof {
            lemma_row_cells_step(m, f, i as int);
            assert(m[i as int] == col_model(cols@[i as int]));
            assert(out@ =~= out0 + row_cells(m.take(i as int + 1), f));
        }
        i = i + 1;
    }
    proof {
        assert(m.take(m.len() as int) =~= m);
    }
}

fn push_meta_null_cells(out: &mut String, cols: &Vec<Column>)
    ensures
        final(out)@ == old(out)@ + row_cells(
            cols_model(cols@),
            |c: ColModel| meta_null_cell(c),
        ),
{
    let ghost out0 = out@;
    let ghost f = |c: ColModel| meta_null_cell(c);
    let ghost m = cols_model(cols@);
    let mut i: usize = 0;
    proof {
        assert(out@ =~= out0 + row_cells(m.take(0), f));
    }
    while i < cols.len()
        invariant
            i <= cols@.len(),
            m == cols_model(cols@),
            m.len() == cols@.len(),
            f == (|c: ColModel| meta_null_cell(c)),
            out@ == out0 + row_cells(m.take(i as int), f),
        decreases cols@.len() - i,
    {
        let w = column_meta_width(&cols[i]);
        let text = bool_str(cols[i].allow_null);
        push_value_cell(out, text, w);
        proof {
            lemma_row_cells_step(m, f, i as int);
            assert(m[i as int] == col_model(cols@[i as int]));
            assert(out@ =~= out0 + row_cells(m.take(i as int + 1), f));
        }
        i = i + 1;
    }
    proof {
        assert(m.take(m.len() as int) =~= m);
    }
}

fn push_meta_desc_cells(out: &mut String, cols: &Vec<Column>)
    ensures
        final(out)@ == old(out)@ + row_cells(
            cols_model(cols@),
            |c: ColModel| meta_desc_cell(c),
        ),
{
    let ghost out0 = out@;
    let ghost f = |c: ColModel| meta_desc_cell(c);
    let ghost m = cols_model(cols@);
    let mut i: usize = 0;
    proof {
        assert(out@ =~= out0 + row_cells(m.take(0), f));
    }
    while i < cols.len()
        invariant
            i <= cols@.len(),
            m == cols_model(cols@),
            m.len() == cols@.len(),
            f == (|c: ColModel| meta_desc_cell(c)),
            out@ == out0 + row_cells(m.take(i as int), f),
        decreases cols@.len() - i,
    {
        let w = column_meta_width(&cols[i]);
        push_text_cell(out, cols[i].description.as_str(), w);
        proof {
            lemma_row_cells_step(m, f, i as int);
            assert(m[i as int] == col_model(cols@[i as int]));
            assert(out@ =~= out0 + row_cells(m.take(i as int + 1), f));
        }
        i = i + 1;
    }
    proof {
        assert(m.take(m.len() as int) =~= m);
    }
}

/// The data view: the column-name header band bracketed by separators.
pub fn display_data(row: &RowSet) -> (r: String)
    ensures
        r@ == spec_display_data(cols_model(row.columns@)),
{
    let ghost m = cols_model(row.columns@);
    let mut result = String::new();
    let cols = data_widths_vec(&row.columns);
    let sep = display_seperator(&cols);
    result.append(sep.as_str());
    push_data_name_cells(&mut result, &row.columns);
    result.append("|\n");
    let sep2 = display_seperator(&cols);
    result.append(sep2.as_str());
    proof {
        assert(result@ =~= spec_display_data(m));
    }
    result
}

/// The metadata view: header of column names, then the Type, Primary,
/// Allow NULL and Description rows, bracketed by labelled separators.
pub fn display_meta(row: &RowSet) -> (r: String)
    ensures
        r@ == spec_display_meta(cols_model(row.columns@)),
{
    let ghost m = cols_model(row.columns@);
    let mut result = String::new();
    let cols = meta_widths_vec(&row.columns);

    result.append("\n");
    result.append("+-------------");
    let sep = display_seperator(&cols);
    result.append(sep.as_str());

    result.append("| Column name ");
    push_meta_name_cells(&mut result, &row.columns);
    result.append("|\n");

    result.append("+-------------");
    let sep2 = display_seperator(&cols);
    result.append(sep2.as_str());

    result.append("| Type        ");
    push_meta_type_cells(&mut result, &row.columns);
    result.append("|\n");

    result.append("| Primary     ");
    push_meta_primary_cells(&mut result, &row.columns);
    result.append("|\n");

    result.append("| Allow NULL  ");
    push_meta_null_cells(&mut result, &row.columns);
    result.append("|\n");

    result.append("| Description ");
    push_meta_desc_cells(&mut result, &row.columns);
    result.append("|\n");

    result.append("+-------------");
    let sep3 = display_seperator(&cols);
    result.append(sep3.as_str());

    proof {
        assert(result@ =~= spec_display_meta(m));
    }
    result
}

/// Renders a query result: the metadata view when it carries no data rows,
/// the data view otherwise. Deterministic: the text is a function of the
/// column model and the emptiness of the data alone.
pub fn display(rows: &RowSet) -> (r: String)
    ensures
        r@ == spec_display(cols_model(rows.columns@), rows.data@.len() > 0),
{
    if rows.data.is_empty() {
        display_meta(rows)
    } else {
        display_data(rows)
    }
}

} // verus!
