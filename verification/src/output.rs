//! Rendering command results: the output formats, and the text table drawn
//! from a list of records (the JSON objects a command returns), one column per
//! field name in order of first appearance.
use vstd::prelude::*;
use vstd::utf8::encode_utf8;
use crate::text::{owned, push_char, str_eq};

verus! {

/// How command results are written.
#[derive(Clone, Copy, Debug, PartialEq, Eq, Structural)]
pub enum OutputFormat {
    Table,
    Json,
    Csv,
}

impl Default for OutputFormat {
    fn default() -> (r: OutputFormat)
        ensures
            r == OutputFormat::Table,
    {
        OutputFormat::Table
    }
}

/// A field value as a table shows it.
#[derive(Clone, Debug)]
pub enum Cell {
    /// A text, shown as it is.
    Text(String),
    /// No value, shown as "-".
    Null,
    /// Any other value, shown as its JSON text.
    Other(String),
}

/// One result: its fields as (name, value) pairs, or none when the result is
/// not an object.
#[derive(Clone, Debug)]
pub struct Record {
    pub fields: Option<Vec<(String, Cell)>>,
}

/// The text a table shows for a value.
pub open spec fn cell_shown(c: Cell) -> Seq<char> {
    match c {
        Cell::Text(s) => s@,
        Cell::Null => "-"@,
        Cell::Other(j) => j@,
    }
}

/// The shown value of the first field named `key` from position `i` on.
pub open spec fn find_field(fs: Seq<(String, Cell)>, key: Seq<char>, i: int) -> Option<Seq<char>>
    decreases fs.len() - i,
{
    if i < 0 || i >= fs.len() {
        None
    } else if fs[i].0@ == key {
        Some(cell_shown(fs[i].1))
    } else {
        find_field(fs, key, i + 1)
    }
}

/// The cell of a record in the column `key`: the shown value of its field of
/// that name, empty when it has none or is not an object.
pub open spec fn cell_text(item: Record, key: Seq<char>) -> Seq<char> {
    match item.fields {
        Some(fs) => match find_field(fs@, key, 0) {
            Some(t) => t,
            None => Seq::empty(),
        },
        None => Seq::empty(),
    }
}

/// `hs` extended with the names among the first `n` of `ks` it lacks, in order.
pub open spec fn with_names(hs: Seq<Seq<char>>, ks: Seq<(String, Cell)>, n: int) -> Seq<Seq<char>>
    decreases n,
{
    if n <= 0 {
        hs
    } else {
        let p = with_names(hs, ks, n - 1);
        if p.contains(ks[n - 1].0@) {
            p
        } else {
            p.push(ks[n - 1].0@)
        }
    }
}

/// The field names of the first `n` records, each once, in order of first
/// appearance.
pub open spec fn headers_upto(items: Seq<Record>, n: int) -> Seq<Seq<char>>
    decreases n,
{
    if n <= 0 {
        Seq::empty()
    } else {
        let p = headers_upto(items, n - 1);
        match items[n - 1].fields {
            Some(fs) => with_names(p, fs@, fs@.len() as int),
            None => p,
        }
    }
}

/// The columns of a table: every field name, each once, in order of first
/// appearance.
pub open spec fn headers(items: Seq<Record>) -> Seq<Seq<char>> {
    headers_upto(items, items.len() as int)
}

/// The length of a text in bytes (UTF-8), as `str::len` gives it.
pub open spec fn byte_len(s: Seq<char>) -> usize {
    encode_utf8(s).len() as usize
}

/// The width of column `h` over the first `n` records: the longest in bytes of
/// its name and its cells.
pub open spec fn width_upto(items: Seq<Record>, h: Seq<char>, n: int) -> usize
    decreases n,
{
    if n <= 0 {
        byte_len(h)
    } else {
        let p = width_upto(items, h, n - 1);
        let l = byte_len(cell_text(items[n - 1], h));
        if l > p {
            l
        } else {
            p
        }
    }
}

/// The width of column `h`.
pub open spec fn width(items: Seq<Record>, h: Seq<char>) -> usize {
    width_upto(items, h, items.len() as int)
}

/// `n` copies of `c`.
pub open spec fn repeat(c: char, n: nat) -> Seq<char> {
    Seq::new(n, |i: int| c)
}

/// `s` padded with spaces to `w` characters.
pub open spec fn pad(s: Seq<char>, w: nat) -> Seq<char> {
    if s.len() < w {
        s + repeat(' ', (w - s.len()) as nat)
    } else {
        s
    }
}

/// The segments of a border for the first `n` widths.
pub open spec fn border_cells(ws: Seq<usize>, c: char, n: int) -> Seq<char>
    decreases n,
{
    if n <= 0 {
        Seq::empty()
    } else {
        border_cells(ws, c, n - 1) + repeat(c, (ws[n - 1] + 2) as nat) + "+"@
    }
}

/// A border line drawn with `c`, without its line break.
pub open spec fn border(ws: Seq<usize>, c: char) -> Seq<char> {
    "+"@ + border_cells(ws, c, ws.len() as int)
}

/// The cells of a row for the first `n` columns.
pub open spec fn row_cells(cells: Seq<Seq<char>>, ws: Seq<usize>, n: int) -> Seq<char>
    decreases n,
{
    if n <= 0 {
        Seq::empty()
    } else {
        row_cells(cells, ws, n - 1) + " "@ + pad(cells[n - 1], ws[n - 1] as nat) + " |"@
    }
}

/// A row line, without its line break.
pub open spec fn row_line(cells: Seq<Seq<char>>, ws: Seq<usize>) -> Seq<char> {
    "|"@ + row_cells(cells, ws, cells.len() as int)
}

/// The cells of a record, column by column.
pub open spec fn cells_of(item: Record, hs: Seq<Seq<char>>) -> Seq<Seq<char>> {
    Seq::new(hs.len(), |i: int| cell_text(item, hs[i]))
}

/// The data lines of the first `n` records.
pub open spec fn data_rows(items: Seq<Record>, hs: Seq<Seq<char>>, ws: Seq<usize>, n: int) -> Seq<char>
    decreases n,
{
    if n <= 0 {
        Seq::empty()
    } else {
        data_rows(items, hs, ws, n - 1) + row_line(cells_of(items[n - 1], hs), ws) + "\n"@
    }
}

/// The table of a list of records: "No results." when there are none, "No
/// columns." when none has a field; otherwise a border, the header row, a
/// double border, one row per record and a closing border, each column as wide
/// as its widest entry.
pub open spec fn table_text(items: Seq<Record>) -> Seq<char> {
    let hs = headers(items);
    let ws = widths_of(items, hs);
    if items.len() == 0 {
        "No results."@
    } else if hs.len() == 0 {
        "No columns."@
    } else {
        border(ws, '-') + "\n"@ + row_line(hs, ws) + "\n"@ + border(ws, '=') + "\n"@ + data_rows(
            items,
            hs,
            ws,
            items.len() as int,
        ) + border(ws, '-') + "\n"@
    }
}

/// The widths of the columns `hs`.
pub open spec fn widths_of(items: Seq<Record>, hs: Seq<Seq<char>>) -> Seq<usize> {
    Seq::new(hs.len(), |i: int| width(items, hs[i]))
}

/// The texts of a vector of strings.
pub open spec fn texts(v: Seq<String>) -> Seq<Seq<char>> {
    Seq::new(v.len(), |i: int| v[i]@)
}

/// The shown value of a field.
fn shown(c: &Cell) -> (r: String)
    ensures
        r@ == cell_shown(*c),
{
    match c {
        Cell::Text(s) => s.clone(),
        Cell::Null => owned("-"),
        Cell::Other(j) => j.clone(),
    }
}

/// The cell of a record in the column `key`.
pub fn cell_value(item: &Record, key: &str) -> (r: String)
    ensures
        r@ == cell_text(*item, key@),
{
    match &item.fields {
        Some(fs) => {
            let mut i: usize = 0;
            while i < fs.len()
                invariant
                    item.fields == Some(*fs),
                    i <= fs@.len(),
                    find_field(fs@, key@, 0) == find_field(fs@, key@, i as int),
                decreases fs.len() - i,
            {
                if str_eq(fs[i].0.as_str(), key) {
                    return shown(&fs[i].1);
                }
                i = i + 1;
            }
            String::new()
        },
        None => String::new(),
    }
}

/// Whether `hs` holds the name `k`.
fn holds_name(hs: &Vec<String>, k: &str) -> (r: bool)
    ensures
        r == texts(hs@).contains(k@),
{
    let mut i: usize = 0;
    while i < hs.len()
        invariant
            i <= hs@.len(),
            forall|j: int| 0 <= j < i ==> hs@[j]@ != k@,
        decreases hs.len() - i,
    {
        if str_eq(hs[i].as_str(), k) {
            proof {
                assert(texts(hs@)[i as int] == k@);
            }
            return true;
        }
        i = i + 1;
    }
    proof {
        if texts(hs@).contains(k@) {
            let j = choose|j: int| 0 <= j < texts(hs@).len() && texts(hs@)[j] == k@;
            assert(hs@[j]@ == k@);
        }
    }
    false
}

/// The columns of a table: every field name, each once, in order of first
/// appearance.
pub fn collect_headers(items: &Vec<Record>) -> (r: Vec<String>)
    ensures
        texts(r@) == headers(items@),
{
    let mut hs: Vec<String> = Vec::new();
    let mut n: usize = 0;
    proof {
        assert(texts(hs@) =~= Seq::<Seq<char>>::empty());
    }
    while n < items.len()
        invariant
            n <= items@.len(),
            texts(hs@) == headers_upto(items@, n as int),
        decreases items.len() - n,
    {
        match &items[n].fields {
            Some(fs) => {
                let ghost start = texts(hs@);
                let mut k: usize = 0;
                while k < fs.len()
                    invariant
                        k <= fs@.len(),
                        texts(hs@) == with_names(start, fs@, k as int),
                    decreases fs.len() - k,
                {
                    let name = fs[k].0.as_str();
                    if !holds_name(&hs, name) {
                        let ghost before = hs@;
                        hs.push(fs[k].0.clone());
                        proof {
                            assert(texts(hs@) =~= texts(before).push(fs@[k as int].0@));
                        }
                    }
                    k = k + 1;
                }
            },
            None => {},
        }
        n = n + 1;
    }
    hs
}

/// The width of each column.
fn column_widths(items: &Vec<Record>, hs: &Vec<String>) -> (r: Vec<usize>)
    ensures
        r@ == widths_of(items@, texts(hs@)),
{
    let mut ws: Vec<usize> = Vec::new();
    let mut c: usize = 0;
    while c < hs.len()
        invariant
            c <= hs@.len(),
            ws@.len() == c,
            forall|i: int| 0 <= i < c ==> #[trigger] ws@[i] == width(items@, texts(hs@)[i]),
        decreases hs.len() - c,
    {
        let h = hs[c].as_str();
        let mut w: usize = h.len();
        let mut n: usize = 0;
        while n < items.len()
            invariant
                n <= items@.len(),
                w == width_upto(items@, h@, n as int),
            decreases items.len() - n,
        {
            let l = cell_value(&items[n], h).as_str().len();
            if l > w {
                w = l;
            }
            n = n + 1;
        }
        ws.push(w);
        c = c + 1;
    }
    proof {
        assert(ws@ =~= widths_of(items@, texts(hs@)));
    }
    ws
}

/// Appends `n` copies of `c`.
fn push_repeat(out: &mut String, c: char, n: usize)
    ensures
        final(out)@ == old(out)@ + repeat(c, n as nat),
{
    let mut k: usize = 0;
    while k < n
        invariant
            k <= n,
            out@ == old(out)@ + repeat(c, k as nat),
        decreases n - k,
    {
        push_char(out, c);
        k = k + 1;
        proof {
            assert(out@ =~= old(out)@ + repeat(c, k as nat));
        }
    }
}

/// Appends a border line drawn with `c`, without its line break.
fn push_border(out: &mut String, ws: &Vec<usize>, c: char)
    ensures
        final(out)@ == old(out)@ + border(ws@, c),
{
    let ghost start = old(out)@;
    push_char(out, '+');
    proof {
        reveal_strlit("+");
        assert(out@ =~= start + "+"@ + border_cells(ws@, c, 0));
    }
    let mut i: usize = 0;
    while i < ws.len()
        invariant
            i <= ws@.len(),
            out@ == start + "+"@ + border_cells(ws@, c, i as int),
        decreases ws.len() - i,
    {
        let ghost before = out@;
        push_repeat(out, c, ws[i]);
        push_repeat(out, c, 2);
        push_char(out, '+');
        proof {
            reveal_strlit("+");
            assert(repeat(c, ws@[i as int] as nat) + repeat(c, 2) =~= repeat(c, (ws@[i as int] + 2) as nat));
            assert(out@ =~= start + "+"@ + border_cells(ws@, c, i + 1));
        }
        i = i + 1;
    }
    proof {
        assert(out@ =~= start + border(ws@, c));
    }
}

/// Appends a row line of `cells`, without its line break.
fn push_row(out: &mut String, cells: &Vec<String>, ws: &Vec<usize>)
    requires
        cells@.len() == ws@.len(),
    ensures
        final(out)@ == old(out)@ + row_line(texts(cells@), ws@),
{
    let ghost start = old(out)@;
    let ghost cs = texts(cells@);
    push_char(out, '|');
    proof {
        reveal_strlit("|");
        assert(out@ =~= start + "|"@ + row_cells(cs, ws@, 0));
    }
    let mut i: usize = 0;
    while i < cells.len()
        invariant
            cells@.len() == ws@.len(),
            cs == texts(cells@),
            i <= cells@.len(),
            out@ == start + "|"@ + row_cells(cs, ws@, i as int),
        decreases cells.len() - i,
    {
        let ghost before = out@;
        push_char(out, ' ');
        let cell = cells[i].as_str();
        out.append(cell);
        let n = cell.unicode_len();
        if n < ws[i] {
            push_repeat(out, ' ', ws[i] - n);
        }
        out.append(" |");
        proof {
            reveal_strlit(" ");
            reveal_strlit(" |");
            assert(cs[i as int] == cells@[i as int]@);
            assert(out@ =~= start + "|"@ + row_cells(cs, ws@, i + 1));
        }
        i = i + 1;
    }
    proof {
        assert(out@ =~= start + row_line(cs, ws@));
    }
}

/// The cells of a record, column by column.
fn record_cells(item: &Record, hs: &Vec<String>) -> (r: Vec<String>)
    ensures
        r@.len() == hs@.len(),
        texts(r@) == cells_of(*item, texts(hs@)),
{
    let mut cells: Vec<String> = Vec::new();
    let mut i: usize = 0;
    while i < hs.len()
        invariant
            i <= hs@.len(),
            cells@.len() == i,
            forall|k: int| 0 <= k < i ==> #[trigger] cells@[k]@ == cell_text(*item, hs@[k]@),
        decreases hs.len() - i,
    {
        cells.push(cell_value(item, hs[i].as_str()));
        i = i + 1;
    }
    proof {
        assert(texts(cells@) =~= cells_of(*item, texts(hs@)));
    }
    cells
}

/// The text table of a list of records (see `table_text`).
pub fn format_table(items: &Vec<Record>) -> (r: String)
    ensures
        r@ == table_text(items@),
{
    if items.len() == 0 {
        return owned("No results.");
    }
    let hs = collect_headers(items);
    if hs.len() == 0 {
        return owned("No columns.");
    }
    let ws = column_widths(items, &hs);
    let ghost h = texts(hs@);
    let mut out = String::new();
    push_border(&mut out, &ws, '-');
    out.append("\n");
    push_row(&mut out, &hs, &ws);
    out.append("\n");
    push_border(&mut out, &ws, '=');
    out.append("\n");
    let ghost head = out@;
    proof {
        assert(head =~= head + data_rows(items@, h, ws@, 0));
    }
    let mut n: usize = 0;
    while n < items.len()
        invariant
            n <= items@.len(),
            h == texts(hs@),
            ws@.len() == hs@.len(),
            out@ == head + data_rows(items@, h, ws@, n as int),
        decreases items.len() - n,
    {
        let cells = record_cells(&items[n], &hs);
        push_row(&mut out, &cells, &ws);
        out.append("\n");
        proof {
            assert(out@ =~= head + data_rows(items@, h, ws@, n + 1));
        }
        n = n + 1;
    }
    push_border(&mut out, &ws, '-');
    out.append("\n");
    proof {
        assert(out@ =~= table_text(items@));
    }
    out
}

/// The length of a table line over the first `n` columns, without its
/// leading character: each column takes its width plus three.
pub open spec fn line_sum(ws: Seq<usize>, n: int) -> int
    decreases n,
{
    if n <= 0 {
        0
    } else {
        line_sum(ws, n - 1) + ws[n - 1] + 3
    }
}

/// A text has at least as many UTF-8 bytes as characters.
proof fn lemma_bytes_at_least_chars(s: Seq<char>)
    ensures
        encode_utf8(s).len() >= s.len(),
    decreases s.len(),
{
    if s.len() > 0 {
        lemma_bytes_at_least_chars(s.drop_first());
        assert(vstd::utf8::encode_scalar(s[0] as u32).len() >= 1);
    }
}

/// A column is at least as wide as its name and each of its cells.
proof fn lemma_width_covers(items: Seq<Record>, h: Seq<char>, n: int)
    ensures
        byte_len(h) <= width_upto(items, h, n),
        forall|k: int| 0 <= k < n ==> byte_len(cell_text(items[k], h)) <= width_upto(items, h, n),
    decreases n,
{
    if n > 0 {
        lemma_width_covers(items, h, n - 1);
    }
}

/// A border line over the first `n` columns has their summed length.
proof fn lemma_border_length(ws: Seq<usize>, c: char, n: int)
    ensures
        border_cells(ws, c, n).len() == line_sum(ws, n),
    decreases n,
{
    if n > 0 {
        reveal_strlit("+");
        lemma_border_length(ws, c, n - 1);
    }
}

/// A row whose cells fit their columns has the summed length of the columns.
proof fn lemma_row_length(cells: Seq<Seq<char>>, ws: Seq<usize>, n: int)
    requires
        n <= cells.len(),
        n <= ws.len(),
        forall|i: int| 0 <= i < n ==> cells[i].len() <= ws[i],
    ensures
        row_cells(cells, ws, n).len() == line_sum(ws, n),
    decreases n,
{
    if n > 0 {
        reveal_strlit(" ");
        reveal_strlit(" |");
        lemma_row_length(cells, ws, n - 1);
        assert(pad(cells[n - 1], ws[n - 1] as nat).len() == ws[n - 1]);
    }
}

/// Whether every name and cell of the table has fewer UTF-8 bytes than the
/// largest `usize` (as every text held in memory has).
pub open spec fn lengths_fit(items: Seq<Record>) -> bool {
    let hs = headers(items);
    &&& forall|i: int| 0 <= i < hs.len() ==> encode_utf8(#[trigger] hs[i]).len() <= usize::MAX
    &&& forall|i: int, k: int|
        0 <= i < hs.len() && 0 <= k < items.len() ==> encode_utf8(#[trigger] cell_text(items[k], hs[i])).len()
            <= usize::MAX
}

/// Law (columns line up): in a table, the header row, every record's row and
/// both kinds of border have the same number of characters.
pub proof fn law_table_lines_align(items: Seq<Record>, k: int)
    requires
        headers(items).len() > 0,
        0 <= k < items.len(),
        lengths_fit(items),
    ensures
        row_line(headers(items), widths_of(items, headers(items))).len() == border(
            widths_of(items, headers(items)),
            '-',
        ).len(),
        row_line(cells_of(items[k], headers(items)), widths_of(items, headers(items))).len() == border(
            widths_of(items, headers(items)),
            '-',
        ).len(),
        border(widths_of(items, headers(items)), '=').len() == border(widths_of(items, headers(items)), '-').len(),
{
    let hs = headers(items);
    let ws = widths_of(items, hs);
    let n = hs.len() as int;
    reveal_strlit("+");
    reveal_strlit("|");
    lemma_border_length(ws, '-', n);
    lemma_border_length(ws, '=', n);
    assert forall|i: int| 0 <= i < n implies #[trigger] hs[i].len() <= ws[i] by {
        lemma_width_covers(items, hs[i], items.len() as int);
        lemma_bytes_at_least_chars(hs[i]);
    }
    lemma_row_length(hs, ws, n);
    let cs = cells_of(items[k], hs);
    assert forall|i: int| 0 <= i < n implies #[trigger] cs[i].len() <= ws[i] by {
        lemma_width_covers(items, hs[i], items.len() as int);
        lemma_bytes_at_least_chars(cell_text(items[k], hs[i]));
        assert(encode_utf8(cell_text(items[k], hs[i])).len() <= usize::MAX);
    }
    lemma_row_length(cs, ws, n);
}

/// The text the `csv` writer produces for these records, one line each, fields
/// quoted where they need it.
pub uninterp spec fn csv_document(rows: Seq<Seq<Seq<char>>>) -> Seq<char>;

/// The texts of each row.
pub open spec fn row_texts(rows: Seq<Vec<String>>) -> Seq<Seq<Seq<char>>> {
    Seq::new(rows.len(), |i: int| texts(rows[i]@))
}

/// Writes the rows with a default `csv::Writer` into memory and reads the
/// result back as UTF-8; the text is what `csv_document` names.  A default
/// writer is not flexible: it fails only when a record's length differs from
/// the first record's (writing into a `Vec` cannot fail, and UTF-8 fields give
/// UTF-8 text), so rows of equal length always give `Some`.
#[verifier::external_body]
fn write_csv(rows: &Vec<Vec<String>>) -> (r: Option<String>)
    ensures
        r matches Some(t) ==> t@ == csv_document(row_texts(rows@)),
        (forall|i: int| 0 <= i < rows@.len() ==> #[trigger] rows@[i]@.len() == rows@[0]@.len()) ==> r is Some,
{
    let mut wtr = csv::Writer::from_writer(Vec::new());
    for row in rows {
        if wtr.write_record(row).is_err() {
            return None;
        }
    }
    let bytes = wtr.into_inner().ok()?;
    String::from_utf8(bytes).ok()
}

/// The CSV text of a list of records: empty when there are none, else the
/// column names and then each record's cells, as the `csv` writer writes them.
/// Every row has one cell per column, so the writer always succeeds.
pub fn format_csv(items: &Vec<Record>) -> (r: Option<String>)
    ensures
        r is Some,
        items@.len() == 0 ==> (r matches Some(t) && t@.len() == 0),
        items@.len() > 0 ==> (r matches Some(t) && t@ == csv_document(
            seq![headers(items@)] + Seq::new(items@.len(), |i: int| cells_of(items@[i], headers(items@))),
        )),
{
    if items.len() == 0 {
        return Some(String::new());
    }
    let hs = collect_headers(items);
    let mut rows: Vec<Vec<String>> = Vec::new();
    let ghost h = texts(hs@);
    let mut header_row: Vec<String> = Vec::new();
    let mut k: usize = 0;
    while k < hs.len()
        invariant
            k <= hs@.len(),
            header_row@.len() == k,
            forall|j: int| 0 <= j < k ==> #[trigger] header_row@[j]@ == hs@[j]@,
        decreases hs.len() - k,
    {
        header_row.push(hs[k].clone());
        k = k + 1;
    }
    proof {
        assert(texts(header_row@) =~= h);
    }
    rows.push(header_row);
    let mut n: usize = 0;
    while n < items.len()
        invariant
            n <= items@.len(),
            h == texts(hs@),
            rows@.len() == n + 1,
            rows@[0]@.len() == hs@.len(),
            forall|j: int| 0 <= j < rows@.len() ==> #[trigger] rows@[j]@.len() == hs@.len(),
            texts(rows@[0]@) == h,
            forall|j: int| 0 <= j < n ==> texts(#[trigger] rows@[j + 1]@) == cells_of(items@[j], h),
        decreases items.len() - n,
    {
        let cells = record_cells(&items[n], &hs);
        rows.push(cells);
        n = n + 1;
    }
    proof {
        assert(row_texts(rows@) =~= seq![h] + Seq::new(items@.len(), |i: int| cells_of(items@[i], h))) by {
            assert forall|i: int| 0 <= i < rows@.len() implies #[trigger] row_texts(rows@)[i] == (seq![h]
                + Seq::new(items@.len(), |i: int| cells_of(items@[i], h)))[i] by {
                if i > 0 {
                    assert(texts(rows@[(i - 1) + 1]@) == cells_of(items@[i - 1], h));
                }
            }
        }
    }
    write_csv(&rows)
}

} // verus!
