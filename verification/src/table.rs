//! Tables for human reading.

use crate::text::{
    is_white, join, join_strings, law_end_is_trimmed, lemma_texts_push, texts, trim_end, trim_end_white,
    white,
};
use vstd::prelude::*;

verus! {

/// `c`, `n` times.
pub open spec fn repeated(c: char, n: nat) -> Seq<char> {
    Seq::new(n, |i: int| c)
}

/// `value` with spaces after it, up to `width` characters.
pub open spec fn padded(value: Seq<char>, width: nat) -> Seq<char> {
    if value.len() < width {
        value + repeated(' ', (width - value.len()) as nat)
    } else {
        value
    }
}

/// The texts of a grid of cells.
pub open spec fn grid(cells: Seq<Vec<String>>) -> Seq<Seq<Seq<char>>> {
    cells.map_values(|record: Vec<String>| texts(record@))
}

/// The number of characters of the longest text in column `i`, its heading
/// among them.
pub open spec fn width(columns: Seq<Seq<char>>, cells: Seq<Seq<Seq<char>>>, i: int) -> nat
    decreases cells.len(),
{
    if cells.len() == 0 {
        columns[i].len()
    } else {
        let others = width(columns, cells.drop_last(), i);
        let this = cells.last()[i].len();
        if this > others {
            this
        } else {
            others
        }
    }
}

/// The widths of all columns.
pub open spec fn widths(columns: Seq<Seq<char>>, cells: Seq<Seq<Seq<char>>>) -> Seq<nat> {
    Seq::new(columns.len(), |i: int| width(columns, cells, i))
}

/// One value for each width, padded to it.
pub open spec fn fitted(values: Seq<Seq<char>>, widths: Seq<nat>) -> Seq<Seq<char>> {
    Seq::new(widths.len(), |i: int| padded(values[i], widths[i]))
}

/// A row of a table: the padded values with two spaces between them, without
/// white space at the end.
pub open spec fn row_line(values: Seq<Seq<char>>, widths: Seq<nat>) -> Seq<char> {
    trim_end(join(fitted(values, widths), "  "@), white()) + "\n"@
}

/// The dashes under the headings.
pub open spec fn dashes(widths: Seq<nat>) -> Seq<Seq<char>> {
    widths.map_values(|w: nat| repeated('-', w))
}

/// The lines of the records, one after the other.
pub open spec fn record_lines(cells: Seq<Seq<Seq<char>>>, widths: Seq<nat>) -> Seq<char>
    decreases cells.len(),
{
    if cells.len() == 0 {
        Seq::empty()
    } else {
        record_lines(cells.drop_last(), widths) + row_line(cells.last(), widths)
    }
}

/// A table: the headings, dashes under them, then the records.
pub open spec fn table(columns: Seq<Seq<char>>, cells: Seq<Seq<Seq<char>>>) -> Seq<char> {
    let widths = widths(columns, cells);
    row_line(columns, widths) + row_line(dashes(widths), widths) + record_lines(cells, widths)
}

/// `c`, `n` times.
fn repeat_char(c: char, n: usize) -> (r: String)
    ensures
        r@ == repeated(c, n as nat),
{
    let mut r = String::new();
    let mut i: usize = 0;
    while i < n
        invariant
            i <= n,
            r@ == repeated(c, i as nat),
        decreases n - i,
    {
        r.push(c);
        assert(r@ =~= repeated(c, (i + 1) as nat));
        i += 1;
    }
    r
}

/// Pads `value` with spaces to `width` characters.
fn pad(value: &str, width: usize) -> (r: String)
    ensures
        r@ == padded(value@, width as nat),
{
    let mut r = value.to_string();
    let len = value.unicode_len();
    if len < width {
        r.append(repeat_char(' ', width - len).as_str());
    }
    r
}

/// The number of characters of the longest text in column `i`.
fn column_width(columns: &Vec<String>, cells: &Vec<Vec<String>>, i: usize) -> (r: usize)
    requires
        i < columns@.len(),
        forall|k: int| 0 <= k < cells@.len() ==> #[trigger] cells@[k]@.len() >= columns@.len(),
    ensures
        r == width(texts(columns@), grid(cells@), i as int),
{
    let mut r = columns[i].as_str().unicode_len();
    let mut k: usize = 0;
    assert(grid(cells@).take(0) =~= Seq::<Seq<Seq<char>>>::empty());
    while k < cells.len()
        invariant
            k <= cells@.len(),
            i < columns@.len(),
            forall|k: int| 0 <= k < cells@.len() ==> #[trigger] cells@[k]@.len() >= columns@.len(),
            r == width(texts(columns@), grid(cells@).take(k as int), i as int),
        decreases cells@.len() - k,
    {
        let len = cells[k][i].as_str().unicode_len();
        proof {
            let seen = grid(cells@).take(k + 1);
            assert(seen.drop_last() =~= grid(cells@).take(k as int));
            assert(seen.last()[i as int] == cells@[k as int]@[i as int]@);
        }
        if len > r {
            r = len;
        }
        k += 1;
    }
    assert(grid(cells@).take(k as int) =~= grid(cells@));
    r
}

/// The widths as numbers of the model.
spec fn as_nats(widths: Seq<usize>) -> Seq<nat> {
    widths.map_values(|w: usize| w as nat)
}

/// Writes a row of a table.
fn write_row(values: &Vec<String>, widths: &Vec<usize>) -> (r: String)
    requires
        values@.len() >= widths@.len(),
    ensures
        r@ == row_line(texts(values@), as_nats(widths@)),
{
    let mut parts: Vec<String> = Vec::new();
    let ghost all = fitted(texts(values@), as_nats(widths@));
    let mut i: usize = 0;
    while i < widths.len()
        invariant
            i <= widths@.len() <= values@.len(),
            all == fitted(texts(values@), as_nats(widths@)),
            texts(parts@) == all.take(i as int),
        decreases widths@.len() - i,
    {
        let part = pad(values[i].as_str(), widths[i]);
        proof {
            assert(part@ == all[i as int]);
            lemma_texts_push(parts@, part);
            assert(all.take(i + 1) =~= all.take(i as int).push(part@));
        }
        parts.push(part);
        i += 1;
    }
    assert(all.take(i as int) =~= all);
    let mut row = trim_end_white(join_strings(parts.as_slice(), "  ").as_str());
    row.append("\n");
    row
}

/// Writes rows as a table with aligned columns. A record may have more cells
/// than there are columns; those beyond are left out.
pub fn write_table(columns: &Vec<String>, cells: &Vec<Vec<String>>) -> (r: String)
    requires
        forall|k: int| 0 <= k < cells@.len() ==> #[trigger] cells@[k]@.len() >= columns@.len(),
    ensures
        r@ == table(texts(columns@), grid(cells@)),
{
    let mut widths: Vec<usize> = Vec::new();
    let ghost model = self::widths(texts(columns@), grid(cells@));
    let mut i: usize = 0;
    while i < columns.len()
        invariant
            i <= columns@.len(),
            forall|k: int| 0 <= k < cells@.len() ==> #[trigger] cells@[k]@.len() >= columns@.len(),
            model == self::widths(texts(columns@), grid(cells@)),
            as_nats(widths@) == model.take(i as int),
        decreases columns@.len() - i,
    {
        let w = column_width(columns, cells, i);
        proof {
            assert(as_nats(widths@.push(w)) =~= as_nats(widths@).push(w as nat));
            assert(model.take(i + 1) =~= model.take(i as int).push(w as nat));
        }
        widths.push(w);
        i += 1;
    }
    assert(model.take(i as int) =~= model);

    let mut separators: Vec<String> = Vec::new();
    let mut i: usize = 0;
    while i < widths.len()
        invariant
            i <= widths@.len(),
            as_nats(widths@) == model,
            texts(separators@) == dashes(model).take(i as int),
        decreases widths@.len() - i,
    {
        let separator = repeat_char('-', widths[i]);
        proof {
            assert(model[i as int] == widths@[i as int] as nat);
            lemma_texts_push(separators@, separator);
            assert(dashes(model).take(i + 1) =~= dashes(model).take(i as int).push(separator@));
        }
        separators.push(separator);
        i += 1;
    }
    assert(texts(separators@) =~= dashes(model));

    let mut out = write_row(columns, &widths);
    out.append(write_row(&separators, &widths).as_str());
    let ghost head = out@;
    let ghost rows = grid(cells@);
    let mut k: usize = 0;
    assert(rows.take(0) =~= Seq::<Seq<Seq<char>>>::empty());
    assert(out@ =~= head + record_lines(rows.take(0), model));
    while k < cells.len()
        invariant
            k <= cells@.len(),
            forall|k: int| 0 <= k < cells@.len() ==> #[trigger] cells@[k]@.len() >= columns@.len(),
            as_nats(widths@) == model,
            widths@.len() == columns@.len(),
            rows == grid(cells@),
            out@ == head + record_lines(rows.take(k as int), model),
        decreases cells@.len() - k,
    {
        let line = write_row(&cells[k], &widths);
        proof {
            let seen = rows.take(k + 1);
            assert(seen.drop_last() =~= rows.take(k as int));
            assert(seen.last() == texts(cells@[k as int]@));
        }
        out.append(line.as_str());
        assert(out@ =~= head + record_lines(rows.take(k + 1), model));
        k += 1;
    }
    assert(rows.take(k as int) =~= rows);
    out
}

/// Every text fits its column, and some text fills it.
pub proof fn law_width_is_the_longest(
    columns: Seq<Seq<char>>,
    cells: Seq<Seq<Seq<char>>>,
    i: int,
)
    ensures
        columns[i].len() <= width(columns, cells, i),
        forall|k: int| 0 <= k < cells.len() ==> #[trigger] cells[k][i].len() <= width(columns, cells, i),
        columns[i].len() == width(columns, cells, i) || exists|k: int|
            0 <= k < cells.len() && #[trigger] cells[k][i].len() == width(columns, cells, i),
    decreases cells.len(),
{
    if cells.len() > 0 {
        let others = cells.drop_last();
        law_width_is_the_longest(columns, others, i);
        assert forall|k: int| 0 <= k < cells.len() implies #[trigger] cells[k][i].len() <= width(
            columns,
            cells,
            i,
        ) by {
            if k < others.len() {
                assert(others[k][i] == cells[k][i]);
            }
        }
        if width(columns, cells, i) == width(columns, others, i) && columns[i].len() != width(
            columns,
            cells,
            i,
        ) {
            let k = choose|k: int|
                0 <= k < others.len() && #[trigger] others[k][i].len() == width(columns, others, i);
            assert(cells[k][i].len() == width(columns, cells, i));
        } else if columns[i].len() != width(columns, cells, i) {
            assert(cells[cells.len() - 1][i].len() == width(columns, cells, i));
        }
    }
}

/// Where column `i` begins: after the columns before it and two spaces behind
/// each of them.
pub open spec fn column_start(widths: Seq<nat>, i: nat) -> nat
    decreases i,
{
    if i == 0 {
        0
    } else {
        column_start(widths, (i - 1) as nat) + widths[i - 1] + 2
    }
}

proof fn lemma_joined_start(parts: Seq<Seq<char>>, widths: Seq<nat>, k: nat)
    requires
        k < parts.len() == widths.len(),
        forall|i: int| 0 <= i < parts.len() ==> #[trigger] parts[i].len() == widths[i],
    ensures
        join(parts.take(k as int + 1), "  "@).len() == column_start(widths, k) + widths[k as int],
    decreases k,
{
    let seen = parts.take(k as int + 1);
    assert(seen.drop_last() =~= parts.take(k as int));
    assert(seen.last() == parts[k as int]);
    reveal_strlit("  ");
    if k > 0 {
        lemma_joined_start(parts, widths, (k - 1) as nat);
        assert(parts.take((k - 1) + 1) =~= parts.take(k as int));
    } else {
        assert(join(seen.drop_last(), "  "@) =~= Seq::<char>::empty());
    }
}

proof fn lemma_join_begins(parts: Seq<Seq<char>>, sep: Seq<char>, k: int)
    requires
        0 <= k <= parts.len(),
    ensures
        join(parts.take(k), sep).len() <= join(parts, sep).len(),
        join(parts, sep).take(join(parts.take(k), sep).len() as int) == join(parts.take(k), sep),
    decreases parts.len(),
{
    let head = join(parts.take(k), sep);
    if k == parts.len() {
        assert(parts.take(k) =~= parts);
        assert(head.take(head.len() as int) =~= head);
    } else {
        lemma_join_begins(parts.drop_last(), sep, k);
        assert(parts.drop_last().take(k) =~= parts.take(k));
        assert(join(parts, sep).take(head.len() as int) =~= join(parts.drop_last(), sep).take(
            head.len() as int,
        ));
    }
}

/// Columns are aligned: in every row whose values fit, before the white space
/// at its end is cut off, column `i` holds its padded value at the same place.
pub proof fn law_columns_are_aligned(values: Seq<Seq<char>>, widths: Seq<nat>, i: nat)
    requires
        i < widths.len() <= values.len(),
        forall|k: int| 0 <= k < widths.len() ==> #[trigger] values[k].len() <= widths[k],
    ensures
        ({
            let line = join(fitted(values, widths), "  "@);
            let start = column_start(widths, i) as int;
            &&& start + widths[i as int] <= line.len()
            &&& line.subrange(start, start + widths[i as int]) == padded(
                values[i as int],
                widths[i as int],
            )
        }),
{
    let parts = fitted(values, widths);
    let sep = "  "@;
    assert forall|k: int| 0 <= k < parts.len() implies #[trigger] parts[k].len() == widths[k] by {
        assert(values[k].len() <= widths[k]);
    }
    lemma_joined_start(parts, widths, i);
    lemma_join_begins(parts, sep, i as int + 1);
    let head = join(parts.take(i as int + 1), sep);
    let line = join(parts, sep);
    let start = column_start(widths, i) as int;
    assert(parts.take(i as int + 1).last() == parts[i as int]);
    assert(head.subrange(start, start + widths[i as int]) =~= parts[i as int]);
    assert(line.take(head.len() as int).subrange(start, start + widths[i as int])
        =~= line.subrange(start, start + widths[i as int]));
}

/// How many line breaks a text holds.
pub open spec fn line_breaks(s: Seq<char>) -> nat
    decreases s.len(),
{
    if s.len() == 0 {
        0
    } else {
        line_breaks(s.drop_last()) + if s.last() == '\n' {
            1nat
        } else {
            0nat
        }
    }
}

/// Line breaks add up.
pub(crate) proof fn lemma_line_breaks_add(a: Seq<char>, b: Seq<char>)
    ensures
        line_breaks(a + b) == line_breaks(a) + line_breaks(b),
    decreases b.len(),
{
    if b.len() == 0 {
        assert(a + b =~= a);
    } else {
        lemma_line_breaks_add(a, b.drop_last());
        assert((a + b).drop_last() =~= a + b.drop_last());
    }
}

/// A text without the character has no line breaks.
pub(crate) proof fn lemma_no_line_break(s: Seq<char>)
    requires
        !s.contains('\n'),
    ensures
        line_breaks(s) == 0,
    decreases s.len(),
{
    if s.len() > 0 {
        assert(s.contains(s.last()));
        assert forall|c: char| s.drop_last().contains(c) implies s.contains(c) by {
            let i = choose|i: int| 0 <= i < s.drop_last().len() && s.drop_last()[i] == c;
            assert(s[i] == c);
        }
        lemma_no_line_break(s.drop_last());
    }
}

proof fn lemma_join_without(parts: Seq<Seq<char>>, sep: Seq<char>, c: char)
    requires
        !sep.contains(c),
        forall|i: int| 0 <= i < parts.len() ==> !(#[trigger] parts[i]).contains(c),
    ensures
        !join(parts, sep).contains(c),
    decreases parts.len(),
{
    if parts.len() > 0 {
        let front = parts.drop_last();
        lemma_join_without(front, sep, c);
        assert(!parts[parts.len() - 1].contains(c));
        let all = join(parts, sep);
        if all.contains(c) {
            let i = choose|i: int| 0 <= i < all.len() && all[i] == c;
            let gap = if parts.len() == 1 { Seq::empty() } else { sep };
            let a = join(front, sep);
            if i < a.len() {
                assert(a[i] == c);
            } else if i < a.len() + gap.len() {
                assert(gap[i - a.len()] == c);
            } else {
                assert(parts.last()[i - a.len() - gap.len()] == c);
            }
        }
    }
}

proof fn lemma_trim_end_begins(s: Seq<char>, p: spec_fn(char) -> bool)
    ensures
        trim_end(s, p).len() <= s.len(),
        s.take(trim_end(s, p).len() as int) == trim_end(s, p),
    decreases s.len(),
{
    if s.len() > 0 && p(s.last()) {
        lemma_trim_end_begins(s.drop_last(), p);
        let n = trim_end(s, p).len() as int;
        assert(s.take(n) =~= s.drop_last().take(n));
    } else {
        assert(s.take(s.len() as int) =~= s);
    }
}

proof fn lemma_row_is_a_line(values: Seq<Seq<char>>, widths: Seq<nat>)
    requires
        widths.len() <= values.len(),
        forall|i: int| 0 <= i < widths.len() ==> !(#[trigger] values[i]).contains('\n'),
    ensures
        line_breaks(row_line(values, widths)) == 1,
{
    let parts = fitted(values, widths);
    reveal_strlit("  ");
    reveal_strlit("\n");
    assert forall|i: int| 0 <= i < parts.len() implies !(#[trigger] parts[i]).contains('\n') by {
        let part = parts[i];
        if part.contains('\n') {
            let k = choose|k: int| 0 <= k < part.len() && part[k] == '\n';
            assert(k < values[i].len());
            assert(values[i][k] == '\n');
            assert(values[i].contains('\n'));
        }
    }
    lemma_join_without(parts, "  "@, '\n');
    let line = join(parts, "  "@);
    lemma_trim_end_begins(line, white());
    let kept = trim_end(line, white());
    if kept.contains('\n') {
        let k = choose|k: int| 0 <= k < kept.len() && kept[k] == '\n';
        assert(line[k] == kept[k]);
    }
    lemma_no_line_break(kept);
    lemma_line_breaks_add(kept, "\n"@);
    assert("\n"@.drop_last() =~= Seq::<char>::empty());
    assert(line_breaks("\n"@.drop_last()) == 0);
}

proof fn lemma_records_are_lines(cells: Seq<Seq<Seq<char>>>, widths: Seq<nat>)
    requires
        forall|k: int|
            0 <= k < cells.len() ==> widths.len() <= (#[trigger] cells[k]).len() && forall|i: int|
                0 <= i < widths.len() ==> !(#[trigger] cells[k][i]).contains('\n'),
    ensures
        line_breaks(record_lines(cells, widths)) == cells.len(),
    decreases cells.len(),
{
    if cells.len() > 0 {
        let front = cells.drop_last();
        assert forall|k: int| 0 <= k < front.len() implies widths.len() <= (
        #[trigger] front[k]).len() && forall|i: int|
            0 <= i < widths.len() ==> !(#[trigger] front[k][i]).contains('\n') by {
            assert(front[k] == cells[k]);
        }
        lemma_records_are_lines(front, widths);
        assert(cells[cells.len() - 1] == cells.last());
        lemma_row_is_a_line(cells.last(), widths);
        lemma_line_breaks_add(record_lines(front, widths), row_line(cells.last(), widths));
    }
}

/// A table has a line for the headings, one for the dashes and one for each
/// record, as long as no text holds a line break.
pub proof fn law_one_line_per_record(columns: Seq<Seq<char>>, cells: Seq<Seq<Seq<char>>>)
    requires
        forall|i: int| 0 <= i < columns.len() ==> !(#[trigger] columns[i]).contains('\n'),
        forall|k: int|
            0 <= k < cells.len() ==> columns.len() <= (#[trigger] cells[k]).len() && forall|i: int|
                0 <= i < columns.len() ==> !(#[trigger] cells[k][i]).contains('\n'),
    ensures
        line_breaks(table(columns, cells)) == cells.len() + 2,
{
    let ws = widths(columns, cells);
    lemma_row_is_a_line(columns, ws);
    lemma_row_is_a_line(dashes(ws), ws);
    lemma_records_are_lines(cells, ws);
    let a = row_line(columns, ws);
    let b = row_line(dashes(ws), ws);
    lemma_line_breaks_add(a, b);
    lemma_line_breaks_add(a + b, record_lines(cells, ws));
}

/// A padded text is the text itself and spaces after it, up to the width and
/// no further.
pub proof fn law_padding_is_spaces(text: Seq<char>, width: nat)
    ensures
        padded(text, width).len() == if text.len() < width {
            width
        } else {
            text.len()
        },
        forall|i: int| 0 <= i < text.len() ==> padded(text, width)[i] == #[trigger] text[i],
        forall|i: int|
            text.len() <= i < padded(text, width).len() ==> #[trigger] padded(text, width)[i] == ' ',
{
}

/// A line holds the padded values with two spaces between them, up to the last
/// character that is not white space, and a line break.
pub proof fn law_line_holds_the_values(
    values: Seq<Seq<char>>,
    widths: Seq<nat>,
    parts: Seq<Seq<char>>,
)
    requires
        parts.len() == widths.len(),
        forall|i: int|
            0 <= i < widths.len() ==> #[trigger] parts[i] == padded(values[i], widths[i]),
    ensures
        exists|kept: Seq<char>, rest: Seq<char>| #[trigger]
            (kept + rest) == join(parts, "  "@) && row_line(values, widths) == kept + "\n"@ && (
            forall|i: int| 0 <= i < rest.len() ==> is_white(#[trigger] rest[i])) && (kept.len() > 0
                ==> !is_white(kept.last())),
{
    assert(fitted(values, widths) =~= parts);
    let line = join(parts, "  "@);
    let kept = trim_end(line, white());
    law_end_is_trimmed(line, white());
    let rest = line.skip(kept.len() as int);
    assert(kept + rest =~= line);
    assert forall|i: int| 0 <= i < rest.len() implies is_white(#[trigger] rest[i]) by {
        assert(white()(line[kept.len() + i]));
    }
    if kept.len() > 0 {
        assert(!white()(kept.last()));
    }
}

/// A table is the line of its headings, a line of dashes as wide as the
/// columns, and the lines of all records in their order.
pub proof fn law_table_holds_every_record(
    columns: Seq<Seq<char>>,
    cells: Seq<Seq<Seq<char>>>,
    ws: Seq<nat>,
    rules: Seq<Seq<char>>,
)
    requires
        ws.len() == columns.len(),
        forall|i: int| 0 <= i < columns.len() ==> #[trigger] ws[i] == width(columns, cells, i),
        rules.len() == columns.len(),
        forall|i: int| 0 <= i < columns.len() ==> (#[trigger] rules[i]).len() == ws[i],
        forall|i: int, k: int|
            0 <= i < columns.len() && 0 <= k < ws[i] ==> #[trigger] rules[i][k] == '-',
    ensures
        table(columns, cells) == row_line(columns, ws) + row_line(rules, ws) + record_lines(cells, ws),
{
    assert(widths(columns, cells) =~= ws);
    assert forall|i: int| 0 <= i < columns.len() implies dashes(ws)[i] == rules[i] by {
        assert(rules[i].len() == ws[i]);
        assert(dashes(ws)[i] =~= rules[i]);
    }
    assert(dashes(ws) =~= rules);
}

/// The records' lines follow one another: none is lost, doubled or moved.
pub proof fn law_records_follow_one_another(
    a: Seq<Seq<Seq<char>>>,
    b: Seq<Seq<Seq<char>>>,
    record: Seq<Seq<char>>,
    widths: Seq<nat>,
)
    ensures
        record_lines(Seq::empty(), widths) == Seq::<char>::empty(),
        record_lines(seq![record], widths) == row_line(record, widths),
        record_lines(a + b, widths) == record_lines(a, widths) + record_lines(b, widths),
    decreases b.len(),
{
    let one = seq![record];
    assert(one.drop_last() =~= Seq::<Seq<Seq<char>>>::empty());
    assert(record_lines(one.drop_last(), widths) =~= Seq::<char>::empty());
    assert(record_lines(one, widths) =~= row_line(record, widths));
    if b.len() == 0 {
        assert(a + b =~= a);
        assert(record_lines(a, widths) + record_lines(b, widths) =~= record_lines(a, widths));
    } else {
        law_records_follow_one_another(a, b.drop_last(), record, widths);
        assert((a + b).drop_last() =~= a + b.drop_last());
        assert((a + b).last() == b.last());
        assert(record_lines(a + b, widths) =~= record_lines(a, widths) + record_lines(b, widths));
    }
}

/// The cells of a table are taken as they are, each in its place.
pub proof fn law_grid_keeps_every_cell(cells: Seq<Vec<String>>)
    ensures
        grid(cells).len() == cells.len(),
        forall|k: int| 0 <= k < cells.len() ==> grid(cells)[k].len() == (#[trigger] cells[k])@.len(),
        forall|k: int, i: int|
            0 <= k < cells.len() && 0 <= i < cells[k]@.len() ==> grid(cells)[k][i]
                == (#[trigger] cells[k]@[i])@,
{
}

} // verus!
