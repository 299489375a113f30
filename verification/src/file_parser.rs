//! Reading the CSV recording: its header, its format check and its cells.
use vstd::prelude::*;
use core::ops::Range;
use crate::text::{
    find_char, first_index, has_prefix, lemma_first_index, lemma_split_first,
    lemma_split_len, split,
    split_borrowed, split_owned, starts_with, str_views, string_views,
};

verus! {

/// The first line of `s`: everything before its first line break.
pub open spec fn header_line(s: Seq<char>) -> Seq<char> {
    s.take(first_index(s, '\n') as int)
}

/// The attribute names that the header of `s` lists: its comma-separated
/// fields, the first one (the time column) left out.
pub open spec fn attribute_names(s: Seq<char>) -> Seq<Seq<char>> {
    split(header_line(s), ',').drop_first()
}

/// The names of the recorded attributes of a CSV text. The text must hold a
/// line break: the header is what comes before the first one.
pub fn attributes<'a>(file_string_data: &'a str) -> (r: Vec<&'a str>)
    requires
        file_string_data@.contains('\n'),
    ensures
        str_views(r@) == attribute_names(file_string_data@),
{
    proof {
        lemma_first_index(file_string_data@, '\n');
        let k = choose|k: int| 0 <= k < file_string_data@.len() && file_string_data@[k] == '\n';
        assert(first_index(file_string_data@, '\n') <= k);
    }
    let end = find_char(file_string_data, '\n');
    let header = file_string_data.substring_char(0, end);
    let fields = split_borrowed(header, ',');
    proof {
        lemma_split_len(header@, ',');
    }
    let mut names: Vec<&'a str> = Vec::new();
    let mut i: usize = 1;
    while i < fields.len()
        invariant
            1 <= i <= fields.len(),
            str_views(fields@) == split(header@, ','),
            str_views(names@) == split(header@, ',').subrange(1, i as int),
        decreases fields.len() - i,
    {
        let ghost before = names@;
        names.push(fields[i]);
        assert(str_views(names@) =~= split(header@, ',').subrange(1, i + 1)) by {
            assert(str_views(names@) =~= str_views(before).push(fields@[i as int]@));
        }
        i = i + 1;
    }
    assert(split(header@, ',').subrange(1, i as int) =~= split(header@, ',').drop_first());
    names
}

/// The marker that a recording's text begins with: the header of its time column.
pub open spec fn time_header() -> Seq<char> {
    "\"Time (s)\","@
}

/// The format check of a recording. Its length test compares the bitwise
/// negation of the byte length with 12, so it turns down every text of at
/// most `usize::MAX - 12` bytes, and holds a longer one to begin with the
/// time column's header.
pub fn file_content_integrity_check(file_string_data: &str) -> (r: bool)
    ensures
        r == (file_string_data.len() > usize::MAX - 12 && has_prefix(
            file_string_data@,
            time_header(),
        )),
{
    // `usize::MAX - len` is the bitwise negation of `len`.
    if usize::MAX - file_string_data.len() >= 12 {
        return false;
    }
    starts_with(file_string_data, "\"Time (s)\",")
}

/// The lines of `s` after the header, each cut into its comma-separated cells.
pub open spec fn records(s: Seq<char>) -> Seq<Seq<Seq<char>>> {
    split(s, '\n').drop_first().map_values(|line: Seq<char>| split(line, ','))
}

/// How many columns the header of `s` opens.
pub open spec fn header_width(s: Seq<char>) -> nat {
    split(split(s, '\n')[0], ',').len()
}

/// No line of `s` has more cells than its header.
pub open spec fn rows_fit(s: Seq<char>) -> bool {
    forall|k: int| 0 <= k < records(s).len() ==> #[trigger] records(s)[k].len() <= header_width(s)
}

/// The cells that the records give to column `p`, top to bottom; a record
/// with fewer cells gives it none.
pub open spec fn column(recs: Seq<Seq<Seq<char>>>, p: int) -> Seq<Seq<char>>
    decreases recs.len(),
{
    if recs.len() == 0 {
        Seq::<Seq<char>>::empty()
    } else {
        let earlier = column(recs.drop_last(), p);
        if p < recs.last().len() {
            earlier.push(recs.last()[p])
        } else {
            earlier
        }
    }
}

pub open spec fn record_views(v: Seq<Vec<String>>) -> Seq<Seq<Seq<char>>> {
    v.map_values(|row: Vec<String>| string_views(row@))
}

/// The header width and the records of a text.
fn split_records(s: &str) -> (r: (usize, Vec<Vec<String>>))
    ensures
        r.0 == header_width(s@),
        record_views(r.1@) == records(s@),
{
    let lines = split_owned(s, '\n');
    proof {
        lemma_split_len(s@, '\n');
    }
    let header = split_owned(lines[0].as_str(), ',');
    let width = header.len();
    let mut recs: Vec<Vec<String>> = Vec::new();
    let mut k: usize = 1;
    while k < lines.len()
        invariant
            1 <= k <= lines.len(),
            string_views(lines@) == split(s@, '\n'),
            record_views(recs@) == records(s@).subrange(0, k - 1),
        decreases lines.len() - k,
    {
        let ghost before = recs@;
        let cells = split_owned(lines[k].as_str(), ',');
        recs.push(cells);
        assert(record_views(recs@) =~= records(s@).subrange(0, k as int)) by {
            assert(record_views(recs@) =~= record_views(before).push(string_views(cells@)));
            assert(string_views(lines@)[k as int] == lines@[k as int]@);
        }
        k = k + 1;
    }
    assert(records(s@).subrange(0, k - 1) =~= records(s@));
    (width, recs)
}

/// Whether no line of the text has more cells than its header, which
/// `extract_data` needs.
pub fn rows_fit_header(file_string_data: &str) -> (r: bool)
    ensures
        r == rows_fit(file_string_data@),
{
    let (width, recs) = split_records(file_string_data);
    let mut k: usize = 0;
    while k < recs.len()
        invariant
            k <= recs.len(),
            width == header_width(file_string_data@),
            record_views(recs@) == records(file_string_data@),
            forall|j: int| 0 <= j < k ==> #[trigger] records(file_string_data@)[j].len() <= width,
        decreases recs.len() - k,
    {
        assert(records(file_string_data@)[k as int] == string_views(recs@[k as int]@));
        if recs[k].len() > width {
            return false;
        }
        k = k + 1;
    }
    true
}

/// The cells of a recording, column by column: one column per header field,
/// and in it the cell of that field of every later line that has one, top to
/// bottom. The cells are text; reading them as numbers is left to the caller.
pub fn extract_data(file_string_data: &str) -> (r: Vec<Vec<String>>)
    requires
        rows_fit(file_string_data@),
    ensures
        r.len() == header_width(file_string_data@),
        forall|p: int|
            0 <= p < r.len() ==> string_views(#[trigger] r@[p]@) == column(
                records(file_string_data@),
                p,
            ),
{
    let (width, recs) = split_records(file_string_data);
    let mut res: Vec<Vec<String>> = Vec::new();
    let mut p: usize = 0;
    while p < width
        invariant
            p <= width,
            res.len() == p,
            record_views(recs@) == records(file_string_data@),
            forall|q: int|
                0 <= q < p ==> string_views(#[trigger] res@[q]@) == column(
                    records(file_string_data@),
                    q,
                ),
        decreases width - p,
    {
        let mut col: Vec<String> = Vec::new();
        let mut k: usize = 0;
        while k < recs.len()
            invariant
                k <= recs.len(),
                record_views(recs@) == records(file_string_data@),
                string_views(col@) == column(records(file_string_data@).subrange(0, k as int), p as int),
            decreases recs.len() - k,
        {
            let ghost before = col@;
            let ghost recs_k = records(file_string_data@).subrange(0, k + 1);
            assert(recs_k.drop_last() =~= records(file_string_data@).subrange(0, k as int));
            assert(recs_k.last() == string_views(recs@[k as int]@));
            if p < recs[k].len() {
                col.push(recs[k][p].clone());
                assert(string_views(col@) =~= string_views(before).push(recs@[k as int]@[p as int]@));
            }
            k = k + 1;
        }
        assert(records(file_string_data@).subrange(0, k as int) =~= records(file_string_data@));
        res.push(col);
        p = p + 1;
    }
    res
}

/// The cells of a column whose time points, rounded to `times`, lie within
/// `range`.
pub open spec fn within_range<T>(col: Seq<T>, times: Seq<i64>, range: Range<i64>) -> Seq<T>
    decreases col.len(),
{
    if col.len() == 0 {
        Seq::<T>::empty()
    } else {
        let earlier = within_range(col.drop_last(), times, range);
        let t = times[col.len() - 1];
        if range.start <= t && t < range.end {
            earlier.push(col.last())
        } else {
            earlier
        }
    }
}

/// Keeps in the time column only the time points whose time, rounded to
/// `rounded_times`, lies within `time_range`.
#[allow(dead_code)]
fn extract_from_raw_data<T: Copy>(
    parsed_file_data: &mut Vec<Vec<T>>,
    rounded_times: &Vec<i64>,
    time_range: Range<i64>,
)
    requires
        old(parsed_file_data).len() >= 1,
        rounded_times.len() == old(parsed_file_data)@[0].len(),
    ensures
        final(parsed_file_data).len() == old(parsed_file_data).len(),
        final(parsed_file_data)@[0]@ == within_range(
            old(parsed_file_data)@[0]@,
            rounded_times@,
            time_range,
        ),
        forall|k: int|
            1 <= k < final(parsed_file_data).len() ==> #[trigger] final(parsed_file_data)@[k]
                == old(parsed_file_data)@[k],
{
    let mut kept: Vec<T> = Vec::new();
    let mut i: usize = 0;
    while i < parsed_file_data[0].len()
        invariant
            parsed_file_data@ == old(parsed_file_data)@,
            parsed_file_data.len() >= 1,
            rounded_times.len() == parsed_file_data@[0].len(),
            i <= parsed_file_data@[0].len(),
            kept@ == within_range(parsed_file_data@[0]@.take(i as int), rounded_times@, time_range),
        decreases parsed_file_data@[0].len() - i,
    {
        proof {
            let col = parsed_file_data@[0]@;
            assert(col.take(i + 1).drop_last() =~= col.take(i as int));
        }
        let t = rounded_times[i];
        if time_range.start <= t && t < time_range.end {
            kept.push(parsed_file_data[0][i]);
        }
        i = i + 1;
    }
    assert(parsed_file_data@[0]@.take(i as int) =~= parsed_file_data@[0]@);
    parsed_file_data.set(0, kept);
}

/// The attributes and the data columns agree: a text with a line break has
/// one data column more (the times) than it names attributes.
pub proof fn law_attributes_match_columns(s: Seq<char>)
    requires
        s.contains('\n'),
    ensures
        attribute_names(s).len() + 1 == header_width(s),
{
    lemma_split_first(s, '\n');
    lemma_split_len(header_line(s), ',');
}

/// No attribute name holds a comma.
pub proof fn law_attribute_names_hold_no_comma(s: Seq<char>)
    ensures
        forall|i: int| 0 <= i < attribute_names(s).len() ==> !(#[trigger] attribute_names(s)[i]).contains(','),
{
    crate::text::law_split_join(header_line(s), ',');
    assert forall|i: int| 0 <= i < attribute_names(s).len() implies !(#[trigger] attribute_names(s)[i]).contains(',') by {
        assert(attribute_names(s)[i] == split(header_line(s), ',')[i + 1]);
    }
}

} // verus!
