use vstd::prelude::*;
use crate::fmt::{decimal_spec, decimal_string};
use crate::quote::{sqlite_quote_ident, sqlite_quote_spec};
use crate::sort::{lemma_insert_at, sort_spec};
use crate::text::{
    ascii_lower_chars, ascii_lower_seq, chars_eq, chars_of, concat_str, lex_less, lines_chars, lines_spec,
    order_seq, split_chars, split_spec, string_from_chars, trim, trim_chars, views,
};

verus! {

/// The unit separator that splits the cells of a row.
pub open spec fn cell_separator() -> char {
    '\x1f'
}

/// The rows `sqlite3` printed: each non-blank line split at the unit
/// separator.
pub open spec fn query_rows_spec(stdout: Seq<char>) -> Seq<Seq<Seq<char>>> {
    rows_of_lines(lines_spec(stdout))
}

/// The rows of printed lines, blank lines left out.
pub open spec fn rows_of_lines(lines: Seq<Seq<char>>) -> Seq<Seq<Seq<char>>>
    decreases lines.len(),
{
    if lines.len() == 0 {
        Seq::empty()
    } else {
        let rest = rows_of_lines(lines.drop_last());
        if trim(lines.last()).len() == 0 {
            rest
        } else {
            rest.push(split_spec(lines.last(), cell_separator()))
        }
    }
}

/// The views of rows of cells.
pub open spec fn row_views(v: Seq<Vec<String>>) -> Seq<Seq<Seq<char>>> {
    v.map_values(|r: Vec<String>| r@.map_values(|c: String| c@))
}

fn strings_of(parts: &Vec<Vec<char>>) -> (r: Vec<String>)
    ensures
        r@.map_values(|c: String| c@) == views(parts@),
{
    let mut out: Vec<String> = Vec::new();
    let mut i: usize = 0;
    while i < parts.len()
        invariant
            i <= parts.len(),
            out@.map_values(|c: String| c@) == views(parts@).take(i as int),
        decreases parts.len() - i,
    {
        let ghost before = out@.map_values(|c: String| c@);
        out.push(string_from_chars(parts[i].as_slice()));
        assert(out@.map_values(|c: String| c@) =~= before.push(parts@[i as int]@));
        assert(views(parts@).take(i + 1) =~= views(parts@).take(i as int).push(parts@[i as int]@));
        i = i + 1;
    }
    assert(views(parts@).take(parts.len() as int) =~= views(parts@));
    out
}

/// The rows `sqlite3` printed (see [`query_rows_spec`]).
pub fn sqlite_query_rows(stdout: &str) -> (r: Vec<Vec<String>>)
    ensures
        row_views(r@) == query_rows_spec(stdout@),
{
    let lines = lines_chars(&chars_of(stdout));
    let ghost lv = lines_spec(stdout@);
    let mut out: Vec<Vec<String>> = Vec::new();
    let mut i: usize = 0;
    assert(lv.take(0) =~= Seq::<Seq<char>>::empty());
    while i < lines.len()
        invariant
            i <= lines.len(),
            views(lines@) == lv,
            row_views(out@) == rows_of_lines(lv.take(i as int)),
        decreases lines.len() - i,
    {
        assert(lv.take(i + 1).drop_last() =~= lv.take(i as int));
        assert(lv.take(i + 1).last() == lines@[i as int]@);
        if trim_chars(&lines[i]).len() > 0 {
            let cells = strings_of(&split_chars(&lines[i], '\x1f'));
            let ghost before = row_views(out@);
            let ghost cv = cells@.map_values(|c: String| c@);
            out.push(cells);
            assert(row_views(out@) =~= before.push(cv));
        }
        i = i + 1;
    }
    assert(lv.take(lines.len() as int) =~= lv);
    out
}

/// The message of a failed query: `sqlite3 query failed`, with what it
/// printed on stderr (trimmed) after a colon when there was something.
pub fn sqlite_error_message(stderr: &str) -> (r: String)
    ensures
        r@ == if trim(stderr@).len() == 0 {
            "sqlite3 query failed"@
        } else {
            "sqlite3 query failed: "@ + trim(stderr@)
        },
{
    let t = trim_chars(&chars_of(stderr));
    if t.len() == 0 {
        "sqlite3 query failed".to_string()
    } else {
        concat_str("sqlite3 query failed: ", string_from_chars(t.as_slice()).as_str())
    }
}

/// The first cells that are not blank.
pub open spec fn first_cells(rows: Seq<Seq<Seq<char>>>) -> Seq<Seq<char>>
    decreases rows.len(),
{
    if rows.len() == 0 {
        Seq::empty()
    } else {
        let rest = first_cells(rows.drop_last());
        let r = rows.last();
        if r.len() > 0 && trim(r[0]).len() > 0 {
            rest.push(r[0])
        } else {
            rest
        }
    }
}

/// Text `a` may stay before text `b`.
pub open spec fn text_le(a: Seq<char>, b: Seq<char>) -> bool {
    order_seq(a, b) != 1
}

/// A sorted list with runs of equal items reduced to one.
pub open spec fn dedup_spec(s: Seq<Seq<char>>) -> Seq<Seq<char>>
    decreases s.len(),
{
    if s.len() == 0 {
        s
    } else {
        let d = dedup_spec(s.drop_last());
        if d.len() > 0 && d.last() == s.last() {
            d
        } else {
            d.push(s.last())
        }
    }
}

/// The tables and views of a database from its listing: the non-blank
/// first cells, sorted, each once.
pub open spec fn table_list_spec(rows: Seq<Seq<Seq<char>>>) -> Seq<Seq<char>> {
    dedup_spec(sort_spec(first_cells(rows), |a: Seq<char>, b: Seq<char>| text_le(a, b)))
}

fn order_chars(a: &Vec<char>, b: &Vec<char>) -> (r: i8)
    ensures
        r as int == order_seq(a@, b@),
{
    if chars_eq(a.as_slice(), b.as_slice()) {
        0
    } else if lex_less(a.as_slice(), b.as_slice()) {
        -1
    } else {
        1
    }
}

/// The tables and views of a database (see [`table_list_spec`]); `rows`:
/// what listing them printed.
pub fn sqlite_list_tables(rows: &Vec<Vec<String>>) -> (r: Vec<String>)
    ensures
        r@.map_values(|s: String| s@) == table_list_spec(row_views(rows@)),
{
    let ghost rv = row_views(rows@);
    let ghost le = |a: Seq<char>, b: Seq<char>| text_le(a, b);
    let mut names: Vec<Vec<char>> = Vec::new();
    let mut i: usize = 0;
    assert(rv.take(0) =~= Seq::<Seq<Seq<char>>>::empty());
    while i < rows.len()
        invariant
            i <= rows.len(),
            rv == row_views(rows@),
            views(names@) == first_cells(rv.take(i as int)),
        decreases rows.len() - i,
    {
        assert(rv.take(i + 1).drop_last() =~= rv.take(i as int));
        assert(rv.take(i + 1).last() == rows@[i as int]@.map_values(|c: String| c@));
        if rows[i].len() > 0 {
            let first = chars_of(rows[i][0].as_str());
            if trim_chars(&first).len() > 0 {
                let ghost before = views(names@);
                names.push(first);
                assert(views(names@) =~= before.push(rows@[i as int]@[0]@));
            }
        }
        i = i + 1;
    }
    assert(rv.take(rows.len() as int) =~= rv);
    let ghost src = views(names@);
    let mut sorted: Vec<Vec<char>> = Vec::new();
    let ghost mut taken: Seq<Seq<char>> = Seq::empty();
    while names.len() > 0
        invariant
            src == taken + views(names@),
            views(sorted@) == sort_spec(taken, le),
            le == (|a: Seq<char>, b: Seq<char>| text_le(a, b)),
        decreases names.len(),
    {
        let ghost rest0 = names@;
        let h = names.remove(0);
        assert(views(rest0) =~= seq![h@] + views(names@));
        let ghost sv = views(sorted@);
        let mut j = sorted.len();
        while j > 0 && order_chars(&sorted[j - 1], &h) == 1
            invariant
                j <= sorted.len(),
                sv == views(sorted@),
                le == (|a: Seq<char>, b: Seq<char>| text_le(a, b)),
                forall|k: int| j <= k < sv.len() ==> !le(#[trigger] sv[k], h@),
            decreases j,
        {
            j = j - 1;
        }
        proof {
            lemma_insert_at(sv, h@, le, j as int);
            assert(taken.push(h@).drop_last() =~= taken);
        }
        let ghost hv = h@;
        sorted.insert(j, h);
        proof {
            assert(views(sorted@) =~= sv.insert(j as int, hv));
            taken = taken.push(hv);
            assert(src =~= taken + views(names@));
        }
    }
    assert(taken =~= src);
    let ghost st = views(sorted@);
    let mut out: Vec<String> = Vec::new();
    let mut last: Vec<char> = Vec::new();
    let mut k: usize = 0;
    assert(st.take(0) =~= Seq::<Seq<char>>::empty());
    while k < sorted.len()
        invariant
            k <= sorted.len(),
            st == views(sorted@),
            out@.map_values(|s: String| s@) == dedup_spec(st.take(k as int)),
            k > 0 ==> dedup_spec(st.take(k as int)).len() > 0 && dedup_spec(st.take(k as int)).last() == last@,
        decreases sorted.len() - k,
    {
        assert(st.take(k + 1).drop_last() =~= st.take(k as int));
        assert(st.take(k + 1).last() == sorted@[k as int]@);
        if k == 0 || !chars_eq(last.as_slice(), sorted[k].as_slice()) {
            let ghost before = out@.map_values(|s: String| s@);
            out.push(string_from_chars(sorted[k].as_slice()));
            assert(out@.map_values(|s: String| s@) =~= before.push(sorted@[k as int]@));
            last = sorted[k].clone();
        }
        k = k + 1;
    }
    assert(st.take(sorted.len() as int) =~= st);
    out
}

/// The arguments of `sqlite3` for a query whose rows come back with cells
/// split by the unit separator and `NULL` for null values.
pub open spec fn query_args_spec(db_path: Seq<char>, sql: Seq<char>, with_header: bool) -> Seq<Seq<char>> {
    seq![
        "-readonly"@,
        "-batch"@,
        "-separator"@,
        seq![cell_separator()],
        "-nullvalue"@,
        "NULL"@,
        if with_header { "-header"@ } else { "-noheader"@ },
        db_path,
        sql,
    ]
}

fn push_str(v: &mut Vec<String>, s: &str)
    ensures
        final(v)@.map_values(|x: String| x@) == old(v)@.map_values(|x: String| x@).push(s@),
{
    let ghost before = v@.map_values(|x: String| x@);
    v.push(s.to_string());
    assert(v@.map_values(|x: String| x@) =~= before.push(s@));
}

/// The arguments of `sqlite3` for a query (see [`query_args_spec`]).
pub fn sqlite_query_args(db_path: &str, sql: &str, with_header: bool) -> (r: Vec<String>)
    ensures
        r@.map_values(|x: String| x@) == query_args_spec(db_path@, sql@, with_header),
{
    proof {
        reveal_strlit("\x1f");
        assert("\x1f"@ =~= seq![cell_separator()]);
    }
    let mut v: Vec<String> = Vec::new();
    push_str(&mut v, "-readonly");
    push_str(&mut v, "-batch");
    push_str(&mut v, "-separator");
    push_str(&mut v, "\x1f");
    push_str(&mut v, "-nullvalue");
    push_str(&mut v, "NULL");
    if with_header {
        push_str(&mut v, "-header");
    } else {
        push_str(&mut v, "-noheader");
    }
    push_str(&mut v, db_path);
    push_str(&mut v, sql);
    assert(v@.map_values(|x: String| x@) =~= query_args_spec(db_path@, sql@, with_header));
    v
}

/// The query that previews a table: its first `limit` rows.
pub fn preview_table_sql(table: &str, limit: u64) -> (r: String)
    ensures
        r@ == "SELECT * FROM "@ + sqlite_quote_spec(table@) + " LIMIT "@ + decimal_spec(limit as nat) + ";"@,
{
    let a = concat_str("SELECT * FROM ", sqlite_quote_ident(table).as_str());
    let b = concat_str(a.as_str(), " LIMIT ");
    let c = concat_str(b.as_str(), decimal_string(limit).as_str());
    concat_str(c.as_str(), ";")
}

/// A setting's text reads as on: `1` or `true` (any ASCII case), trimmed.
pub open spec fn flag_true_spec(raw: Seq<char>) -> bool {
    trim(raw) == "1"@ || ascii_lower_seq(trim(raw)) == "true"@
}

/// Whether a setting's text reads as on (see [`flag_true_spec`]).
pub fn flag_value_true(raw: &str) -> (r: bool)
    ensures
        r == flag_true_spec(raw@),
{
    let t = trim_chars(&chars_of(raw));
    chars_eq(t.as_slice(), chars_of("1").as_slice())
        || chars_eq(ascii_lower_chars(&t).as_slice(), chars_of("true").as_slice())
}

/// A flag given by the first of several settings that is set: on when its
/// text reads as on, off when none is set.
pub open spec fn env_flag_spec(values: Seq<Option<Seq<char>>>) -> bool
    decreases values.len(),
{
    if values.len() == 0 {
        false
    } else {
        match values[0] {
            Some(v) => flag_true_spec(v),
            None => env_flag_spec(values.drop_first()),
        }
    }
}

/// A flag given by the first of several settings that is set (see
/// [`env_flag_spec`]); `values[i]`: the text of setting `i`, if set.
pub fn env_flag_true(values: &Vec<Option<String>>) -> (r: bool)
    ensures
        r == env_flag_spec(values@.map_values(|o: Option<String>| match o {
            Some(s) => Some(s@),
            None => None,
        })),
{
    let ghost vv = values@.map_values(|o: Option<String>| match o {
        Some(s) => Some(s@),
        None => None,
    });
    let mut i: usize = 0;
    assert(vv.skip(0) =~= vv);
    while i < values.len()
        invariant
            i <= values.len(),
            vv == values@.map_values(|o: Option<String>| match o {
                Some(s) => Some(s@),
                None => None,
            }),
            env_flag_spec(vv) == env_flag_spec(vv.skip(i as int)),
        decreases values.len() - i,
    {
        assert(vv.skip(i as int)[0] == vv[i as int]);
        match &values[i] {
            Some(s) => {
                return flag_value_true(s.as_str());
            },
            None => {},
        }
        assert(vv.skip(i as int).drop_first() =~= vv.skip(i + 1));
        i = i + 1;
    }
    assert(vv.skip(i as int) =~= Seq::<Option<Seq<char>>>::empty());
    false
}

} // verus!
