use vstd::prelude::*;
use crate::entries::{key_spec, lemma_listing_order_sorted, listing_order_spec, EntryFacts, SortMode};
use crate::integration::catalog::str_eq;
use crate::notes::{sorted_unique, string_views};
use crate::text::{concat_str, lex_lt};

verus! {

/// The row a directory reopens on: the row it was left on (0 when none was
/// kept), not past the last row; none in an empty directory.
pub open spec fn restored_selection_spec(saved: Option<usize>, len: usize) -> Option<usize> {
    if len == 0 {
        None
    } else {
        let s = match saved {
            Some(s) => s,
            None => 0,
        };
        Some(if s < len { s } else { (len - 1) as usize })
    }
}

/// The row a directory reopens on (see [`restored_selection_spec`]).
pub fn restored_selection(saved: Option<usize>, len: usize) -> (r: Option<usize>)
    ensures
        r == restored_selection_spec(saved, len),
{
    if len == 0 {
        return None;
    }
    let s = match saved {
        Some(s) => s,
        None => 0,
    };
    Some(if s < len { s } else { len - 1 })
}

/// The first row named `name`, if any.
pub fn position_of_name(names: &Vec<String>, name: &str) -> (r: Option<usize>)
    ensures
        match r {
            Some(i) => i < names@.len() && names@[i as int]@ == name@
                && forall|j: int| 0 <= j < i ==> #[trigger] names@[j]@ != name@,
            None => forall|j: int| 0 <= j < names@.len() ==> #[trigger] names@[j]@ != name@,
        },
{
    let mut i: usize = 0;
    while i < names.len()
        invariant
            i <= names@.len(),
            forall|j: int| 0 <= j < i ==> #[trigger] names@[j]@ != name@,
        decreases names.len() - i,
    {
        if str_eq(names[i].as_str(), name) {
            return Some(i);
        }
        i = i + 1;
    }
    None
}

/// Whether `x` occurs in `v`.
fn vec_contains(v: &Vec<usize>, x: usize) -> (b: bool)
    ensures
        b == v@.contains(x),
{
    let mut i: usize = 0;
    while i < v.len()
        invariant
            i <= v@.len(),
            forall|j: int| 0 <= j < i ==> v@[j] != x,
        decreases v.len() - i,
    {
        if v[i] == x {
            assert(v@[i as int] == x);
            return true;
        }
        i = i + 1;
    }
    false
}

/// The row the selection moves to when the listing is reordered by `order`
/// (new row `j` shows old row `order[j]`): the row now showing the entry
/// that was selected; when that entry is not in the listing, the old row,
/// not past the last one.
pub open spec fn kept_selection_spec(order: Seq<usize>, selected: usize) -> usize {
    if order.len() == 0 {
        0
    } else {
        match order.index_of_first(selected) {
            Some(j) => j as usize,
            None => if selected < order.len() { selected } else { (order.len() - 1) as usize },
        }
    }
}

/// The row the selection moves to after a reorder (see
/// [`kept_selection_spec`]).
pub fn kept_selection(order: &Vec<usize>, selected: usize) -> (r: usize)
    ensures
        r == kept_selection_spec(order@, selected),
{
    let n = order.len();
    if n == 0 {
        return 0;
    }
    let mut j: usize = 0;
    while j < n
        invariant
            n == order@.len(),
            j <= n,
            forall|k: int| 0 <= k < j ==> order@[k] != selected,
        decreases n - j,
    {
        if order[j] == selected {
            proof {
                order@.index_of_first_ensures(selected);
                assert(order@.contains(selected)) by {
                    assert(order@[j as int] == selected);
                }
                match order@.index_of_first(selected) {
                    Some(f) => {
                        if f < j {
                            assert(order@[f] != selected);
                        }
                        if j < f {
                            assert(order@[j as int] != selected);
                        }
                    },
                    None => {},
                }
            }
            return j;
        }
        j = j + 1;
    }
    assert(!order@.contains(selected)) by {
        if order@.contains(selected) {
            let k = choose|k: int| 0 <= k < order@.len() && order@[k] == selected;
            assert(order@[k] != selected);
        }
    }
    proof {
        order@.index_of_first_ensures(selected);
    }
    if selected < n { selected } else { n - 1 }
}

/// The marked rows after a reorder by `order`: the rows that now show a
/// marked entry.
pub open spec fn kept_marks_spec(order: Seq<usize>, marked: Seq<usize>) -> Set<usize> {
    Set::new(|j: usize| j < order.len() && marked.contains(order[j as int]))
}

/// The marked rows after a reorder (see [`kept_marks_spec`]), in increasing
/// order.
pub fn kept_marks(order: &Vec<usize>, marked: &Vec<usize>) -> (r: Vec<usize>)
    ensures
        forall|a: int, b: int| 0 <= a < b < r@.len() ==> r@[a] < r@[b],
        forall|j: usize| #[trigger] r@.contains(j) <==> kept_marks_spec(order@, marked@).contains(j),
{
    let mut r: Vec<usize> = Vec::new();
    let mut j: usize = 0;
    while j < order.len()
        invariant
            j <= order@.len(),
            forall|a: int, b: int| 0 <= a < b < r@.len() ==> r@[a] < r@[b],
            forall|a: int| 0 <= a < r@.len() ==> r@[a] < j,
            forall|x: usize| #[trigger] r@.contains(x) <==> (x < j && marked@.contains(order@[x as int])),
        decreases order.len() - j,
    {
        let hit = vec_contains(marked, order[j]);
        let ghost before = r@;
        if hit {
            r.push(j);
        }
        proof {
            assert forall|x: usize| #[trigger] r@.contains(x) <==> (x < j + 1 && marked@.contains(order@[x as int])) by {
                if hit {
                    assert(r@ == before.push(j));
                    if r@.contains(x) && x != j {
                        let q = choose|q: int| 0 <= q < r@.len() && r@[q] == x;
                        assert(before[q] == x);
                        assert(before.contains(x));
                    }
                    if x < j && marked@.contains(order@[x as int]) {
                        assert(before.contains(x));
                        let q = choose|q: int| 0 <= q < before.len() && before[q] == x;
                        assert(r@[q] == x);
                    }
                    if x == j {
                        assert(r@[before.len() as int] == j);
                    }
                } else {
                    assert(r@ == before);
                    if r@.contains(x) {
                        let q = choose|q: int| 0 <= q < r@.len() && r@[q] == x;
                        assert(r@[q] < j);
                    }
                }
            }
        }
        j = j + 1;
    }
    r
}

/// Whether row `i` of `len` rows is acted on: with marks, the marked rows;
/// without, the selected row.
pub open spec fn is_target(len: int, marked: Seq<usize>, selected: usize, i: int) -> bool {
    0 <= i < len && if marked.len() > 0 {
        marked.contains(i as usize)
    } else {
        i == selected
    }
}

/// The rows a delete acts on, in increasing order (see [`is_target`]).
pub fn target_rows(len: usize, marked: &Vec<usize>, selected: usize) -> (r: Vec<usize>)
    ensures
        forall|a: int, b: int| 0 <= a < b < r@.len() ==> r@[a] < r@[b],
        forall|i: int| 0 <= i < r@.len() ==> r@[i] < len,
        forall|x: usize| #[trigger] r@.contains(x) <==> is_target(len as int, marked@, selected, x as int),
{
    let mut r: Vec<usize> = Vec::new();
    if marked.len() == 0 {
        if selected < len {
            r.push(selected);
            assert(r@ == seq![selected]);
            assert forall|x: usize| #[trigger] r@.contains(x) <==> is_target(len as int, marked@, selected, x as int) by {
                if r@.contains(x) {
                    let q = choose|q: int| 0 <= q < r@.len() && r@[q] == x;
                }
                if x == selected {
                    assert(r@[0] == x);
                }
            }
        }
        return r;
    }
    let mut i: usize = 0;
    while i < len
        invariant
            i <= len,
            marked@.len() > 0,
            forall|a: int, b: int| 0 <= a < b < r@.len() ==> r@[a] < r@[b],
            forall|a: int| 0 <= a < r@.len() ==> r@[a] < i,
            forall|x: usize| #[trigger] r@.contains(x) <==> (x < i && marked@.contains(x)),
        decreases len - i,
    {
        let hit = vec_contains(marked, i);
        let ghost before = r@;
        if hit {
            r.push(i);
        }
        proof {
            assert forall|x: usize| #[trigger] r@.contains(x) <==> (x < i + 1 && marked@.contains(x)) by {
                if hit {
                    assert(r@ == before.push(i));
                    if r@.contains(x) && x != i {
                        let q = choose|q: int| 0 <= q < r@.len() && r@[q] == x;
                        assert(before[q] == x);
                        assert(before.contains(x));
                    }
                    if x < i && marked@.contains(x) {
                        assert(before.contains(x));
                        let q = choose|q: int| 0 <= q < before.len() && before[q] == x;
                        assert(r@[q] == x);
                    }
                    if x == i {
                        assert(r@[before.len() as int] == i);
                    }
                } else {
                    assert(r@ == before);
                    if r@.contains(x) {
                        let q = choose|q: int| 0 <= q < r@.len() && r@[q] == x;
                        assert(r@[q] < i);
                    }
                }
            }
        }
        i = i + 1;
    }
    r
}

/// The names a note edit applies to: the names of the target rows (see
/// [`is_target`]), in increasing order, each once.
pub fn note_targets(names: &Vec<String>, marked: &Vec<usize>, selected: usize) -> (r: Vec<String>)
    ensures
        forall|i: int, j: int| 0 <= i < j < r@.len() ==> lex_lt(#[trigger] r@[i]@, #[trigger] r@[j]@),
        forall|k: Seq<char>| #[trigger] string_views(r@).contains(k) <==> exists|i: int|
            is_target(names@.len() as int, marked@, selected, i) && #[trigger] names@[i]@ == k,
{
    let rows = target_rows(names.len(), marked, selected);
    let mut picked: Vec<String> = Vec::new();
    let mut t: usize = 0;
    while t < rows.len()
        invariant
            t <= rows@.len(),
            forall|i: int| 0 <= i < rows@.len() ==> rows@[i] < names@.len(),
            picked@.len() == t,
            forall|q: int| 0 <= q < t ==> #[trigger] picked@[q]@ == names@[rows@[q] as int]@,
        decreases rows.len() - t,
    {
        picked.push(names[rows[t]].clone());
        t = t + 1;
    }
    let r = sorted_unique(&picked);
    proof {
        assert forall|k: Seq<char>| #[trigger] string_views(r@).contains(k) <==> exists|i: int|
            is_target(names@.len() as int, marked@, selected, i) && #[trigger] names@[i]@ == k by {
            if string_views(picked@).contains(k) {
                let q = choose|q: int| 0 <= q < string_views(picked@).len() && string_views(picked@)[q] == k;
                assert(picked@[q]@ == k);
                let i = rows@[q] as int;
                assert(rows@.contains(rows@[q]));
                assert(is_target(names@.len() as int, marked@, selected, i));
                assert(names@[i]@ == k);
            }
            if exists|i: int| is_target(names@.len() as int, marked@, selected, i) && #[trigger] names@[i]@ == k {
                let i = choose|i: int| is_target(names@.len() as int, marked@, selected, i) && #[trigger] names@[i]@ == k;
                assert(rows@.contains(i as usize));
                let q = choose|q: int| 0 <= q < rows@.len() && rows@[q] == i as usize;
                assert(picked@[q]@ == k);
                assert(string_views(picked@)[q] == k);
            }
        }
    }
    r
}

/// Reordering the listing keeps the selection on the entry it was on: after
/// sorting `entries`, the new selected row shows the entry that was
/// selected.
pub proof fn lemma_resort_keeps_selected_entry(entries: Seq<EntryFacts>, mode: SortMode, sizes_on: bool, selected: usize)
    requires
        entries.len() <= usize::MAX,
        selected < entries.len(),
    ensures
        ({
            let order = listing_order_spec(entries.map_values(|e: EntryFacts| key_spec(e, mode, sizes_on)), mode);
            order[kept_selection_spec(order, selected) as int] == selected
        }),
{
    broadcast use vstd::seq_lib::group_to_multiset_ensures;
    let keys = entries.map_values(|e: EntryFacts| key_spec(e, mode, sizes_on));
    let order = listing_order_spec(keys, mode);
    lemma_listing_order_sorted(keys, mode);
    let idx = Seq::new(keys.len(), |i: int| i as usize);
    assert(idx[selected as int] == selected);
    assert(idx.to_multiset().count(selected) > 0);
    assert(order.to_multiset().count(selected) > 0);
    assert(order.contains(selected));
    order.index_of_first_ensures(selected);
}

/// Reordering the listing keeps the marks on the entries they were on: the
/// entries shown on the marked rows after sorting are exactly the marked
/// entries before.
pub proof fn lemma_resort_keeps_marked_entries(entries: Seq<EntryFacts>, mode: SortMode, sizes_on: bool, marked: Seq<usize>)
    requires
        entries.len() <= usize::MAX,
    ensures
        ({
            let order = listing_order_spec(entries.map_values(|e: EntryFacts| key_spec(e, mode, sizes_on)), mode);
            forall|m: usize| (m < entries.len() && marked.contains(m)) <==> exists|j: usize|
                #[trigger] kept_marks_spec(order, marked).contains(j) && order[j as int] == m
        }),
{
    broadcast use vstd::seq_lib::group_to_multiset_ensures;
    let keys = entries.map_values(|e: EntryFacts| key_spec(e, mode, sizes_on));
    let order = listing_order_spec(keys, mode);
    lemma_listing_order_sorted(keys, mode);
    let idx = Seq::new(keys.len(), |i: int| i as usize);
    let kept = kept_marks_spec(order, marked);
    assert forall|m: usize| (m < entries.len() && marked.contains(m)) <==> exists|j: usize|
        #[trigger] kept.contains(j) && order[j as int] == m by {
        if m < entries.len() && marked.contains(m) {
            assert(idx[m as int] == m);
            assert(idx.to_multiset().count(m) > 0);
            assert(order.to_multiset().count(m) > 0);
            assert(order.contains(m));
            let j = choose|j: int| 0 <= j < order.len() && order[j] == m;
            assert(kept.contains(j as usize));
        }
        if exists|j: usize| #[trigger] kept.contains(j) && order[j as int] == m {
            let j = choose|j: usize| #[trigger] kept.contains(j) && order[j as int] == m;
            assert(j < entries.len());
        }
    }
}

/// The two files `delta` compares, or why it cannot: `delta` must be in
/// use, exactly one row marked, both rows in the listing, different, and
/// neither a folder. The marked file goes left, the file under the cursor
/// right.
pub open spec fn delta_pair_spec(
    delta_active: bool,
    marked: Seq<usize>,
    selected: usize,
    is_dir: Seq<bool>,
) -> Result<(usize, usize), Seq<char>> {
    if !delta_active {
        Err("delta not found in PATH"@)
    } else if marked.len() != 1 {
        Err("mark exactly one file, then move cursor to another file and press C"@)
    } else if marked[0] >= is_dir.len() {
        Err("marked file not found"@)
    } else if selected >= is_dir.len() {
        Err("cursor file not found"@)
    } else if marked[0] == selected {
        Err("choose a different cursor file to compare"@)
    } else if is_dir[marked[0] as int] || is_dir[selected as int] {
        Err("delta compare works on files only"@)
    } else {
        Ok((marked[0], selected))
    }
}

/// The two files `delta` compares, or why it cannot (see
/// [`delta_pair_spec`]); `marked` holds each marked row once.
pub fn delta_compare_pair(
    delta_active: bool,
    marked: &Vec<usize>,
    selected: usize,
    is_dir: &Vec<bool>,
) -> (r: Result<(usize, usize), &'static str>)
    requires
        marked@.no_duplicates(),
    ensures
        (match r {
            Ok(p) => Ok(p),
            Err(m) => Err(m@),
        }) == delta_pair_spec(delta_active, marked@, selected, is_dir@),
{
    if !delta_active {
        return Err("delta not found in PATH");
    }
    if marked.len() != 1 {
        return Err("mark exactly one file, then move cursor to another file and press C");
    }
    let m = marked[0];
    if m >= is_dir.len() {
        return Err("marked file not found");
    }
    if selected >= is_dir.len() {
        return Err("cursor file not found");
    }
    if m == selected {
        return Err("choose a different cursor file to compare");
    }
    if is_dir[m] || is_dir[selected] {
        return Err("delta compare works on files only");
    }
    Ok((m, selected))
}

/// The status after a comparison.
pub fn delta_compared_status(left: &str, right: &str) -> (r: String)
    ensures
        r@ == "delta compared: "@ + left@ + " vs "@ + right@,
{
    concat_str(concat_str(concat_str("delta compared: ", left).as_str(), " vs ").as_str(), right)
}

} // verus!
