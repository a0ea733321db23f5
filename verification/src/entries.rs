use vstd::prelude::*;
use crate::nav::{clamp_selection, clamp_selection_spec};
use crate::sort::{
    lemma_insert_at, lemma_sort_multiset, lemma_sort_sorted, order_int, sort_spec, then_order,
    total_preorder,
};
use crate::text::{
    ascii_lower_chars, ascii_lower_seq, chars_eq, chars_of, lemma_order_seq, lemma_order_seq_trans,
    lex_less, order_seq,
};
use crate::filetypes::{extension_of, extension_spec};

verus! {

/// The orders the listing can be sorted in.
#[derive(Clone, Copy, PartialEq, Eq, Structural, Debug)]
pub enum SortMode {
    NameAsc,
    NameDesc,
    ExtensionAsc,
    SizeAsc,
    SizeDesc,
    ModifiedNewest,
    ModifiedOldest,
}

/// The name shown for a sort order.
pub open spec fn sort_label_spec(m: SortMode) -> Seq<char> {
    match m {
        SortMode::NameAsc => "Name (A-Z)"@,
        SortMode::NameDesc => "Name (Z-A)"@,
        SortMode::ExtensionAsc => "Extension (A-Z)"@,
        SortMode::SizeAsc => "Size (Small-Large)"@,
        SortMode::SizeDesc => "Size (Large-Small)"@,
        SortMode::ModifiedNewest => "Modified (Newest)"@,
        SortMode::ModifiedOldest => "Modified (Oldest)"@,
    }
}

/// Position of a sort order in the sort menu.
pub open spec fn sort_index_spec(m: SortMode) -> usize {
    match m {
        SortMode::NameAsc => 0,
        SortMode::NameDesc => 1,
        SortMode::ExtensionAsc => 2,
        SortMode::SizeAsc => 3,
        SortMode::SizeDesc => 4,
        SortMode::ModifiedNewest => 5,
        SortMode::ModifiedOldest => 6,
    }
}

impl SortMode {
    /// The name shown for a sort order.
    pub fn label(self) -> (r: &'static str)
        ensures
            r@ == sort_label_spec(self),
    {
        match self {
            SortMode::NameAsc => "Name (A-Z)",
            SortMode::NameDesc => "Name (Z-A)",
            SortMode::ExtensionAsc => "Extension (A-Z)",
            SortMode::SizeAsc => "Size (Small-Large)",
            SortMode::SizeDesc => "Size (Large-Small)",
            SortMode::ModifiedNewest => "Modified (Newest)",
            SortMode::ModifiedOldest => "Modified (Oldest)",
        }
    }
}

/// The sort orders in menu order.
pub fn sort_mode_options() -> (r: Vec<SortMode>)
    ensures
        r@.len() == 7,
        forall|i: int| 0 <= i < 7 ==> sort_index_spec(#[trigger] r@[i]) == i,
{
    let mut v: Vec<SortMode> = Vec::new();
    v.push(SortMode::NameAsc);
    v.push(SortMode::NameDesc);
    v.push(SortMode::ExtensionAsc);
    v.push(SortMode::SizeAsc);
    v.push(SortMode::SizeDesc);
    v.push(SortMode::ModifiedNewest);
    v.push(SortMode::ModifiedOldest);
    v
}

/// Position of a sort order in the sort menu.
pub fn sort_mode_index(mode: SortMode) -> (r: usize)
    ensures
        r == sort_index_spec(mode),
{
    match mode {
        SortMode::NameAsc => 0,
        SortMode::NameDesc => 1,
        SortMode::ExtensionAsc => 2,
        SortMode::SizeAsc => 3,
        SortMode::SizeDesc => 4,
        SortMode::ModifiedNewest => 5,
        SortMode::ModifiedOldest => 6,
    }
}

/// The sort order chosen in the menu, if the selection is on one.
pub fn sort_mode_at(selected: usize) -> (r: Option<SortMode>)
    ensures
        match r {
            Some(m) => selected < 7 && sort_index_spec(m) == selected,
            None => selected >= 7,
        },
{
    let opts = sort_mode_options();
    if selected < opts.len() {
        Some(opts[selected])
    } else {
        None
    }
}

/// What the listing knows of an entry: its name, whether it is a directory,
/// its size, its modification time in Unix seconds (0 when unknown) and,
/// for a directory, its computed size when one is cached.
pub struct EntryFacts {
    pub name: String,
    pub is_dir: bool,
    pub len: u64,
    pub modified: u64,
    pub folder_size: Option<u64>,
}

/// The keys an entry is sorted by.
pub struct SortKey {
    pub is_dir: bool,
    pub name: Vec<char>,
    pub ext: Vec<char>,
    pub size: u64,
    pub time: u64,
}

/// The keys as values.
pub struct SortKeyView {
    pub is_dir: bool,
    pub name: Seq<char>,
    pub ext: Seq<char>,
    pub size: u64,
    pub time: u64,
}

impl SortKey {
    pub open spec fn view(&self) -> SortKeyView {
        SortKeyView { is_dir: self.is_dir, name: self.name@, ext: self.ext@, size: self.size, time: self.time }
    }
}

/// The size an entry is sorted by: for size orders a directory counts with
/// its cached size (0 without one, or when sizes are off); otherwise the
/// entry's own size.
pub open spec fn sort_size_spec(e: EntryFacts, mode: SortMode, sizes_on: bool) -> u64 {
    if (mode == SortMode::SizeAsc || mode == SortMode::SizeDesc) && e.is_dir {
        if sizes_on {
            match e.folder_size {
                Some(s) => s,
                None => 0,
            }
        } else {
            0
        }
    } else {
        e.len
    }
}

/// The sort keys of an entry.
pub open spec fn key_spec(e: EntryFacts, mode: SortMode, sizes_on: bool) -> SortKeyView {
    SortKeyView {
        is_dir: e.is_dir,
        name: ascii_lower_seq(e.name@),
        ext: match extension_spec(e.name@) {
            Some(x) => ascii_lower_seq(x),
            None => Seq::empty(),
        },
        size: sort_size_spec(e, mode, sizes_on),
        time: e.modified,
    }
}

/// Builds the sort keys of an entry.
pub fn sort_key(e: &EntryFacts, mode: SortMode, sizes_on: bool) -> (k: SortKey)
    ensures
        k.view() == key_spec(*e, mode, sizes_on),
{
    let n = chars_of(e.name.as_str());
    let name = ascii_lower_chars(&n);
    let ext = match extension_of(&n) {
        Some(x) => ascii_lower_chars(&x),
        None => Vec::new(),
    };
    let size = if (mode == SortMode::SizeAsc || mode == SortMode::SizeDesc) && e.is_dir {
        if sizes_on {
            match e.folder_size {
                Some(s) => s,
                None => 0,
            }
        } else {
            0
        }
    } else {
        e.len
    };
    let k = SortKey { is_dir: e.is_dir, name, ext, size, time: e.modified };
    assert(k.view().ext == key_spec(*e, mode, sizes_on).ext);
    k
}

/// How two entries compare: directories first, then by the sort order, with
/// the name breaking ties.
pub open spec fn entry_order(a: SortKeyView, b: SortKeyView, mode: SortMode) -> int {
    let type_ord = if a.is_dir == b.is_dir {
        0int
    } else if a.is_dir {
        -1int
    } else {
        1int
    };
    let by_mode = match mode {
        SortMode::NameAsc => order_seq(a.name, b.name),
        SortMode::NameDesc => order_seq(b.name, a.name),
        SortMode::ExtensionAsc => then_order(order_seq(a.ext, b.ext), order_seq(a.name, b.name)),
        SortMode::SizeAsc => then_order(order_int(a.size as int, b.size as int), order_seq(a.name, b.name)),
        SortMode::SizeDesc => then_order(order_int(b.size as int, a.size as int), order_seq(a.name, b.name)),
        SortMode::ModifiedNewest => then_order(order_int(b.time as int, a.time as int), order_seq(a.name, b.name)),
        SortMode::ModifiedOldest => then_order(order_int(a.time as int, b.time as int), order_seq(a.name, b.name)),
    };
    then_order(type_ord, by_mode)
}

/// Entry `a` may stay before entry `b` (indices into `keys`; an index past
/// the end counts after every entry).
pub open spec fn entry_le(keys: Seq<SortKeyView>, mode: SortMode, a: usize, b: usize) -> bool {
    if a < keys.len() && b < keys.len() {
        entry_order(keys[a as int], keys[b as int], mode) != 1
    } else {
        b >= keys.len()
    }
}

/// The listing order: the stable sort of the entry indices by [`entry_order`].
pub open spec fn listing_order_spec(keys: Seq<SortKeyView>, mode: SortMode) -> Seq<usize> {
    sort_spec(
        Seq::new(keys.len(), |i: int| i as usize),
        |a: usize, b: usize| entry_le(keys, mode, a, b),
    )
}

fn order_chars(a: &Vec<char>, b: &Vec<char>) -> (r: i8)
    ensures
        r as int == order_seq(a@, b@),
{
    if chars_eq(a.as_slice(), b.as_slice()) {
        0
    } else if lex_less(a.as_slice(), b.as_slice()) {
        -1
    } else {
        1
    }
}

fn order_num(a: u64, b: u64) -> (r: i8)
    ensures
        r as int == order_int(a as int, b as int),
{
    if a < b {
        -1
    } else if a == b {
        0
    } else {
        1
    }
}

fn entry_order_exec(a: &SortKey, b: &SortKey, mode: SortMode) -> (r: i8)
    ensures
        r as int == entry_order(a.view(), b.view(), mode),
{
    if a.is_dir != b.is_dir {
        return if a.is_dir {
            -1
        } else {
            1
        };
    }
    match mode {
        SortMode::NameAsc => order_chars(&a.name, &b.name),
        SortMode::NameDesc => order_chars(&b.name, &a.name),
        SortMode::ExtensionAsc => {
            let c = order_chars(&a.ext, &b.ext);
            if c != 0 {
                c
            } else {
                order_chars(&a.name, &b.name)
            }
        },
        SortMode::SizeAsc => {
            let c = order_num(a.size, b.size);
            if c != 0 {
                c
            } else {
                order_chars(&a.name, &b.name)
            }
        },
        SortMode::SizeDesc => {
            let c = order_num(b.size, a.size);
            if c != 0 {
                c
            } else {
                order_chars(&a.name, &b.name)
            }
        },
        SortMode::ModifiedNewest => {
            let c = order_num(b.time, a.time);
            if c != 0 {
                c
            } else {
                order_chars(&a.name, &b.name)
            }
        },
        SortMode::ModifiedOldest => {
            let c = order_num(a.time, b.time);
            if c != 0 {
                c
            } else {
                order_chars(&a.name, &b.name)
            }
        },
    }
}

/// The order in which the listing shows `entries`: a permutation of their
/// indices, directories first, then by `mode` (see [`entry_order`]), stable
/// for entries that compare equal. `sizes_on`: folder sizes are computed.
pub fn sort_entries_by_mode(entries: &Vec<EntryFacts>, mode: SortMode, sizes_on: bool) -> (r: Vec<usize>)
    ensures
        r@ == listing_order_spec(
            entries@.map_values(|e: EntryFacts| key_spec(e, mode, sizes_on)),
            mode,
        ),
{
    let ghost kv = entries@.map_values(|e: EntryFacts| key_spec(e, mode, sizes_on));
    let mut keys: Vec<SortKey> = Vec::new();
    let mut i: usize = 0;
    while i < entries.len()
        invariant
            i <= entries.len(),
            kv == entries@.map_values(|e: EntryFacts| key_spec(e, mode, sizes_on)),
            keys@.len() == i,
            forall|k: int| 0 <= k < i ==> (#[trigger] keys@[k]).view() == kv[k],
        decreases entries.len() - i,
    {
        keys.push(sort_key(&entries[i], mode, sizes_on));
        i = i + 1;
    }
    let ghost le = |a: usize, b: usize| entry_le(kv, mode, a, b);
    let ghost idx = Seq::new(kv.len(), |q: int| q as usize);
    let mut r: Vec<usize> = Vec::new();
    let mut n: usize = 0;
    assert(idx.take(0) =~= Seq::<usize>::empty());
    while n < keys.len()
        invariant
            n <= keys.len(),
            keys@.len() == kv.len(),
            forall|k: int| 0 <= k < keys@.len() ==> (#[trigger] keys@[k]).view() == kv[k],
            idx == Seq::new(kv.len(), |q: int| q as usize),
            le == (|a: usize, b: usize| entry_le(kv, mode, a, b)),
            r@ == sort_spec(idx.take(n as int), le),
            forall|k: int| 0 <= k < r@.len() ==> (#[trigger] r@[k]) < n,
            r@.len() == n,
        decreases keys.len() - n,
    {
        let mut j = r.len();
        while j > 0 && entry_order_exec(&keys[r[j - 1]], &keys[n], mode) == 1
            invariant
                j <= r.len(),
                n < keys.len(),
                keys@.len() == kv.len(),
                forall|k: int| 0 <= k < keys@.len() ==> (#[trigger] keys@[k]).view() == kv[k],
                forall|k: int| 0 <= k < r@.len() ==> (#[trigger] r@[k]) < n,
                le == (|a: usize, b: usize| entry_le(kv, mode, a, b)),
                forall|k: int| j <= k < r@.len() ==> !le(#[trigger] r@[k], n),
            decreases j,
        {
            j = j - 1;
        }
        proof {
            if j > 0 {
                assert(keys@[r@[j - 1] as int].view() == kv[r@[j - 1] as int]);
                assert(le(r@[j - 1], n));
            }
            lemma_insert_at(r@, n, le, j as int);
            assert(idx.take(n + 1).drop_last() =~= idx.take(n as int));
            assert(idx.take(n + 1).last() == n);
        }
        let ghost r0 = r@;
        r.insert(j, n);
        proof {
            assert forall|k: int| 0 <= k < r@.len() implies (#[trigger] r@[k]) < n + 1 by {
                if k < j {
                    assert(r@[k] == r0[k]);
                } else if k > j {
                    assert(r@[k] == r0[k - 1]);
                }
            }
        }
        n = n + 1;
    }
    assert(idx.take(keys.len() as int) =~= idx);
    r
}

proof fn lemma_entry_order_flip(a: SortKeyView, b: SortKeyView, mode: SortMode)
    ensures
        entry_order(a, b, mode) == -entry_order(b, a, mode),
        -1 <= entry_order(a, b, mode) <= 1,
{
    lemma_order_seq(a.name, b.name);
    lemma_order_seq(a.ext, b.ext);
}

proof fn lemma_entry_order_trans(a: SortKeyView, b: SortKeyView, c: SortKeyView, mode: SortMode)
    requires
        entry_order(a, b, mode) != 1,
        entry_order(b, c, mode) != 1,
    ensures
        entry_order(a, c, mode) != 1,
{
    lemma_order_seq(a.name, b.name);
    lemma_order_seq(b.name, c.name);
    lemma_order_seq(a.name, c.name);
    lemma_order_seq(a.ext, b.ext);
    lemma_order_seq(b.ext, c.ext);
    lemma_order_seq(a.ext, c.ext);
    if order_seq(a.name, b.name) != 1 && order_seq(b.name, c.name) != 1 {
        lemma_order_seq_trans(a.name, b.name, c.name);
    }
    if order_seq(b.name, a.name) != 1 && order_seq(c.name, b.name) != 1 {
        lemma_order_seq_trans(c.name, b.name, a.name);
    }
    if order_seq(a.ext, b.ext) != 1 && order_seq(b.ext, c.ext) != 1 {
        lemma_order_seq_trans(a.ext, b.ext, c.ext);
    }
}

proof fn lemma_entry_le_total_preorder(keys: Seq<SortKeyView>, mode: SortMode)
    ensures
        total_preorder(|a: usize, b: usize| entry_le(keys, mode, a, b)),
{
    let le = |a: usize, b: usize| entry_le(keys, mode, a, b);
    assert forall|a: usize, b: usize| #[trigger] le(a, b) || le(b, a) by {
        if a < keys.len() && b < keys.len() {
            lemma_entry_order_flip(keys[a as int], keys[b as int], mode);
        }
    }
    assert forall|a: usize, b: usize, c: usize| #[trigger] le(a, b) && #[trigger] le(b, c) implies le(a, c) by {
        if a < keys.len() && b < keys.len() && c < keys.len() {
            lemma_entry_order_trans(keys[a as int], keys[b as int], keys[c as int], mode);
        }
    }
}

/// The listing order holds every entry index exactly once, and no entry in
/// it compares after a later one: directories come first, then the order of
/// `mode`, names breaking ties.
pub proof fn lemma_listing_order_sorted(keys: Seq<SortKeyView>, mode: SortMode)
    ensures
        listing_order_spec(keys, mode).len() == keys.len(),
        listing_order_spec(keys, mode).to_multiset()
            == Seq::new(keys.len(), |i: int| i as usize).to_multiset(),
        forall|i: int| 0 <= i < keys.len() ==> #[trigger] listing_order_spec(keys, mode)[i] < keys.len(),
        forall|i: int, j: int|
            0 <= i < j < keys.len() ==> entry_order(
                keys[#[trigger] listing_order_spec(keys, mode)[i] as int],
                keys[#[trigger] listing_order_spec(keys, mode)[j] as int],
                mode,
            ) != 1,
{
    broadcast use vstd::seq_lib::group_to_multiset_ensures;
    let idx = Seq::new(keys.len(), |i: int| i as usize);
    let le = |a: usize, b: usize| entry_le(keys, mode, a, b);
    let r = listing_order_spec(keys, mode);
    lemma_sort_multiset(idx, le);
    lemma_entry_le_total_preorder(keys, mode);
    lemma_sort_sorted(idx, le);
    assert forall|i: int| 0 <= i < keys.len() implies #[trigger] r[i] < keys.len() by {
        assert(r.to_multiset().count(r[i]) > 0);
        assert(idx.to_multiset().count(r[i]) > 0);
        assert(idx.contains(r[i]));
    }
    assert forall|i: int, j: int| 0 <= i < j < keys.len() implies entry_order(
        keys[#[trigger] r[i] as int],
        keys[#[trigger] r[j] as int],
        mode,
    ) != 1 by {
        assert(r[i] < keys.len() && r[j] < keys.len());
        assert(le(r[i], r[j]));
    }
}


/// A hidden name: one that starts with `.`.
pub open spec fn is_hidden_name(name: Seq<char>) -> bool {
    name.len() > 0 && name[0] == '.'
}

/// Whether the listing shows the entry named `name`.
pub open spec fn shown(name: Seq<char>, show_hidden: bool) -> bool {
    show_hidden || !is_hidden_name(name)
}

/// The entries the listing shows, by index, in the folder's order.
pub open spec fn shown_indices(entries: Seq<EntryFacts>, show_hidden: bool) -> Seq<usize> {
    Seq::new(entries.len(), |i: int| i as usize).filter(|i: usize| shown(entries[i as int].name@, show_hidden))
}

/// The rows of a refreshed listing: the shown entries (hidden ones only
/// with `show_hidden`), put in listing order (see
/// [`sort_entries_by_mode`]), by their index among all entries.
pub open spec fn listing_rows_spec(entries: Seq<EntryFacts>, mode: SortMode, sizes_on: bool, show_hidden: bool) -> Seq<usize> {
    let vis = shown_indices(entries, show_hidden);
    listing_order_spec(vis.map_values(|i: usize| key_spec(entries[i as int], mode, sizes_on)), mode).map_values(
        |j: usize| vis[j as int],
    )
}

/// A refreshed listing: its rows (see [`listing_rows_spec`]) and the
/// selection kept on them (see [`clamp_selection_spec`]).
pub fn refresh_listing(entries: &Vec<EntryFacts>, mode: SortMode, sizes_on: bool, show_hidden: bool, selected: usize) -> (r: (Vec<usize>, usize))
    ensures
        r.0@ == listing_rows_spec(entries@, mode, sizes_on, show_hidden),
        r.1 == clamp_selection_spec(selected, r.0@.len() as usize),
        forall|k: int| 0 <= k < r.0@.len() ==> r.0@[k] < entries@.len(),
        forall|k: int| 0 <= k < r.0@.len() ==> shown(entries@[#[trigger] r.0@[k] as int].name@, show_hidden),
{
    let ghost pred = |i: usize| shown(entries@[i as int].name@, show_hidden);
    let ghost all = Seq::new(entries@.len(), |i: int| i as usize);
    let mut vis: Vec<usize> = Vec::new();
    let mut visible: Vec<EntryFacts> = Vec::new();
    let mut i: usize = 0;
    while i < entries.len()
        invariant
            i <= entries@.len(),
            pred == (|i: usize| shown(entries@[i as int].name@, show_hidden)),
            all == Seq::new(entries@.len(), |i: int| i as usize),
            vis@ == all.take(i as int).filter(pred),
            visible@.len() == vis@.len(),
            forall|k: int| 0 <= k < vis@.len() ==> #[trigger] vis@[k] < entries@.len(),
            forall|k: int| 0 <= k < vis@.len() ==> #[trigger] visible@[k] == entries@[vis@[k] as int],
        decreases entries.len() - i,
    {
        proof {
            assert(all.take(i + 1).drop_last() =~= all.take(i as int));
            assert(all.take(i + 1).last() == i);
            reveal(Seq::filter);
        }
        let cs = chars_of(entries[i].name.as_str());
        let hidden = cs.len() > 0 && cs[0] == '.';
        if show_hidden || !hidden {
            let e = &entries[i];
            let copy = EntryFacts {
                name: e.name.clone(),
                is_dir: e.is_dir,
                len: e.len,
                modified: e.modified,
                folder_size: e.folder_size,
            };
            assert(copy == entries@[i as int]);
            visible.push(copy);
            vis.push(i);
        }
        i = i + 1;
    }
    proof {
        assert(all.take(entries@.len() as int) =~= all);
        broadcast use vstd::seq_lib::group_filter_ensures;
        assert(forall|q: int| 0 <= q < vis@.len() ==> pred(#[trigger] vis@[q]));
    }
    let order = sort_entries_by_mode(&visible, mode, sizes_on);
    let ghost kv = visible@.map_values(|e: EntryFacts| key_spec(e, mode, sizes_on));
    proof {
        assert(kv =~= vis@.map_values(|i: usize| key_spec(entries@[i as int], mode, sizes_on)));
        lemma_listing_order_sorted(kv, mode);
    }
    let mut rows: Vec<usize> = Vec::new();
    let mut k: usize = 0;
    while k < order.len()
        invariant
            k <= order@.len(),
            order@.len() == vis@.len(),
            forall|q: int| 0 <= q < order@.len() ==> #[trigger] order@[q] < vis@.len(),
            forall|q: int| 0 <= q < vis@.len() ==> #[trigger] vis@[q] < entries@.len(),
            forall|q: int| 0 <= q < vis@.len() ==> shown(entries@[#[trigger] vis@[q] as int].name@, show_hidden),
            rows@ == order@.take(k as int).map_values(|j: usize| vis@[j as int]),
        decreases order.len() - k,
    {
        let j = order[k];
        rows.push(vis[j]);
        proof {
            assert(order@.take(k + 1) =~= order@.take(k as int).push(j));
        }
        k = k + 1;
    }
    proof {
        assert(order@.take(order@.len() as int) =~= order@);
    }
    let sel = clamp_selection(selected, rows.len());
    (rows, sel)
}


/// The listing order puts folders before files; and among two folders or
/// two files, a size order goes by the size it sorts by (smallest first
/// for `SizeAsc`, largest first for `SizeDesc`) and a time order by the
/// modification time (newest first for `ModifiedNewest`, oldest first for
/// `ModifiedOldest`).
pub proof fn lemma_listing_order_keys(entries: Seq<EntryFacts>, mode: SortMode, sizes_on: bool, i: int, j: int)
    requires
        0 <= i < j < entries.len(),
    ensures
        ({
            let r = listing_order_spec(entries.map_values(|e: EntryFacts| key_spec(e, mode, sizes_on)), mode);
            let a = entries[r[i] as int];
            let b = entries[r[j] as int];
            &&& r[i] < entries.len() && r[j] < entries.len()
            &&& a.is_dir || !b.is_dir
            &&& a.is_dir == b.is_dir && mode == SortMode::SizeAsc ==> sort_size_spec(a, mode, sizes_on) <= sort_size_spec(b, mode, sizes_on)
            &&& a.is_dir == b.is_dir && mode == SortMode::SizeDesc ==> sort_size_spec(a, mode, sizes_on) >= sort_size_spec(b, mode, sizes_on)
            &&& a.is_dir == b.is_dir && mode == SortMode::ModifiedNewest ==> a.modified >= b.modified
            &&& a.is_dir == b.is_dir && mode == SortMode::ModifiedOldest ==> a.modified <= b.modified
        }),
{
    let keys = entries.map_values(|e: EntryFacts| key_spec(e, mode, sizes_on));
    lemma_listing_order_sorted(keys, mode);
    let r = listing_order_spec(keys, mode);
    assert(r[i] < keys.len() && r[j] < keys.len());
    assert(entry_order(keys[r[i] as int], keys[r[j] as int], mode) != 1);
    assert(keys[r[i] as int] == key_spec(entries[r[i] as int], mode, sizes_on));
    assert(keys[r[j] as int] == key_spec(entries[r[j] as int], mode, sizes_on));
}

} // verus!
