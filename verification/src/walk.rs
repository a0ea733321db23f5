use vstd::prelude::*;
use crate::sort::{lemma_insert_at, lemma_sort_multiset, lemma_sort_sorted, sort_spec, sorted_by, total_preorder};
use crate::text::{
    chars_of, concat_str, lemma_lex_asymmetric, lemma_lex_total, lemma_lex_transitive, lex_less, lex_lt,
};

verus! {

/// An entry of a directory listing: its name, and whether it is a folder
/// and whether it is a regular file (links followed).
pub struct DirItem {
    pub name: String,
    pub is_dir: bool,
    pub is_file: bool,
}

/// An entry as values.
pub open spec fn item_view(d: DirItem) -> (Seq<char>, bool, bool) {
    (d.name@, d.is_dir, d.is_file)
}

/// Where a walk for search candidates stands: the cap on files, the folders
/// still to read (paths relative to the root, the root itself empty), the
/// files found (relative paths), and whether the cap was reached.
pub struct WalkView {
    pub max_items: usize,
    pub pending: Seq<Seq<char>>,
    pub found: Seq<Seq<char>>,
    pub full: bool,
}

/// Collects the files under a folder for the search overlay, one folder
/// listing at a time: the caller reads the folders it asks for
/// ([`CandidateWalk::next_dir`]) and hands their listings back
/// ([`CandidateWalk::on_listing`]).
pub struct CandidateWalk {
    max_items: usize,
    pending: Vec<String>,
    found: Vec<String>,
    full: bool,
}

/// The path of `name` inside the folder at relative path `dir`.
pub open spec fn child_path(dir: Seq<char>, name: Seq<char>) -> Seq<char> {
    if dir.len() == 0 { name } else { dir + "/"@ + name }
}

/// A name starting with a dot.
pub open spec fn is_hidden(name: Seq<char>) -> bool {
    name.len() > 0 && name[0] == '.'
}

/// One entry of a listing: hidden names are skipped; a folder is queued, a
/// file is found; then the walk stops once the cap is reached. Nothing
/// changes once it has stopped.
pub open spec fn item_step(w: WalkView, dir: Seq<char>, item: (Seq<char>, bool, bool)) -> WalkView {
    if w.full || is_hidden(item.0) {
        w
    } else {
        let w1 = if item.1 {
            WalkView { pending: w.pending.push(child_path(dir, item.0)), ..w }
        } else if item.2 {
            WalkView { found: w.found.push(child_path(dir, item.0)), ..w }
        } else {
            w
        };
        WalkView { full: w1.found.len() >= w1.max_items, ..w1 }
    }
}

/// The entries of a listing, in order.
pub open spec fn listing_steps(w: WalkView, dir: Seq<char>, items: Seq<(Seq<char>, bool, bool)>) -> WalkView
    decreases items.len(),
{
    if items.len() == 0 {
        w
    } else {
        item_step(listing_steps(w, dir, items.drop_last()), dir, items.last())
    }
}

/// A whole listing of folder `dir`: its entries, then the walk stops if the
/// cap is reached.
pub open spec fn after_listing_spec(w: WalkView, dir: Seq<char>, items: Seq<(Seq<char>, bool, bool)>) -> WalkView {
    let w1 = listing_steps(w, dir, items);
    WalkView { full: w1.full || w1.found.len() >= w1.max_items, ..w1 }
}

/// The folder to read next, the one queued last, unless the walk has
/// stopped or none is left.
pub open spec fn next_dir_spec(w: WalkView) -> (WalkView, Option<Seq<char>>) {
    if w.full || w.pending.len() == 0 {
        (w, None)
    } else {
        (WalkView { pending: w.pending.drop_last(), ..w }, Some(w.pending.last()))
    }
}

/// The walk never holds more files than the cap (one, when the cap is 0),
/// and fewer than the cap while it goes on (or none).
pub open spec fn walk_wf(w: WalkView) -> bool {
    &&& w.found.len() <= (if w.max_items == 0 { 1 } else { w.max_items as int })
    &&& !w.full ==> (w.found.len() < w.max_items || w.found.len() == 0)
}

/// The order candidates are listed in: by path, character by character.
pub open spec fn path_le(a: Seq<char>, b: Seq<char>) -> bool {
    !lex_lt(b, a)
}

proof fn lemma_path_le_total_preorder()
    ensures
        total_preorder(|a: Seq<char>, b: Seq<char>| path_le(a, b)),
{
    let le = |a: Seq<char>, b: Seq<char>| path_le(a, b);
    assert forall|a: Seq<char>, b: Seq<char>| #[trigger] le(a, b) || le(b, a) by {
        lemma_lex_total(a, b);
        if lex_lt(a, b) {
            lemma_lex_asymmetric(a, b);
        }
    }
    assert forall|a: Seq<char>, b: Seq<char>, c: Seq<char>| #[trigger] le(a, b) && #[trigger] le(b, c) implies le(a, c) by {
        if lex_lt(c, a) {
            lemma_lex_total(b, a);
            lemma_lex_total(c, b);
            if lex_lt(b, a) {
                lemma_lex_asymmetric(b, a);
            }
            if lex_lt(c, b) {
                lemma_lex_asymmetric(c, b);
            }
            if a == b {
                assert(lex_lt(c, b));
            } else if b == c {
                assert(lex_lt(b, a));
            } else {
                lemma_lex_transitive(a, b, c);
                lemma_lex_asymmetric(a, c);
            }
        }
    }
}

proof fn lemma_item_step_wf(w: WalkView, dir: Seq<char>, item: (Seq<char>, bool, bool))
    requires
        walk_wf(w),
    ensures
        walk_wf(item_step(w, dir, item)),
        item_step(w, dir, item).max_items == w.max_items,
{
}

impl CandidateWalk {
    /// The walk as values.
    pub closed spec fn view(&self) -> WalkView {
        WalkView {
            max_items: self.max_items,
            pending: self.pending@.map_values(|s: String| s@),
            found: self.found@.map_values(|s: String| s@),
            full: self.full,
        }
    }

    /// A walk of the root with cap `max_items`: only the root is queued.
    pub fn new(max_items: usize) -> (r: CandidateWalk)
        ensures
            r.view() == (WalkView { max_items, pending: seq![Seq::empty()], found: Seq::empty(), full: false }),
            walk_wf(r.view()),
    {
        let mut pending: Vec<String> = Vec::new();
        pending.push(String::new());
        let r = CandidateWalk { max_items, pending, found: Vec::new(), full: false };
        assert(r.view().pending =~= seq![Seq::<char>::empty()]);
        assert(r.view().found =~= Seq::<Seq<char>>::empty());
        r
    }

    /// The folder to read next (see [`next_dir_spec`]).
    pub fn next_dir(&mut self) -> (r: Option<String>)
        requires
            walk_wf(old(self).view()),
        ensures
            (final(self).view(), match r {
                Some(d) => Some(d@),
                None => None,
            }) == next_dir_spec(old(self).view()),
            walk_wf(final(self).view()),
    {
        if self.full || self.pending.len() == 0 {
            return None;
        }
        let ghost before = self.pending@;
        let d = self.pending.pop().unwrap();
        proof {
            assert(self.pending@ =~= before.drop_last());
            assert(self.view().pending =~= before.map_values(|s: String| s@).drop_last());
        }
        Some(d)
    }

    fn child(dir: &str, name: &str) -> (r: String)
        ensures
            r@ == child_path(dir@, name@),
    {
        let d = chars_of(dir);
        if d.len() == 0 {
            name.to_string()
        } else {
            concat_str(concat_str(dir, "/").as_str(), name)
        }
    }

    /// Takes the listing of folder `dir` (see [`after_listing_spec`]).
    pub fn on_listing(&mut self, dir: &str, items: &Vec<DirItem>)
        requires
            walk_wf(old(self).view()),
        ensures
            final(self).view() == after_listing_spec(
                old(self).view(),
                dir@,
                items@.map_values(|d: DirItem| item_view(d)),
            ),
            walk_wf(final(self).view()),
    {
        let ghost start = self.view();
        let ghost iv = items@.map_values(|d: DirItem| item_view(d));
        let mut i: usize = 0;
        assert(iv.take(0) =~= Seq::<(Seq<char>, bool, bool)>::empty());
        while i < items.len()
            invariant
                i <= items@.len(),
                iv == items@.map_values(|d: DirItem| item_view(d)),
                self.view() == listing_steps(start, dir@, iv.take(i as int)),
                walk_wf(self.view()),
                self.max_items == start.max_items,
            decreases items.len() - i,
        {
            let item = &items[i];
            let ghost w = self.view();
            proof {
                assert(iv.take(i + 1).drop_last() =~= iv.take(i as int));
                assert(iv.take(i + 1).last() == item_view(*item));
                lemma_item_step_wf(w, dir@, item_view(*item));
            }
            let n = chars_of(item.name.as_str());
            let hidden = n.len() > 0 && n[0] == '.';
            if !self.full && !hidden {
                if item.is_dir {
                    let ghost p = self.pending@;
                    self.pending.push(Self::child(dir, item.name.as_str()));
                    assert(self.view().pending =~= p.map_values(|s: String| s@).push(child_path(dir@, item.name@)));
                } else if item.is_file {
                    let ghost f = self.found@;
                    self.found.push(Self::child(dir, item.name.as_str()));
                    assert(self.view().found =~= f.map_values(|s: String| s@).push(child_path(dir@, item.name@)));
                }
                self.full = self.found.len() >= self.max_items;
            }
            assert(self.view() == item_step(w, dir@, item_view(*item)));
            i = i + 1;
        }
        assert(iv.take(items.len() as int) =~= iv);
        if self.found.len() >= self.max_items {
            self.full = true;
        }
    }

    /// The files found, ordered by path; every file found is listed once.
    pub fn finish(&self) -> (r: Vec<String>)
        ensures
            r@.map_values(|s: String| s@) == sort_spec(self.view().found, |a: Seq<char>, b: Seq<char>| path_le(a, b)),
            sorted_by(r@.map_values(|s: String| s@), |a: Seq<char>, b: Seq<char>| path_le(a, b)),
            r@.map_values(|s: String| s@).to_multiset() == self.view().found.to_multiset(),
    {
        let ghost le = |a: Seq<char>, b: Seq<char>| path_le(a, b);
        let ghost fv = self.view().found;
        let mut r: Vec<String> = Vec::new();
        let mut i: usize = 0;
        assert(fv.take(0) =~= Seq::<Seq<char>>::empty());
        assert(r@.map_values(|s: String| s@) =~= Seq::<Seq<char>>::empty());
        while i < self.found.len()
            invariant
                i <= self.found@.len(),
                fv == self.found@.map_values(|s: String| s@),
                le == (|a: Seq<char>, b: Seq<char>| path_le(a, b)),
                r@.map_values(|s: String| s@) == sort_spec(fv.take(i as int), le),
            decreases self.found.len() - i,
        {
            let x = self.found[i].clone();
            let xc = chars_of(x.as_str());
            let mut j = r.len();
            while j > 0 && lex_less(xc.as_slice(), chars_of(r[j - 1].as_str()).as_slice())
                invariant
                    j <= r@.len(),
                    xc@ == x@,
                    le == (|a: Seq<char>, b: Seq<char>| path_le(a, b)),
                    forall|k: int| j <= k < r@.len() ==> !le(#[trigger] r@[k]@, x@),
                decreases j,
            {
                j = j - 1;
            }
            let ghost rv = r@.map_values(|s: String| s@);
            proof {
                if j > 0 {
                    assert(rv[j - 1] == r@[j - 1]@);
                }
                assert forall|k: int| j <= k < rv.len() implies !le(#[trigger] rv[k], x@) by {
                    assert(rv[k] == r@[k]@);
                }
                lemma_insert_at(rv, x@, le, j as int);
                assert(fv.take(i + 1).drop_last() =~= fv.take(i as int));
                assert(fv.take(i + 1).last() == x@);
            }
            r.insert(j, x);
            assert(r@.map_values(|s: String| s@) =~= rv.insert(j as int, x@));
            i = i + 1;
        }
        proof {
            assert(fv.take(self.found@.len() as int) =~= fv);
            lemma_path_le_total_preorder();
            lemma_sort_sorted(fv, le);
            lemma_sort_multiset(fv, le);
        }
        r
    }
}

} // verus!
