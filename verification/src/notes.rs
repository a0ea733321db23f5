use vstd::prelude::*;
use crate::text::{
    lemma_take_push_contains,
    chars_of, chars_eq, find_char, find_char_exec, lemma_lex_irreflexive,
    lemma_lex_total, lemma_lex_transitive, lemma_lines_terminated_join, lex_less, lex_lt,
    lines_chars, lines_spec, slice_chars, string_from_chars, strip_cr, terminated_join, trim,
    trim_chars, views,
};

verus! {

/// How one char of a note field is written to the notes file.
pub open spec fn escape_char(c: char) -> Seq<char> {
    if c == '\\' {
        seq!['\\', '\\']
    } else if c == '\t' {
        seq!['\\', 't']
    } else if c == '\n' {
        seq!['\\', 'n']
    } else if c == '\r' {
        seq!['\\', 'r']
    } else {
        seq![c]
    }
}

/// The escaped form of a whole note field.
pub open spec fn escape_spec(s: Seq<char>) -> Seq<char>
    decreases s.len(),
{
    if s.len() == 0 {
        Seq::empty()
    } else {
        escape_char(s[0]) + escape_spec(s.drop_first())
    }
}

/// The field that an escaped text stands for, or `None` for a dangling or
/// unknown escape.
pub open spec fn unescape_spec(s: Seq<char>) -> Option<Seq<char>>
    decreases s.len(),
{
    if s.len() == 0 {
        Some(Seq::empty())
    } else if s[0] != '\\' {
        match unescape_spec(s.drop_first()) {
            Some(t) => Some(seq![s[0]] + t),
            None => None,
        }
    } else if s.len() < 2 {
        None
    } else {
        let d = if s[1] == '\\' {
            Some('\\')
        } else if s[1] == 't' {
            Some('\t')
        } else if s[1] == 'n' {
            Some('\n')
        } else if s[1] == 'r' {
            Some('\r')
        } else {
            None
        };
        match d {
            Some(c) => match unescape_spec(s.skip(2)) {
                Some(t) => Some(seq![c] + t),
                None => None,
            },
            None => None,
        }
    }
}

pub proof fn lemma_escape_append(a: Seq<char>, b: Seq<char>)
    ensures
        escape_spec(a + b) == escape_spec(a) + escape_spec(b),
    decreases a.len(),
{
    if a.len() == 0 {
        assert(a + b =~= b);
        assert(escape_spec(a) =~= Seq::<char>::empty());
        assert(escape_spec(a) + escape_spec(b) =~= escape_spec(b));
    } else {
        assert((a + b).drop_first() =~= a.drop_first() + b);
        lemma_escape_append(a.drop_first(), b);
        assert((a + b)[0] == a[0]);
        assert(escape_spec(a + b) =~= escape_char(a[0]) + escape_spec(a.drop_first() + b));
        assert(escape_spec(a) + escape_spec(b) =~= escape_char(a[0]) + (escape_spec(
            a.drop_first(),
        ) + escape_spec(b)));
    }
}

/// An escaped field holds no tab, no newline and no carriage return.
pub proof fn lemma_escape_no_separators(s: Seq<char>)
    ensures
        forall|i: int|
            0 <= i < escape_spec(s).len() ==> #[trigger] escape_spec(s)[i] != '\t'
                && escape_spec(s)[i] != '\n' && escape_spec(s)[i] != '\r',
    decreases s.len(),
{
    if s.len() > 0 {
        lemma_escape_no_separators(s.drop_first());
        let e = escape_char(s[0]);
        let r = escape_spec(s.drop_first());
        assert(escape_spec(s) == e + r);
        assert forall|i: int| 0 <= i < escape_spec(s).len() implies #[trigger] escape_spec(s)[i]
            != '\t' && escape_spec(s)[i] != '\n' && escape_spec(s)[i] != '\r' by {
            if i >= e.len() {
                assert(escape_spec(s)[i] == r[i - e.len()]);
            }
        }
    }
}

/// Unescaping gives back every field that escaping wrote.
pub proof fn lemma_unescape_escape(s: Seq<char>)
    ensures
        unescape_spec(escape_spec(s)) == Some(s),
    decreases s.len(),
{
    if s.len() == 0 {
        assert(escape_spec(s) =~= Seq::<char>::empty());
    } else {
        let c = s[0];
        let rest = s.drop_first();
        lemma_unescape_escape(rest);
        let e = escape_spec(s);
        assert(e == escape_char(c) + escape_spec(rest));
        if c == '\\' || c == '\t' || c == '\n' || c == '\r' {
            assert(e.skip(2) =~= escape_spec(rest));
        } else {
            assert(e.drop_first() =~= escape_spec(rest));
        }
        assert(seq![c] + rest =~= s);
    }
}

/// Writes a note field so that it holds no tab and no line break.
pub fn escape_note_field(input: &str) -> (out: String)
    ensures
        out@ == escape_spec(input@),
{
    let s = chars_of(input);
    let out = escape_chars(&s);
    string_from_chars(out.as_slice())
}

/// [`escape_note_field`] on chars.
pub fn escape_chars(s: &Vec<char>) -> (out: Vec<char>)
    ensures
        out@ == escape_spec(s@),
{
    let mut out: Vec<char> = Vec::new();
    let mut i: usize = 0;
    while i < s.len()
        invariant
            i <= s.len(),
            out@ == escape_spec(s@.take(i as int)),
        decreases s.len() - i,
    {
        let c = s[i];
        proof {
            lemma_escape_append(s@.take(i as int), seq![c]);
            assert(s@.take(i + 1) =~= s@.take(i as int) + seq![c]);
            assert(seq![c].drop_first() =~= Seq::<char>::empty());
            assert(escape_spec(seq![c]) =~= escape_char(c) + escape_spec(Seq::<char>::empty()));
        }
        if c == '\\' {
            out.push('\\');
            out.push('\\');
        } else if c == '\t' {
            out.push('\\');
            out.push('t');
        } else if c == '\n' {
            out.push('\\');
            out.push('n');
        } else if c == '\r' {
            out.push('\\');
            out.push('r');
        } else {
            out.push(c);
        }
        i = i + 1;
    }
    assert(s@.take(s.len() as int) =~= s@);
    out
}

proof fn lemma_unescape_step_plain(s: Seq<char>, i: int, r: Seq<char>)
    requires
        0 <= i < s.len(),
        s[i] != '\\',
    ensures
        unescape_spec(s.skip(i)) == match unescape_spec(s.skip(i + 1)) {
            Some(t) => Some(seq![s[i]] + t),
            None => None,
        },
{
    assert(s.skip(i).drop_first() =~= s.skip(i + 1));
}

proof fn lemma_unescape_step_escape(s: Seq<char>, i: int)
    requires
        0 <= i,
        i + 1 < s.len(),
        s[i] == '\\',
    ensures
        s.skip(i).skip(2) == s.skip(i + 2),
        s.skip(i)[1] == s[i + 1],
{
    assert(s.skip(i).skip(2) =~= s.skip(i + 2));
}

/// Reads back a field written by [`escape_note_field`]; `None` when the text
/// ends in a lone backslash or holds an unknown escape.
pub fn unescape_note_field(input: &str) -> (out: Option<String>)
    ensures
        match out {
            Some(o) => unescape_spec(input@) == Some(o@),
            None => unescape_spec(input@).is_none(),
        },
{
    let s = chars_of(input);
    match unescape_chars(&s) {
        Some(o) => Some(string_from_chars(o.as_slice())),
        None => None,
    }
}

/// [`unescape_note_field`] on chars.
pub fn unescape_chars(s: &Vec<char>) -> (out: Option<Vec<char>>)
    ensures
        match out {
            Some(o) => unescape_spec(s@) == Some(o@),
            None => unescape_spec(s@).is_none(),
        },
{
    let mut out: Vec<char> = Vec::new();
    let mut i: usize = 0;
    assert(s@.skip(0) =~= s@);
    while i < s.len()
        invariant
            i <= s.len(),
            match unescape_spec(s@.skip(i as int)) {
                Some(t) => unescape_spec(s@) == Some(out@ + t),
                None => unescape_spec(s@).is_none(),
            },
        decreases s.len() - i,
    {
        let c = s[i];
        if c != '\\' {
            proof {
                lemma_unescape_step_plain(s@, i as int, out@);
                match unescape_spec(s@.skip(i + 1)) {
                    Some(t) => {
                        assert(out@ + (seq![c] + t) =~= out@.push(c) + t);
                    },
                    None => {},
                }
            }
            out.push(c);
            i = i + 1;
        } else {
            if i + 1 >= s.len() {
                assert(s@.skip(i as int)[0] == '\\');
                assert(s@.skip(i as int).len() < 2);
                assert(unescape_spec(s@.skip(i as int)).is_none());
                return None;
            }
            let esc = s[i + 1];
            proof {
                lemma_unescape_step_escape(s@, i as int);
            }
            let d = if esc == '\\' {
                '\\'
            } else if esc == 't' {
                '\t'
            } else if esc == 'n' {
                '\n'
            } else if esc == 'r' {
                '\r'
            } else {
                proof {
                    assert(s@.skip(i as int)[0] == '\\');
                    assert(unescape_spec(s@.skip(i as int)).is_none());
                }
                return None;
            };
            proof {
                match unescape_spec(s@.skip(i + 2)) {
                    Some(t) => {
                        assert(out@ + (seq![d] + t) =~= out@.push(d) + t);
                    },
                    None => {},
                }
            }
            out.push(d);
            i = i + 2;
        }
    }
    proof {
        assert(s@.skip(s.len() as int) =~= Seq::<char>::empty());
        assert(out@ + Seq::<char>::empty() =~= out@);
    }
    Some(out)
}


/// One note: the name of the entry it belongs to, and its text.
pub struct NoteEntry {
    name: Vec<char>,
    note: Vec<char>,
}

/// The notes of one directory, keyed by entry name, kept in name order.
pub struct NoteMap {
    entries: Vec<NoteEntry>,
}

/// The (name, note) pairs of a list of entries.
pub closed spec fn entry_pairs(v: Seq<NoteEntry>) -> Seq<(Seq<char>, Seq<char>)> {
    v.map_values(|e: NoteEntry| (e.name@, e.note@))
}

/// The map that a list of pairs stands for; a later pair overrides an earlier
/// one with the same name.
pub open spec fn pairs_map(s: Seq<(Seq<char>, Seq<char>)>) -> Map<Seq<char>, Seq<char>>
    decreases s.len(),
{
    if s.len() == 0 {
        Map::empty()
    } else {
        pairs_map(s.drop_last()).insert(s.last().0, s.last().1)
    }
}

/// Names strictly increasing.
pub open spec fn names_sorted(s: Seq<(Seq<char>, Seq<char>)>) -> bool {
    forall|i: int, j: int| 0 <= i < j < s.len() ==> lex_lt(#[trigger] s[i].0, #[trigger] s[j].0)
}

pub proof fn lemma_pairs_map(s: Seq<(Seq<char>, Seq<char>)>)
    requires
        names_sorted(s),
    ensures
        forall|i: int|
            0 <= i < s.len() ==> #[trigger] pairs_map(s).contains_key(s[i].0) && pairs_map(s)[s[i].0]
                == s[i].1,
        forall|k: Seq<char>|
            #[trigger] pairs_map(s).contains_key(k) ==> exists|i: int| 0 <= i < s.len() && s[i].0 == k,
    decreases s.len(),
{
    if s.len() > 0 {
        let s0 = s.drop_last();
        assert(names_sorted(s0)) by {
            assert forall|i: int, j: int| 0 <= i < j < s0.len() implies lex_lt(
                #[trigger] s0[i].0,
                #[trigger] s0[j].0,
            ) by {
                assert(s0[i] == s[i] && s0[j] == s[j]);
            }
        }
        lemma_pairs_map(s0);
        let n = s.len() - 1;
        assert forall|i: int|
            0 <= i < s.len() implies #[trigger] pairs_map(s).contains_key(s[i].0) && pairs_map(
                s,
            )[s[i].0] == s[i].1 by {
            if i < n {
                assert(s0[i] == s[i]);
                assert(pairs_map(s0).contains_key(s0[i].0));
                assert(lex_lt(s[i].0, s[n].0));
                lemma_lex_irreflexive(s[n].0);
            }
        }
        assert forall|k: Seq<char>| #[trigger] pairs_map(s).contains_key(k) implies exists|i: int|
            0 <= i < s.len() && s[i].0 == k by {
            if k != s[n].0 {
                assert(pairs_map(s0).contains_key(k));
                let i = choose|i: int| 0 <= i < s0.len() && s0[i].0 == k;
                assert(s[i] == s0[i]);
            }
        }
    }
}

proof fn lemma_pairs_map_eq(s: Seq<(Seq<char>, Seq<char>)>, m: Map<Seq<char>, Seq<char>>)
    requires
        names_sorted(s),
        forall|i: int| 0 <= i < s.len() ==> #[trigger] m.contains_key(s[i].0) && m[s[i].0] == s[i].1,
        forall|k: Seq<char>| #[trigger] m.contains_key(k) ==> exists|i: int| 0 <= i < s.len() && s[i].0 == k,
    ensures
        pairs_map(s) == m,
{
    lemma_pairs_map(s);
    assert forall|k: Seq<char>| #[trigger] pairs_map(s).contains_key(k) <==> m.contains_key(k) by {
        if m.contains_key(k) {
            let i = choose|i: int| 0 <= i < s.len() && s[i].0 == k;
            assert(pairs_map(s).contains_key(s[i].0));
        }
        if pairs_map(s).contains_key(k) {
            let i = choose|i: int| 0 <= i < s.len() && s[i].0 == k;
            assert(m.contains_key(s[i].0));
        }
    }
    assert forall|k: Seq<char>| #[trigger] pairs_map(s).contains_key(k) implies pairs_map(s)[k]
        == m[k] by {
        let i = choose|i: int| 0 <= i < s.len() && s[i].0 == k;
        assert(pairs_map(s)[s[i].0] == s[i].1);
    }
    assert(pairs_map(s) =~= m);
}

impl NoteEntry {
    pub closed spec fn pair(self) -> (Seq<char>, Seq<char>) {
        (self.name@, self.note@)
    }
}

impl NoteMap {
    #[verifier::type_invariant]
    spec fn wf(self) -> bool {
        names_sorted(entry_pairs(self.entries@))
    }

    /// The notes as a map from entry name to note text.
    pub closed spec fn view(&self) -> Map<Seq<char>, Seq<char>> {
        pairs_map(entry_pairs(self.entries@))
    }

    /// The (name, note) pairs in name order.
    pub closed spec fn pairs(&self) -> Seq<(Seq<char>, Seq<char>)> {
        entry_pairs(self.entries@)
    }

    /// An empty set of notes.
    pub fn new() -> (m: NoteMap)
        ensures
            m.view() == Map::<Seq<char>, Seq<char>>::empty(),
            m.pairs().len() == 0,
    {
        let m = NoteMap { entries: Vec::new() };
        assert(entry_pairs(m.entries@) =~= Seq::<(Seq<char>, Seq<char>)>::empty());
        m
    }

    /// Number of notes.
    pub fn len(&self) -> (n: usize)
        ensures
            n == self.pairs().len(),
    {
        self.entries.len()
    }

    /// Position of the first note whose name is not before `name`.
    fn position_of(&self, name: &[char]) -> (p: usize)
        ensures
            p <= self.pairs().len(),
            forall|i: int| 0 <= i < p ==> lex_lt(#[trigger] self.pairs()[i].0, name@),
            p < self.pairs().len() ==> !lex_lt(self.pairs()[p as int].0, name@),
    {
        let mut p: usize = 0;
        while p < self.entries.len() && lex_less(self.entries[p].name.as_slice(), name)
            invariant
                p <= self.entries.len(),
                forall|i: int| 0 <= i < p ==> lex_lt(#[trigger] self.pairs()[i].0, name@),
            decreases self.entries.len() - p,
        {
            p = p + 1;
        }
        p
    }

    /// The note of `name`, if there is one.
    pub fn get(&self, name: &str) -> (r: Option<String>)
        ensures
            match r {
                Some(t) => self.view().contains_key(name@) && t@ == self.view()[name@],
                None => !self.view().contains_key(name@),
            },
    {
        proof {
            use_type_invariant(self);
            lemma_pairs_map(self.pairs());
        }
        let key = chars_of(name);
        let p = self.position_of(key.as_slice());
        if p < self.entries.len() && chars_eq(self.entries[p].name.as_slice(), key.as_slice()) {
            assert(self.pairs()[p as int].0 == name@);
            Some(string_from_chars(self.entries[p].note.as_slice()))
        } else {
            proof {
                let s = self.pairs();
                if self.view().contains_key(name@) {
                    let i = choose|i: int| 0 <= i < s.len() && s[i].0 == name@;
                    if i < p {
                        lemma_lex_irreflexive(name@);
                    } else {
                        lemma_lex_total(s[p as int].0, name@);
                        if p < i {
                            assert(lex_lt(s[p as int].0, s[i].0));
                        }
                    }
                }
            }
            None
        }
    }

    /// Sets the note of `name` to `note`.
    pub fn insert(&mut self, name: &str, note: &str)
        ensures
            final(self).view() == old(self).view().insert(name@, note@),
    {
        proof {
            use_type_invariant(&*self);
        }
        let key = chars_of(name);
        let text = chars_of(note);
        let p = self.position_of(key.as_slice());
        let ghost s = self.pairs();
        let ghost m = self.view();
        proof {
            lemma_pairs_map(s);
        }
        let entry = NoteEntry { name: key, note: text };
        if p < self.entries.len() && chars_eq(self.entries[p].name.as_slice(), entry.name.as_slice()) {
            let ghost t = s.update(p as int, (name@, note@));
            proof {
                assert forall|i: int, j: int| 0 <= i < j < t.len() implies lex_lt(
                    #[trigger] t[i].0,
                    #[trigger] t[j].0,
                ) by {
                    assert(t[i].0 == s[i].0 && t[j].0 == s[j].0);
                }
                assert forall|i: int| 0 <= i < t.len() implies #[trigger] m.insert(
                    name@,
                    note@,
                ).contains_key(t[i].0) && m.insert(name@, note@)[t[i].0] == t[i].1 by {
                    if i != p {
                        assert(t[i] == s[i]);
                        assert(m.contains_key(s[i].0));
                        if i < p {
                            assert(lex_lt(s[i].0, s[p as int].0));
                            lemma_lex_irreflexive(s[i].0);
                        } else {
                            assert(lex_lt(s[p as int].0, s[i].0));
                            lemma_lex_irreflexive(s[i].0);
                        }
                    }
                }
                assert forall|k: Seq<char>| #[trigger] m.insert(name@, note@).contains_key(
                    k,
                ) implies exists|i: int| 0 <= i < t.len() && t[i].0 == k by {
                    if k != name@ {
                        let i = choose|i: int| 0 <= i < s.len() && s[i].0 == k;
                        assert(t[i].0 == k);
                    } else {
                        assert(t[p as int].0 == k);
                    }
                }
                lemma_pairs_map_eq(t, m.insert(name@, note@));
            }
            let mut v: Vec<NoteEntry> = Vec::new();
            std::mem::swap(&mut v, &mut self.entries);
            v.set(p, entry);
            assert(entry_pairs(v@) =~= t);
            self.entries = v;
            assert(self.pairs() =~= t);
        } else {
            let ghost t = s.insert(p as int, (name@, note@));
            proof {
                if p < s.len() {
                    lemma_lex_total(s[p as int].0, name@);
                }
                assert forall|i: int, j: int| 0 <= i < j < t.len() implies lex_lt(
                    #[trigger] t[i].0,
                    #[trigger] t[j].0,
                ) by {
                    if j < p {
                        assert(t[i] == s[i] && t[j] == s[j]);
                    } else if j == p {
                        assert(t[i] == s[i]);
                    } else if i == p {
                        assert(t[j] == s[j - 1]);
                        if j - 1 > p {
                            lemma_lex_transitive(name@, s[p as int].0, s[j - 1].0);
                        }
                    } else if i < p {
                        assert(t[i] == s[i] && t[j] == s[j - 1]);
                        if j - 1 > p {
                            lemma_lex_transitive(s[i].0, s[p as int].0, s[j - 1].0);
                            lemma_lex_transitive(s[i].0, name@, s[p as int].0);
                        } else {
                            lemma_lex_transitive(s[i].0, name@, s[p as int].0);
                        }
                    } else {
                        assert(t[i] == s[i - 1] && t[j] == s[j - 1]);
                    }
                }
                assert forall|i: int| 0 <= i < t.len() implies #[trigger] m.insert(
                    name@,
                    note@,
                ).contains_key(t[i].0) && m.insert(name@, note@)[t[i].0] == t[i].1 by {
                    if i < p {
                        assert(t[i] == s[i]);
                        assert(m.contains_key(s[i].0));
                        lemma_lex_irreflexive(s[i].0);
                    } else if i > p {
                        assert(t[i] == s[i - 1]);
                        assert(m.contains_key(s[i - 1].0));
                        if i - 1 > p {
                            lemma_lex_transitive(name@, s[p as int].0, s[i - 1].0);
                        }
                        lemma_lex_irreflexive(name@);
                    }
                }
                assert forall|k: Seq<char>| #[trigger] m.insert(name@, note@).contains_key(
                    k,
                ) implies exists|i: int| 0 <= i < t.len() && t[i].0 == k by {
                    if k != name@ {
                        let i = choose|i: int| 0 <= i < s.len() && s[i].0 == k;
                        if i < p {
                            assert(t[i].0 == k);
                        } else {
                            assert(t[i + 1].0 == k);
                        }
                    } else {
                        assert(t[p as int].0 == k);
                    }
                }
                lemma_pairs_map_eq(t, m.insert(name@, note@));
            }
            let mut v: Vec<NoteEntry> = Vec::new();
            std::mem::swap(&mut v, &mut self.entries);
            v.insert(p, entry);
            assert(entry_pairs(v@) =~= t);
            self.entries = v;
            assert(self.pairs() =~= t);
        }
    }

    /// Drops the note of `name`, if there is one.
    pub fn remove(&mut self, name: &str)
        ensures
            final(self).view() == old(self).view().remove(name@),
    {
        proof {
            use_type_invariant(&*self);
        }
        let key = chars_of(name);
        let p = self.position_of(key.as_slice());
        let ghost s = self.pairs();
        let ghost m = self.view();
        proof {
            lemma_pairs_map(s);
        }
        if p < self.entries.len() && chars_eq(self.entries[p].name.as_slice(), key.as_slice()) {
            let ghost t = s.remove(p as int);
            proof {
                assert forall|i: int, j: int| 0 <= i < j < t.len() implies lex_lt(
                    #[trigger] t[i].0,
                    #[trigger] t[j].0,
                ) by {
                    let a = if i < p { i } else { i + 1 };
                    let b = if j < p { j } else { j + 1 };
                    assert(t[i] == s[a] && t[j] == s[b]);
                }
                assert forall|i: int| 0 <= i < t.len() implies #[trigger] m.remove(name@).contains_key(
                    t[i].0,
                ) && m.remove(name@)[t[i].0] == t[i].1 by {
                    let a = if i < p { i } else { i + 1 };
                    assert(t[i] == s[a]);
                    assert(m.contains_key(s[a].0));
                    if a < p {
                        assert(lex_lt(s[a].0, s[p as int].0));
                    } else {
                        assert(lex_lt(s[p as int].0, s[a].0));
                    }
                    lemma_lex_irreflexive(s[a].0);
                }
                assert forall|k: Seq<char>| #[trigger] m.remove(name@).contains_key(k) implies exists|
                    i: int,
                | 0 <= i < t.len() && t[i].0 == k by {
                    let i = choose|i: int| 0 <= i < s.len() && s[i].0 == k;
                    if i < p {
                        assert(t[i].0 == k);
                    } else {
                        assert(i != p);
                        assert(t[i - 1].0 == k);
                    }
                }
                lemma_pairs_map_eq(t, m.remove(name@));
            }
            let mut v: Vec<NoteEntry> = Vec::new();
            std::mem::swap(&mut v, &mut self.entries);
            v.remove(p);
            assert(entry_pairs(v@) =~= t);
            self.entries = v;
            assert(self.pairs() =~= t);
        } else {
            proof {
                if m.contains_key(name@) {
                    let i = choose|i: int| 0 <= i < s.len() && s[i].0 == name@;
                    if i < p {
                        lemma_lex_irreflexive(name@);
                    } else {
                        lemma_lex_total(s[p as int].0, name@);
                        if p < i {
                            assert(lex_lt(s[p as int].0, s[i].0));
                        }
                    }
                }
                assert(m.remove(name@) =~= m);
            }
        }
    }
}


/// What one line of the notes file says: a name and its note, or nothing for
/// an empty line, a line without a tab, a bad escape, an empty name or a
/// blank note.
pub open spec fn line_entry(l: Seq<char>) -> Option<(Seq<char>, Seq<char>)> {
    let t = find_char(l, '\t');
    if l.len() == 0 || t < 0 {
        None
    } else {
        match (unescape_spec(l.take(t)), unescape_spec(l.skip(t + 1))) {
            (Some(name), Some(note)) => if name.len() == 0 || trim(note).len() == 0 {
                None
            } else {
                Some((name, note))
            },
            _ => None,
        }
    }
}

/// The notes that a sequence of lines gives, a later line for a name
/// overriding an earlier one.
pub open spec fn notes_fold(ls: Seq<Seq<char>>) -> Map<Seq<char>, Seq<char>>
    decreases ls.len(),
{
    if ls.len() == 0 {
        Map::empty()
    } else {
        match line_entry(ls.last()) {
            Some(e) => notes_fold(ls.drop_last()).insert(e.0, e.1),
            None => notes_fold(ls.drop_last()),
        }
    }
}

/// The notes that the text of a notes file gives.
pub open spec fn parse_notes_spec(raw: Seq<char>) -> Map<Seq<char>, Seq<char>> {
    notes_fold(lines_spec(raw))
}

/// The line written for one note.
pub open spec fn note_line(p: (Seq<char>, Seq<char>)) -> Seq<char> {
    escape_spec(p.0) + seq!['\t'] + escape_spec(p.1)
}

/// The notes file written for a list of notes: one line each, every line
/// ending in a newline.
pub open spec fn serialize_pairs(s: Seq<(Seq<char>, Seq<char>)>) -> Seq<char> {
    terminated_join(s.map_values(|p: (Seq<char>, Seq<char>)| note_line(p)))
}

/// Reads one line of a notes file.
pub fn line_entry_exec(l: &Vec<char>) -> (r: Option<(Vec<char>, Vec<char>)>)
    ensures
        match r {
            Some(e) => line_entry(l@) == Some((e.0@, e.1@)),
            None => line_entry(l@).is_none(),
        },
{
    if l.len() == 0 {
        return None;
    }
    let t = match find_char_exec(l.as_slice(), '\t') {
        Some(t) => t,
        None => return None,
    };
    let name_raw = slice_chars(l, 0, t);
    let note_raw = slice_chars(l, t + 1, l.len());
    assert(name_raw@ =~= l@.take(t as int));
    assert(note_raw@ =~= l@.skip(t + 1));
    let name = match unescape_chars(&name_raw) {
        Some(n) => n,
        None => return None,
    };
    let note = match unescape_chars(&note_raw) {
        Some(n) => n,
        None => return None,
    };
    if name.len() == 0 {
        return None;
    }
    let trimmed = trim_chars(&note);
    if trimmed.len() == 0 {
        return None;
    }
    Some((name, note))
}

/// Reads a notes file: each line `name<TAB>note` with both fields escaped as
/// [`escape_note_field`] writes them; lines that say nothing are skipped.
pub fn parse_notes(raw: &str) -> (m: NoteMap)
    ensures
        m.view() == parse_notes_spec(raw@),
{
    let text = chars_of(raw);
    let ls = lines_chars(&text);
    let mut m = NoteMap::new();
    let mut i: usize = 0;
    while i < ls.len()
        invariant
            i <= ls.len(),
            views(ls@) == lines_spec(raw@),
            m.view() == notes_fold(views(ls@).take(i as int)),
        decreases ls.len() - i,
    {
        let e = line_entry_exec(&ls[i]);
        let ghost pre = views(ls@).take(i as int);
        assert(views(ls@).take(i + 1).drop_last() =~= pre);
        assert(views(ls@).take(i + 1).last() == ls@[i as int]@);
        match e {
            Some(pair) => {
                let name = string_from_chars(pair.0.as_slice());
                let note = string_from_chars(pair.1.as_slice());
                m.insert(name.as_str(), note.as_str());
            },
            None => {},
        }
        i = i + 1;
    }
    assert(views(ls@).take(ls.len() as int) =~= views(ls@));
    m
}

pub proof fn lemma_note_line_entry(p: (Seq<char>, Seq<char>))
    requires
        p.0.len() > 0,
        trim(p.1).len() > 0,
    ensures
        line_entry(note_line(p)) == Some(p),
        forall|j: int| 0 <= j < note_line(p).len() ==> #[trigger] note_line(p)[j] != '\n',
        strip_cr(note_line(p)) == note_line(p),
{
    let a = escape_spec(p.0);
    let b = escape_spec(p.1);
    let l = note_line(p);
    lemma_escape_no_separators(p.0);
    lemma_escape_no_separators(p.1);
    assert(l.len() == a.len() + 1 + b.len());
    assert forall|k: int| 0 <= k < a.len() implies #[trigger] l[k] != '\t' by {
        assert(l[k] == a[k]);
    }
    assert(l[a.len() as int] == '\t');
    crate::text::lemma_find_char(l, '\t', a.len() as int);
    assert(l.take(a.len() as int) =~= a);
    assert(l.skip(a.len() as int + 1) =~= b);
    lemma_unescape_escape(p.0);
    lemma_unescape_escape(p.1);
    assert forall|j: int| 0 <= j < l.len() implies #[trigger] l[j] != '\n' by {
        if j < a.len() {
            assert(l[j] == a[j]);
        } else if j > a.len() {
            assert(l[j] == b[j - a.len() - 1]);
        }
    }
    if b.len() > 0 {
        assert(l.last() == b[b.len() - 1]);
    }
}

/// Writing notes and reading the file back gives the same notes, for every
/// list of notes whose names are non-empty and whose notes are not blank.
pub proof fn lemma_notes_roundtrip(s: Seq<(Seq<char>, Seq<char>)>)
    requires
        forall|i: int| 0 <= i < s.len() ==> (#[trigger] s[i]).0.len() > 0 && trim(s[i].1).len() > 0,
    ensures
        parse_notes_spec(serialize_pairs(s)) == pairs_map(s),
{
    let ls = s.map_values(|p: (Seq<char>, Seq<char>)| note_line(p));
    assert forall|i: int, j: int| 0 <= i < ls.len() && 0 <= j < ls[i].len() implies #[trigger] ls[i][j]
        != '\n' by {
        assert(s[i].0.len() > 0);
        lemma_note_line_entry(s[i]);
        assert(note_line(s[i])[j] != '\n');
    }
    assert forall|i: int| 0 <= i < ls.len() implies strip_cr(#[trigger] ls[i]) == ls[i] by {
        assert(s[i].0.len() > 0);
        lemma_note_line_entry(s[i]);
    }
    lemma_lines_terminated_join(ls);
    lemma_fold_lines(s);
}

proof fn lemma_fold_lines(s: Seq<(Seq<char>, Seq<char>)>)
    requires
        forall|i: int| 0 <= i < s.len() ==> (#[trigger] s[i]).0.len() > 0 && trim(s[i].1).len() > 0,
    ensures
        notes_fold(s.map_values(|p: (Seq<char>, Seq<char>)| note_line(p))) == pairs_map(s),
    decreases s.len(),
{
    if s.len() > 0 {
        let s0 = s.drop_last();
        assert forall|i: int| 0 <= i < s0.len() implies (#[trigger] s0[i]).0.len() > 0 && trim(
            s0[i].1,
        ).len() > 0 by {
            assert(s0[i] == s[i]);
        }
        lemma_fold_lines(s0);
        let ls = s.map_values(|p: (Seq<char>, Seq<char>)| note_line(p));
        assert(ls.drop_last() =~= s0.map_values(|p: (Seq<char>, Seq<char>)| note_line(p)));
        assert(s[s.len() - 1].0.len() > 0);
        lemma_note_line_entry(s.last());
    }
}

impl NoteMap {
    /// The text of the notes file for these notes in name order, or `None`
    /// when there are no notes (the file is then removed).
    pub fn serialize(&self) -> (r: Option<String>)
        ensures
            names_sorted(self.pairs()),
            pairs_map(self.pairs()) == self.view(),
            match r {
                Some(t) => self.pairs().len() > 0 && t@ == serialize_pairs(self.pairs()),
                None => self.pairs().len() == 0,
            },
    {
        proof {
            use_type_invariant(self);
        }
        if self.entries.len() == 0 {
            return None;
        }
        let ghost ls = self.pairs().map_values(|p: (Seq<char>, Seq<char>)| note_line(p));
        let mut out: Vec<char> = Vec::new();
        let mut i: usize = 0;
        while i < self.entries.len()
            invariant
                i <= self.entries.len(),
                ls == self.pairs().map_values(|p: (Seq<char>, Seq<char>)| note_line(p)),
                out@ == terminated_join(ls.take(i as int)),
            decreases self.entries.len() - i,
        {
            let name = escape_chars(&self.entries[i].name);
            let note = escape_chars(&self.entries[i].note);
            let ghost before = out@;
            let mut k: usize = 0;
            while k < name.len()
                invariant
                    k <= name.len(),
                    out@ == before + name@.take(k as int),
                decreases name.len() - k,
            {
                out.push(name[k]);
                k = k + 1;
            }
            out.push('\t');
            let ghost mid = out@;
            k = 0;
            while k < note.len()
                invariant
                    k <= note.len(),
                    out@ == mid + note@.take(k as int),
                decreases note.len() - k,
            {
                out.push(note[k]);
                k = k + 1;
            }
            out.push('\n');
            proof {
                assert(name@.take(name.len() as int) =~= name@);
                assert(note@.take(note.len() as int) =~= note@);
                assert(self.pairs()[i as int] == (self.entries@[i as int].name@, self.entries@[i as int].note@));
                assert(ls.take(i + 1).drop_last() =~= ls.take(i as int));
                assert(ls[i as int] == note_line(self.pairs()[i as int]));
                assert(out@ =~= terminated_join(ls.take(i as int)) + ls[i as int] + seq!['\n']);
            }
            i = i + 1;
        }
        assert(ls.take(self.entries.len() as int) =~= ls);
        Some(string_from_chars(out.as_slice()))
    }
}


/// The char sequences of a list of strings.
pub open spec fn string_views(v: Seq<String>) -> Seq<Seq<char>> {
    v.map_values(|x: String| x@)
}

impl NoteMap {
    /// The names, in order.
    fn names(&self) -> (r: Vec<Vec<char>>)
        ensures
            r@.len() == self.pairs().len(),
            forall|i: int| 0 <= i < r@.len() ==> #[trigger] r@[i]@ == self.pairs()[i].0,
    {
        let mut r: Vec<Vec<char>> = Vec::new();
        let mut i: usize = 0;
        while i < self.entries.len()
            invariant
                i <= self.entries.len(),
                r@.len() == i,
                forall|k: int| 0 <= k < i ==> #[trigger] r@[k]@ == self.pairs()[k].0,
            decreases self.entries.len() - i,
        {
            r.push(self.entries[i].name.clone());
            i = i + 1;
        }
        r
    }

    /// Keeps only the notes whose name is in `existing` and whose note is not
    /// blank (what is written back to the notes file).
    pub fn retain_notes(&mut self, existing: &Vec<String>)
        ensures
            final(self).view() == Map::new(
                |k: Seq<char>|
                    old(self).view().contains_key(k) && string_views(existing@).contains(k)
                        && trim(old(self).view()[k]).len() > 0,
                |k: Seq<char>| old(self).view()[k],
            ),
    {
        proof {
            use_type_invariant(&*self);
            lemma_pairs_map(self.pairs());
        }
        let ghost m0 = self.view();
        let ghost s0 = self.pairs();
        let names = self.names();
        let ghost ex = string_views(existing@);
        let mut i: usize = 0;
        while i < names.len()
            invariant
                i <= names.len(),
                names@.len() == s0.len(),
                forall|k: int| 0 <= k < names@.len() ==> #[trigger] names@[k]@ == s0[k].0,
                names_sorted(s0),
                pairs_map(s0) == m0,
                ex == string_views(existing@),
                self.view() == Map::new(
                    |k: Seq<char>|
                        m0.contains_key(k) && (!(exists|j: int| 0 <= j < i && s0[j].0 == k) || (
                        ex.contains(k) && trim(m0[k]).len() > 0)),
                    |k: Seq<char>| m0[k],
                ),
            decreases names.len() - i,
        {
            let name = &names[i];
            let mut found = false;
            let mut j: usize = 0;
            while j < existing.len()
                invariant
                    j <= existing.len(),
                    ex == string_views(existing@),
                    found == (exists|q: int| 0 <= q < j && ex[q] == name@),
                decreases existing.len() - j,
            {
                let e = chars_of(existing[j].as_str());
                if chars_eq(e.as_slice(), name.as_slice()) {
                    found = true;
                }
                proof {
                    if e@ == name@ {
                        assert(ex[j as int] == name@);
                    }
                }
                j = j + 1;
            }
            let ghost pre = self.view();
            let key = string_from_chars(name.as_slice());
            proof {
                lemma_pairs_map(s0);
                assert(m0.contains_key(s0[i as int].0));
                assert(found == ex.contains(name@)) by {
                    if ex.contains(name@) {
                        let q = choose|q: int| 0 <= q < ex.len() && ex[q] == name@;
                        assert(0 <= q < j);
                    }
                }
            }
            let note_blank = match self.get(key.as_str()) {
                Some(t) => {
                    let tc = chars_of(t.as_str());
                    trim_chars(&tc).len() == 0
                },
                None => true,
            };
            if !found || note_blank {
                self.remove(key.as_str());
            }
            proof {
                let k0 = s0[i as int].0;
                assert forall|k: Seq<char>| #[trigger] self.view().contains_key(k) <==> (m0.contains_key(k) && (!(exists|j: int| 0 <= j < i + 1 && s0[j].0 == k) || (ex.contains(k) && trim(m0[k]).len() > 0))) by {
                    if k == k0 {
                    } else {
                        if exists|j: int| 0 <= j < i + 1 && s0[j].0 == k {
                            let jj = choose|j: int| 0 <= j < i + 1 && s0[j].0 == k;
                            assert(jj < i);
                        }
                    }
                }
                assert(self.view() =~= Map::new(
                    |k: Seq<char>|
                        m0.contains_key(k) && (!(exists|j: int| 0 <= j < i + 1 && s0[j].0 == k) || (
                        ex.contains(k) && trim(m0[k]).len() > 0)),
                    |k: Seq<char>| m0[k],
                ));
            }
            i = i + 1;
        }
        proof {
            assert forall|k: Seq<char>| m0.contains_key(k) implies exists|j: int| 0 <= j < s0.len() && s0[j].0 == k by {
            }
            assert(self.view() =~= Map::new(
                |k: Seq<char>|
                    m0.contains_key(k) && ex.contains(k) && trim(m0[k]).len() > 0,
                |k: Seq<char>| m0[k],
            ));
        }
    }
}


impl NoteMap {
    /// Saves `note` for every name in `targets`; a blank note clears them.
    pub fn apply_note_edit(&mut self, targets: &Vec<String>, note: &str)
        ensures
            trim(note@).len() == 0 ==> final(self).view() == old(self).view().remove_keys(
                string_views(targets@).to_set(),
            ),
            trim(note@).len() > 0 ==> final(self).view() == old(self).view().union_prefer_right(
                Map::new(|k: Seq<char>| string_views(targets@).contains(k), |k: Seq<char>| note@),
            ),
    {
        let nc = chars_of(note);
        let blank = trim_chars(&nc).len() == 0;
        let ghost m0 = self.view();
        let ghost ts = string_views(targets@);
        let mut i: usize = 0;
        while i < targets.len()
            invariant
                i <= targets.len(),
                ts == string_views(targets@),
                blank == (trim(note@).len() == 0),
                blank ==> self.view() == m0.remove_keys(ts.take(i as int).to_set()),
                !blank ==> self.view() == m0.union_prefer_right(
                    Map::new(|k: Seq<char>| ts.take(i as int).contains(k), |k: Seq<char>| note@),
                ),
            decreases targets.len() - i,
        {
            let ghost pre = self.view();
            let t = targets[i].as_str();
            assert(ts[i as int] == targets@[i as int]@);
            proof { lemma_take_push_contains(ts, i as int); }
            if blank {
                self.remove(t);
                proof {
                    assert(self.view() =~= m0.remove_keys(ts.take(i + 1).to_set()));
                }
            } else {
                self.insert(t, note);
                proof {
                    assert(self.view() =~= m0.union_prefer_right(
                        Map::new(|k: Seq<char>| ts.take(i + 1).contains(k), |k: Seq<char>| note@),
                    ));
                }
            }
            i = i + 1;
        }
        assert(ts.take(targets.len() as int) =~= ts);
    }
}

/// The names of `names` in increasing order, each once (a sort then a dedup).
pub fn sorted_unique(names: &Vec<String>) -> (r: Vec<String>)
    ensures
        forall|i: int, j: int|
            0 <= i < j < r@.len() ==> lex_lt(#[trigger] r@[i]@, #[trigger] r@[j]@),
        forall|k: Seq<char>| string_views(r@).contains(k) <==> string_views(names@).contains(k),
{
    let mut m = NoteMap::new();
    let ghost ns = string_views(names@);
    let mut i: usize = 0;
    while i < names.len()
        invariant
            i <= names.len(),
            ns == string_views(names@),
            m.view().dom() == ns.take(i as int).to_set(),
        decreases names.len() - i,
    {
        m.insert(names[i].as_str(), "");
        assert(ns[i as int] == names@[i as int]@);
        proof { lemma_take_push_contains(ns, i as int); }
        assert(m.view().dom() =~= ns.take(i + 1).to_set());
        i = i + 1;
    }
    assert(ns.take(names.len() as int) =~= ns);
    let keys = m.names();
    let _ = m.serialize();
    let mut r: Vec<String> = Vec::new();
    let mut j: usize = 0;
    while j < keys.len()
        invariant
            j <= keys.len(),
            keys@.len() == m.pairs().len(),
            forall|q: int| 0 <= q < keys@.len() ==> #[trigger] keys@[q]@ == m.pairs()[q].0,
            r@.len() == j,
            forall|q: int| 0 <= q < j ==> #[trigger] r@[q]@ == keys@[q]@,
        decreases keys.len() - j,
    {
        r.push(string_from_chars(keys[j].as_slice()));
        j = j + 1;
    }
    proof {
        let s = m.pairs();
        lemma_pairs_map(s);
        assert forall|i: int, j: int| 0 <= i < j < r@.len() implies lex_lt(#[trigger] r@[i]@, #[trigger] r@[j]@) by {
            assert(r@[i]@ == s[i].0 && r@[j]@ == s[j].0);
        }
        assert forall|k: Seq<char>| string_views(r@).contains(k) <==> ns.contains(k) by {
            if string_views(r@).contains(k) {
                let q = choose|q: int| 0 <= q < r@.len() && string_views(r@)[q] == k;
                assert(r@[q]@ == s[q].0);
                assert(m.view().contains_key(s[q].0));
                assert(ns.to_set().contains(k));
            }
            if ns.contains(k) {
                assert(ns.to_set().contains(k));
                assert(m.view().contains_key(k));
                let q = choose|q: int| 0 <= q < s.len() && s[q].0 == k;
                assert(string_views(r@)[q] == r@[q]@);
            }
        }
    }
    r
}

} // verus!
