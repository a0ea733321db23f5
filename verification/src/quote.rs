use vstd::prelude::*;
use crate::text::{chars_of, string_from_chars};

verus! {

/// `s` with each `"` doubled.
pub open spec fn double_quotes(s: Seq<char>) -> Seq<char>
    decreases s.len(),
{
    if s.len() == 0 {
        Seq::empty()
    } else if s[0] == '"' {
        seq!['"', '"'] + double_quotes(s.drop_first())
    } else {
        seq![s[0]] + double_quotes(s.drop_first())
    }
}

/// An SQLite identifier in double quotes, inner `"` doubled.
pub open spec fn sqlite_quote_spec(name: Seq<char>) -> Seq<char> {
    seq!['"'] + double_quotes(name) + seq!['"']
}

/// Reads back a text whose `"` were doubled.
pub open spec fn undouble_quotes(s: Seq<char>) -> Seq<char>
    decreases s.len(),
{
    if s.len() == 0 {
        Seq::empty()
    } else if s.len() >= 2 && s[0] == '"' && s[1] == '"' {
        seq!['"'] + undouble_quotes(s.skip(2))
    } else {
        seq![s[0]] + undouble_quotes(s.drop_first())
    }
}

/// `s` with each `'` written as `'"'"'` (close, quoted quote, reopen).
pub open spec fn escape_single_quotes(s: Seq<char>) -> Seq<char>
    decreases s.len(),
{
    if s.len() == 0 {
        Seq::empty()
    } else if s[0] == '\'' {
        seq!['\'', '"', '\'', '"', '\''] + escape_single_quotes(s.drop_first())
    } else {
        seq![s[0]] + escape_single_quotes(s.drop_first())
    }
}

/// A text in single quotes for a POSIX shell.
pub open spec fn shell_quote_spec(value: Seq<char>) -> Seq<char> {
    seq!['\''] + escape_single_quotes(value) + seq!['\'']
}

/// Reads back a text whose `'` were written as `'"'"'`.
pub open spec fn unescape_single_quotes(s: Seq<char>) -> Seq<char>
    decreases s.len(),
{
    if s.len() == 0 {
        Seq::empty()
    } else if s.len() >= 5 && s[0] == '\'' && s[1] == '"' && s[2] == '\'' && s[3] == '"' && s[4] == '\'' {
        seq!['\''] + unescape_single_quotes(s.skip(5))
    } else {
        seq![s[0]] + unescape_single_quotes(s.drop_first())
    }
}

/// An SQLite identifier in double quotes (see [`sqlite_quote_spec`]).
pub fn sqlite_quote_ident(name: &str) -> (r: String)
    ensures
        r@ == sqlite_quote_spec(name@),
{
    let c = chars_of(name);
    let mut out: Vec<char> = Vec::new();
    out.push('"');
    let mut i: usize = 0;
    assert(c@.skip(0) =~= c@);
    assert(out@ =~= seq!['"']);
    while i < c.len()
        invariant
            i <= c.len(),
            out@ + double_quotes(c@.skip(i as int)) == seq!['"'] + double_quotes(c@),
        decreases c.len() - i,
    {
        let ghost before = out@;
        assert(c@.skip(i as int).drop_first() =~= c@.skip(i + 1));
        assert(c@.skip(i as int)[0] == c[i as int]);
        if c[i] == '"' {
            out.push('"');
            out.push('"');
            assert(out@ + double_quotes(c@.skip(i + 1)) =~= before + double_quotes(c@.skip(i as int)));
        } else {
            out.push(c[i]);
            assert(out@ + double_quotes(c@.skip(i + 1)) =~= before + double_quotes(c@.skip(i as int)));
        }
        i = i + 1;
    }
    assert(c@.skip(c.len() as int) =~= Seq::<char>::empty());
    assert(c@.skip(0) =~= c@);
    out.push('"');
    assert(out@ =~= sqlite_quote_spec(name@));
    string_from_chars(out.as_slice())
}

/// A text in single quotes for a POSIX shell (see [`shell_quote_spec`]).
pub fn shell_single_quote(value: &str) -> (r: String)
    ensures
        r@ == shell_quote_spec(value@),
{
    let c = chars_of(value);
    let mut out: Vec<char> = Vec::new();
    out.push('\'');
    let mut i: usize = 0;
    assert(c@.skip(0) =~= c@);
    assert(out@ =~= seq!['\'']);
    while i < c.len()
        invariant
            i <= c.len(),
            out@ + escape_single_quotes(c@.skip(i as int)) == seq!['\''] + escape_single_quotes(c@),
        decreases c.len() - i,
    {
        let ghost before = out@;
        assert(c@.skip(i as int).drop_first() =~= c@.skip(i + 1));
        assert(c@.skip(i as int)[0] == c[i as int]);
        if c[i] == '\'' {
            out.push('\'');
            out.push('"');
            out.push('\'');
            out.push('"');
            out.push('\'');
            assert(out@ + escape_single_quotes(c@.skip(i + 1)) =~= before + escape_single_quotes(c@.skip(i as int)));
        } else {
            out.push(c[i]);
            assert(out@ + escape_single_quotes(c@.skip(i + 1)) =~= before + escape_single_quotes(c@.skip(i as int)));
        }
        i = i + 1;
    }
    assert(c@.skip(c.len() as int) =~= Seq::<char>::empty());
    out.push('\'');
    assert(out@ =~= shell_quote_spec(value@));
    string_from_chars(out.as_slice())
}

/// Reading the doubled quotes back gives the name: quoting an SQLite
/// identifier loses nothing.
pub proof fn lemma_sqlite_quote_roundtrip(name: Seq<char>)
    ensures
        undouble_quotes(double_quotes(name)) == name,
    decreases name.len(),
{
    if name.len() > 0 {
        lemma_sqlite_quote_roundtrip(name.drop_first());
        let rest = double_quotes(name.drop_first());
        if name[0] == '"' {
            assert((seq!['"', '"'] + rest).skip(2) =~= rest);
        } else {
            assert((seq![name[0]] + rest).drop_first() =~= rest);
        }
        assert(name =~= seq![name[0]] + name.drop_first());
    }
}

/// Two names quote alike only when they are the same name.
pub proof fn lemma_sqlite_quote_injective(a: Seq<char>, b: Seq<char>)
    requires
        sqlite_quote_spec(a) == sqlite_quote_spec(b),
    ensures
        a == b,
{
    let qa = sqlite_quote_spec(a);
    assert(qa.subrange(1, qa.len() - 1) =~= double_quotes(a));
    assert(sqlite_quote_spec(b).subrange(1, sqlite_quote_spec(b).len() - 1) =~= double_quotes(b));
    lemma_sqlite_quote_roundtrip(a);
    lemma_sqlite_quote_roundtrip(b);
}

/// Reading the escaped quotes back gives the value: the shell receives the
/// text as it was.
pub proof fn lemma_shell_quote_roundtrip(value: Seq<char>)
    ensures
        unescape_single_quotes(escape_single_quotes(value)) == value,
    decreases value.len(),
{
    if value.len() > 0 {
        lemma_shell_quote_roundtrip(value.drop_first());
        let rest = escape_single_quotes(value.drop_first());
        if value[0] == '\'' {
            assert((seq!['\'', '"', '\'', '"', '\''] + rest).skip(5) =~= rest);
        } else {
            assert((seq![value[0]] + rest).drop_first() =~= rest);
        }
        assert(value =~= seq![value[0]] + value.drop_first());
    }
}

/// Two values quote alike only when they are the same value.
pub proof fn lemma_shell_quote_injective(a: Seq<char>, b: Seq<char>)
    requires
        shell_quote_spec(a) == shell_quote_spec(b),
    ensures
        a == b,
{
    let qa = shell_quote_spec(a);
    assert(qa.subrange(1, qa.len() - 1) =~= escape_single_quotes(a));
    assert(shell_quote_spec(b).subrange(1, shell_quote_spec(b).len() - 1) =~= escape_single_quotes(b));
    lemma_shell_quote_roundtrip(a);
    lemma_shell_quote_roundtrip(b);
}

} // verus!
