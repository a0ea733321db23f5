use vstd::prelude::*;
use crate::integration::catalog::{catalog_spec, integration_catalog, spec_fields, str_eq};
use crate::text::{chars_of, chars_eq};

verus! {

/// The map that a list of (key, flag) pairs stands for, a later pair
/// overriding an earlier one.
pub open spec fn flag_map(s: Seq<(Seq<char>, bool)>) -> Map<Seq<char>, bool>
    decreases s.len(),
{
    if s.len() == 0 {
        Map::empty()
    } else {
        flag_map(s.drop_last()).insert(s.last().0, s.last().1)
    }
}

proof fn lemma_flag_map_last(s: Seq<(Seq<char>, bool)>, k: Seq<char>, j: int)
    requires
        -1 <= j < s.len(),
        j >= 0 ==> s[j].0 == k,
        forall|i: int| j < i < s.len() ==> (#[trigger] s[i]).0 != k,
    ensures
        j >= 0 ==> flag_map(s).contains_key(k) && flag_map(s)[k] == s[j].1,
        j < 0 ==> !flag_map(s).contains_key(k),
    decreases s.len(),
{
    if s.len() > 0 && j < s.len() - 1 {
        let s0 = s.drop_last();
        assert forall|i: int| j < i < s0.len() implies (#[trigger] s0[i]).0 != k by {
            assert(s0[i] == s[i]);
        }
        assert(s[s.len() - 1].0 != k);
        lemma_flag_map_last(s0, k, j);
    }
}

proof fn lemma_flag_map_update(s: Seq<(Seq<char>, bool)>, k: Seq<char>, e: bool, j: int)
    requires
        0 <= j < s.len(),
        s[j].0 == k,
        forall|i: int| j < i < s.len() ==> (#[trigger] s[i]).0 != k,
    ensures
        flag_map(s.update(j, (k, e))) == flag_map(s).insert(k, e),
    decreases s.len(),
{
    let s0 = s.drop_last();
    if j == s.len() - 1 {
        assert(s.update(j, (k, e)).drop_last() =~= s0);
        assert(flag_map(s.update(j, (k, e))) =~= flag_map(s).insert(k, e));
    } else {
        assert forall|i: int| j < i < s0.len() implies (#[trigger] s0[i]).0 != k by {
            assert(s0[i] == s[i]);
        }
        lemma_flag_map_update(s0, k, e, j);
        assert(s.update(j, (k, e)).drop_last() =~= s0.update(j, (k, e)));
        assert(s[s.len() - 1].0 != k);
        assert(flag_map(s.update(j, (k, e))) =~= flag_map(s).insert(k, e));
    }
}

/// The integration with key `k` is required.
pub open spec fn is_required_spec(k: Seq<char>) -> bool {
    exists|i: int| 0 <= i < catalog_spec().len() && (#[trigger] catalog_spec()[i]).0 == k && catalog_spec()[i].3
}


/// Only `less` and `$EDITOR` are required, and no optional integration shares
/// their keys.
pub proof fn lemma_required_keys()
    ensures
        forall|i: int| 0 <= i < catalog_spec().len() ==> ((#[trigger] catalog_spec()[i]).3 <==> (i == 1 || i == 2)),
        forall|i: int| 0 <= i < catalog_spec().len() && !(#[trigger] catalog_spec()[i]).3 ==> catalog_spec()[i].0 != "less"@ && catalog_spec()[i].0 != "$EDITOR"@,
        forall|k: Seq<char>| is_required_spec(k) <==> (k == "less"@ || k == "$EDITOR"@),
{
    reveal_strlit("git");
    reveal_strlit("less");
    reveal_strlit("$EDITOR");
    reveal_strlit("bat");
    reveal_strlit("glow");
    reveal_strlit("mmdflux");
    reveal_strlit("links");
    reveal_strlit("pdftotext");
    reveal_strlit("asciinema");
    reveal_strlit("age");
    reveal_strlit("jnv");
    reveal_strlit("csvlens");
    reveal_strlit("delta");
    reveal_strlit("hexyl");
    reveal_strlit("hexedit");
    reveal_strlit("vidir");
    reveal_strlit("zip");
    reveal_strlit("tar");
    reveal_strlit("7z");
    reveal_strlit("rar");
    reveal_strlit("fuse-zip");
    reveal_strlit("archivemount");
    reveal_strlit("sox");
    reveal_strlit("viu");
    reveal_strlit("chafa");
    reveal_strlit("sshfs");
    reveal_strlit("rclone");
    reveal_strlit("tmux");
    reveal_strlit("rg");
    reveal_strlit("fzf");
    reveal_strlit("wl-copy");
    reveal_strlit("xclip");
    reveal_strlit("xsel");
    reveal_strlit("pbcopy");
    assert("git"@.len() != "less"@.len());
    assert("git"@.len() != "$EDITOR"@.len());
    assert(catalog_spec()[0].0 != "less"@ && catalog_spec()[0].0 != "$EDITOR"@);
    assert("bat"@.len() != "less"@.len());
    assert("bat"@.len() != "$EDITOR"@.len());
    assert(catalog_spec()[3].0 != "less"@ && catalog_spec()[3].0 != "$EDITOR"@);
    assert("glow"@[0] != "less"@[0]);
    assert("glow"@.len() != "$EDITOR"@.len());
    assert(catalog_spec()[4].0 != "less"@ && catalog_spec()[4].0 != "$EDITOR"@);
    assert("mmdflux"@.len() != "less"@.len());
    assert("mmdflux"@[0] != "$EDITOR"@[0]);
    assert(catalog_spec()[5].0 != "less"@ && catalog_spec()[5].0 != "$EDITOR"@);
    assert("links"@.len() != "less"@.len());
    assert("links"@.len() != "$EDITOR"@.len());
    assert(catalog_spec()[6].0 != "less"@ && catalog_spec()[6].0 != "$EDITOR"@);
    assert("pdftotext"@.len() != "less"@.len());
    assert("pdftotext"@.len() != "$EDITOR"@.len());
    assert(catalog_spec()[7].0 != "less"@ && catalog_spec()[7].0 != "$EDITOR"@);
    assert("asciinema"@.len() != "less"@.len());
    assert("asciinema"@.len() != "$EDITOR"@.len());
    assert(catalog_spec()[8].0 != "less"@ && catalog_spec()[8].0 != "$EDITOR"@);
    assert("age"@.len() != "less"@.len());
    assert("age"@.len() != "$EDITOR"@.len());
    assert(catalog_spec()[9].0 != "less"@ && catalog_spec()[9].0 != "$EDITOR"@);
    assert("jnv"@.len() != "less"@.len());
    assert("jnv"@.len() != "$EDITOR"@.len());
    assert(catalog_spec()[10].0 != "less"@ && catalog_spec()[10].0 != "$EDITOR"@);
    assert("csvlens"@.len() != "less"@.len());
    assert("csvlens"@[0] != "$EDITOR"@[0]);
    assert(catalog_spec()[11].0 != "less"@ && catalog_spec()[11].0 != "$EDITOR"@);
    assert("delta"@.len() != "less"@.len());
    assert("delta"@.len() != "$EDITOR"@.len());
    assert(catalog_spec()[12].0 != "less"@ && catalog_spec()[12].0 != "$EDITOR"@);
    assert("hexyl"@.len() != "less"@.len());
    assert("hexyl"@.len() != "$EDITOR"@.len());
    assert(catalog_spec()[13].0 != "less"@ && catalog_spec()[13].0 != "$EDITOR"@);
    assert("hexedit"@.len() != "less"@.len());
    assert("hexedit"@[0] != "$EDITOR"@[0]);
    assert(catalog_spec()[14].0 != "less"@ && catalog_spec()[14].0 != "$EDITOR"@);
    assert("vidir"@.len() != "less"@.len());
    assert("vidir"@.len() != "$EDITOR"@.len());
    assert(catalog_spec()[15].0 != "less"@ && catalog_spec()[15].0 != "$EDITOR"@);
    assert("zip"@.len() != "less"@.len());
    assert("zip"@.len() != "$EDITOR"@.len());
    assert(catalog_spec()[16].0 != "less"@ && catalog_spec()[16].0 != "$EDITOR"@);
    assert("tar"@.len() != "less"@.len());
    assert("tar"@.len() != "$EDITOR"@.len());
    assert(catalog_spec()[17].0 != "less"@ && catalog_spec()[17].0 != "$EDITOR"@);
    assert("7z"@.len() != "less"@.len());
    assert("7z"@.len() != "$EDITOR"@.len());
    assert(catalog_spec()[18].0 != "less"@ && catalog_spec()[18].0 != "$EDITOR"@);
    assert("rar"@.len() != "less"@.len());
    assert("rar"@.len() != "$EDITOR"@.len());
    assert(catalog_spec()[19].0 != "less"@ && catalog_spec()[19].0 != "$EDITOR"@);
    assert("fuse-zip"@.len() != "less"@.len());
    assert("fuse-zip"@.len() != "$EDITOR"@.len());
    assert(catalog_spec()[20].0 != "less"@ && catalog_spec()[20].0 != "$EDITOR"@);
    assert("archivemount"@.len() != "less"@.len());
    assert("archivemount"@.len() != "$EDITOR"@.len());
    assert(catalog_spec()[21].0 != "less"@ && catalog_spec()[21].0 != "$EDITOR"@);
    assert("sox"@.len() != "less"@.len());
    assert("sox"@.len() != "$EDITOR"@.len());
    assert(catalog_spec()[22].0 != "less"@ && catalog_spec()[22].0 != "$EDITOR"@);
    assert("viu"@.len() != "less"@.len());
    assert("viu"@.len() != "$EDITOR"@.len());
    assert(catalog_spec()[23].0 != "less"@ && catalog_spec()[23].0 != "$EDITOR"@);
    assert("chafa"@.len() != "less"@.len());
    assert("chafa"@.len() != "$EDITOR"@.len());
    assert(catalog_spec()[24].0 != "less"@ && catalog_spec()[24].0 != "$EDITOR"@);
    assert("sshfs"@.len() != "less"@.len());
    assert("sshfs"@.len() != "$EDITOR"@.len());
    assert(catalog_spec()[25].0 != "less"@ && catalog_spec()[25].0 != "$EDITOR"@);
    assert("rclone"@.len() != "less"@.len());
    assert("rclone"@.len() != "$EDITOR"@.len());
    assert(catalog_spec()[26].0 != "less"@ && catalog_spec()[26].0 != "$EDITOR"@);
    assert("tmux"@[0] != "less"@[0]);
    assert("tmux"@.len() != "$EDITOR"@.len());
    assert(catalog_spec()[27].0 != "less"@ && catalog_spec()[27].0 != "$EDITOR"@);
    assert("rg"@.len() != "less"@.len());
    assert("rg"@.len() != "$EDITOR"@.len());
    assert(catalog_spec()[28].0 != "less"@ && catalog_spec()[28].0 != "$EDITOR"@);
    assert("fzf"@.len() != "less"@.len());
    assert("fzf"@.len() != "$EDITOR"@.len());
    assert(catalog_spec()[29].0 != "less"@ && catalog_spec()[29].0 != "$EDITOR"@);
    assert("wl-copy"@.len() != "less"@.len());
    assert("wl-copy"@[0] != "$EDITOR"@[0]);
    assert(catalog_spec()[30].0 != "less"@ && catalog_spec()[30].0 != "$EDITOR"@);
    assert("xclip"@.len() != "less"@.len());
    assert("xclip"@.len() != "$EDITOR"@.len());
    assert(catalog_spec()[31].0 != "less"@ && catalog_spec()[31].0 != "$EDITOR"@);
    assert("xsel"@[0] != "less"@[0]);
    assert("xsel"@.len() != "$EDITOR"@.len());
    assert(catalog_spec()[32].0 != "less"@ && catalog_spec()[32].0 != "$EDITOR"@);
    assert("pbcopy"@.len() != "less"@.len());
    assert("pbcopy"@.len() != "$EDITOR"@.len());
    assert(catalog_spec()[33].0 != "less"@ && catalog_spec()[33].0 != "$EDITOR"@);
    assert forall|k: Seq<char>| is_required_spec(k) <==> (k == "less"@ || k == "$EDITOR"@) by {
        if k == "less"@ {
            assert(catalog_spec()[1].0 == k);
        }
        if k == "$EDITOR"@ {
            assert(catalog_spec()[2].0 == k);
        }
    }
}

/// Which integrations the user switched on or off.
pub struct IntegrationSettings {
    overrides: Vec<(Vec<char>, bool)>,
}

/// Whether an integration is on: required ones always, others unless
/// switched off.
pub open spec fn enabled_spec(overrides: Map<Seq<char>, bool>, k: Seq<char>) -> bool {
    if is_required_spec(k) {
        true
    } else if overrides.contains_key(k) {
        overrides[k]
    } else {
        true
    }
}

/// Every optional integration is on.
pub open spec fn all_optional_enabled_spec(overrides: Map<Seq<char>, bool>) -> bool {
    forall|i: int| 0 <= i < catalog_spec().len() && !(#[trigger] catalog_spec()[i]).3 ==> enabled_spec(overrides, catalog_spec()[i].0)
}

/// Whether the catalog marks `key` as required.
pub fn is_required(key: &str) -> (r: bool)
    ensures
        r == is_required_spec(key@),
{
    let cat = integration_catalog();
    let mut i: usize = 0;
    while i < cat.len()
        invariant
            i <= cat.len(),
            cat@.len() == catalog_spec().len(),
            forall|q: int| 0 <= q < cat@.len() ==> spec_fields(#[trigger] cat@[q]) == catalog_spec()[q],
            forall|q: int| 0 <= q < i ==> !((#[trigger] catalog_spec()[q]).0 == key@ && catalog_spec()[q].3),
        decreases cat.len() - i,
    {
        assert(spec_fields(cat@[i as int]) == catalog_spec()[i as int]);
        if cat[i].required && str_eq(cat[i].key, key) {
            return true;
        }
        i = i + 1;
    }
    false
}

impl IntegrationSettings {
    /// The switches, by integration key.
    pub closed spec fn view(&self) -> Map<Seq<char>, bool> {
        flag_map(self.overrides@.map_values(|p: (Vec<char>, bool)| (p.0@, p.1)))
    }

    /// No integration switched.
    pub fn new() -> (r: IntegrationSettings)
        ensures
            r.view() == Map::<Seq<char>, bool>::empty(),
    {
        let r = IntegrationSettings { overrides: Vec::new() };
        assert(r.overrides@.map_values(|p: (Vec<char>, bool)| (p.0@, p.1)) =~= Seq::<(Seq<char>, bool)>::empty());
        r
    }

    /// Index of the last switch for `key`.
    fn find(&self, key: &Vec<char>) -> (r: Option<usize>)
        ensures
            ({
                let s = self.overrides@.map_values(|p: (Vec<char>, bool)| (p.0@, p.1));
                match r {
                    Some(j) => j < s.len() && s[j as int].0 == key@ && forall|i: int| j < i < s.len() ==> (#[trigger] s[i]).0 != key@,
                    None => forall|i: int| 0 <= i < s.len() ==> (#[trigger] s[i]).0 != key@,
                }
            }),
    {
        let ghost s = self.overrides@.map_values(|p: (Vec<char>, bool)| (p.0@, p.1));
        let mut j = self.overrides.len();
        while j > 0
            invariant
                j <= self.overrides.len(),
                s == self.overrides@.map_values(|p: (Vec<char>, bool)| (p.0@, p.1)),
                forall|i: int| j <= i < s.len() ==> (#[trigger] s[i]).0 != key@,
            decreases j,
        {
            if chars_eq(self.overrides[j - 1].0.as_slice(), key.as_slice()) {
                return Some(j - 1);
            }
            j = j - 1;
        }
        None
    }

    /// Whether an integration is on (see [`enabled_spec`]).
    pub fn integration_enabled(&self, key: &str) -> (r: bool)
        ensures
            r == enabled_spec(self.view(), key@),
    {
        if is_required(key) {
            return true;
        }
        let k = chars_of(key);
        let ghost s = self.overrides@.map_values(|p: (Vec<char>, bool)| (p.0@, p.1));
        match self.find(&k) {
            Some(j) => {
                proof {
                    lemma_flag_map_last(s, key@, j as int);
                }
                self.overrides[j].1
            },
            None => {
                proof {
                    lemma_flag_map_last(s, key@, -1);
                }
                true
            },
        }
    }

    /// Switches an optional integration on or off; required ones stay on.
    pub fn set_integration_enabled(&mut self, key: &str, enabled: bool)
        ensures
            is_required_spec(key@) ==> final(self).view() == old(self).view(),
            !is_required_spec(key@) ==> final(self).view() == old(self).view().insert(key@, enabled),
    {
        if is_required(key) {
            return;
        }
        let k = chars_of(key);
        let ghost s = self.overrides@.map_values(|p: (Vec<char>, bool)| (p.0@, p.1));
        match self.find(&k) {
            Some(j) => {
                proof {
                    lemma_flag_map_update(s, key@, enabled, j as int);
                }
                self.overrides.set(j, (k, enabled));
                assert(self.overrides@.map_values(|p: (Vec<char>, bool)| (p.0@, p.1)) =~= s.update(j as int, (key@, enabled)));
            },
            None => {
                self.overrides.push((k, enabled));
                assert(self.overrides@.map_values(|p: (Vec<char>, bool)| (p.0@, p.1)).drop_last() =~= s);
            },
        }
    }

    /// Switches every optional integration on or off.
    pub fn set_all_optional_integrations(&mut self, enabled: bool)
        ensures
            final(self).view() == old(self).view().union_prefer_right(
                Map::new(|k: Seq<char>| optional_key(k), |k: Seq<char>| enabled),
            ),
    {
        proof {
            lemma_required_keys();
        }
        let cat = integration_catalog();
        let ghost m0 = self.view();
        let mut i: usize = 0;
        while i < cat.len()
            invariant
                i <= cat.len(),
                cat@.len() == catalog_spec().len(),
                forall|q: int| 0 <= q < cat@.len() ==> spec_fields(#[trigger] cat@[q]) == catalog_spec()[q],
                forall|q: int| 0 <= q < catalog_spec().len() && !(#[trigger] catalog_spec()[q]).3 ==> catalog_spec()[q].0 != "less"@ && catalog_spec()[q].0 != "$EDITOR"@,
                forall|k: Seq<char>| is_required_spec(k) <==> (k == "less"@ || k == "$EDITOR"@),
                self.view() == m0.union_prefer_right(
                    Map::new(|k: Seq<char>| optional_key_below(k, i as int), |k: Seq<char>| enabled),
                ),
            decreases cat.len() - i,
        {
            assert(spec_fields(cat@[i as int]) == catalog_spec()[i as int]);
            let ghost pre = self.view();
            if !cat[i].required {
                let key = cat[i].key;
                self.set_integration_enabled(key, enabled);
                proof {
                    assert(!is_required_spec(key@));
                    assert forall|k: Seq<char>| optional_key_below(k, i + 1) <==> (optional_key_below(k, i as int) || k == key@) by {
                        if k == key@ {
                            assert(catalog_spec()[i as int].0 == k);
                        }
                    }
                    assert(self.view() =~= m0.union_prefer_right(
                        Map::new(|k: Seq<char>| optional_key_below(k, i + 1), |k: Seq<char>| enabled),
                    ));
                }
            } else {
                proof {
                    assert forall|k: Seq<char>| optional_key_below(k, i + 1) <==> optional_key_below(k, i as int) by {
                        if optional_key_below(k, i + 1) {
                            let q = choose|q: int| 0 <= q < i + 1 && !(#[trigger] catalog_spec()[q]).3 && catalog_spec()[q].0 == k;
                            assert(q != i);
                        }
                    }
                    assert(Map::new(|k: Seq<char>| optional_key_below(k, i + 1), |k: Seq<char>| enabled) =~= Map::new(|k: Seq<char>| optional_key_below(k, i as int), |k: Seq<char>| enabled));
                }
            }
            i = i + 1;
        }
        proof {
            assert(Map::new(|k: Seq<char>| optional_key_below(k, cat.len() as int), |k: Seq<char>| enabled) =~= Map::new(|k: Seq<char>| optional_key(k), |k: Seq<char>| enabled));
        }
    }

    /// Whether every optional integration is on.
    pub fn all_optional_integrations_enabled(&self) -> (r: bool)
        ensures
            r == all_optional_enabled_spec(self.view()),
    {
        let cat = integration_catalog();
        let mut i: usize = 0;
        while i < cat.len()
            invariant
                i <= cat.len(),
                cat@.len() == catalog_spec().len(),
                forall|q: int| 0 <= q < cat@.len() ==> spec_fields(#[trigger] cat@[q]) == catalog_spec()[q],
                forall|q: int| 0 <= q < i && !(#[trigger] catalog_spec()[q]).3 ==> enabled_spec(self.view(), catalog_spec()[q].0),
            decreases cat.len() - i,
        {
            assert(spec_fields(cat@[i as int]) == catalog_spec()[i as int]);
            if !cat[i].required && !self.integration_enabled(cat[i].key) {
                return false;
            }
            i = i + 1;
        }
        true
    }
}

/// `k` is the key of an optional integration among the first `n`.
pub open spec fn optional_key_below(k: Seq<char>, n: int) -> bool {
    exists|q: int| 0 <= q < n && !(#[trigger] catalog_spec()[q]).3 && catalog_spec()[q].0 == k
}

/// `k` is the key of an optional integration.
pub open spec fn optional_key(k: Seq<char>) -> bool {
    optional_key_below(k, catalog_spec().len() as int)
}

/// The number of rows in the integrations panel.
pub fn integration_count() -> (n: usize)
    ensures
        n == 1 + catalog_spec().len(),
{
    1 + integration_catalog().len()
}

/// An integration is in use when it is on and available.
pub fn integration_active(settings: &IntegrationSettings, key: &str, available: bool) -> (r: bool)
    ensures
        r == (enabled_spec(settings.view(), key@) && available),
{
    settings.integration_enabled(key) && available
}

/// Switching an optional integration and reading it back gives the switch;
/// a required one reads as on whatever was asked.
pub proof fn lemma_set_then_enabled(m: Map<Seq<char>, bool>, k: Seq<char>, e: bool)
    ensures
        enabled_spec(if is_required_spec(k) { m } else { m.insert(k, e) }, k) == (is_required_spec(k) || e),
{
}

/// After switching all optional integrations to `e`, all of them read `e`.
pub proof fn lemma_set_all_then_all_enabled(m: Map<Seq<char>, bool>, e: bool)
    ensures
        all_optional_enabled_spec(m.union_prefer_right(Map::new(|k: Seq<char>| optional_key(k), |k: Seq<char>| e))) == e,
{
    lemma_required_keys();
    let m2 = m.union_prefer_right(Map::new(|k: Seq<char>| optional_key(k), |k: Seq<char>| e));
    assert forall|i: int| 0 <= i < catalog_spec().len() && !(#[trigger] catalog_spec()[i]).3 implies enabled_spec(m2, catalog_spec()[i].0) == e by {
        let k = catalog_spec()[i].0;
        assert(optional_key(k));
        assert(!is_required_spec(k));
    }
    if !e {
        assert(!catalog_spec()[0].3);
        assert(!enabled_spec(m2, catalog_spec()[0].0));
    }
}

} // verus!
