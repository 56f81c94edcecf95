//! The queryable snapshot of one successful parse: the positional
//! arguments and, for every declared option that occurred, its canonical
//! key and the values captured for it. Queries accept either the short or
//! the long name of an option: a one-character name is translated through
//! the alias table, any other name is taken as already canonical, and a
//! name never declared is simply reported absent.

use vstd::prelude::*;
use vstd::string::*;
use crate::options::alias_map;
use crate::options::lookup_alias;
use crate::options::resolver_view;

verus! {

/// One present option: its canonical key and the values captured for it,
/// in encounter order.
#[derive(Clone, Debug)]
pub struct MatchEntry {
    pub key: String,
    pub values: Vec<String>,
}

/// The result of a successful parse. Immutable: no query changes it.
#[derive(Clone, Debug)]
pub struct Matches {
    /// Positional arguments not claimed by any declared option, in
    /// command-line order.
    pub free: Vec<String>,
    /// The presence table: one entry per declared option that occurred.
    pub entries: Vec<MatchEntry>,
    /// The alias table of the option set this value was parsed under.
    pub short_to_long: Vec<(String, String)>,
}

/// The canonical key a query name denotes under `table`: a one-character
/// name is translated through the table, any other name is already
/// canonical, and an unknown one-character name denotes itself.
pub open spec fn resolve_in(table: Seq<(Seq<char>, Seq<char>)>, nm: Seq<char>) -> Seq<char> {
    if nm.len() != 1 {
        nm
    } else if alias_map(table).contains_key(nm) {
        alias_map(table)[nm]
    } else {
        nm
    }
}

/// The values stored under `key`, or `None` when no entry carries it.
pub open spec fn lookup_values(entries: Seq<MatchEntry>, key: Seq<char>) -> Option<Seq<Seq<char>>>
    decreases entries.len(),
{
    if entries.len() == 0 {
        None
    } else if entries.first().key@ == key {
        Some(entries.first().values@.map_values(|v: String| v@))
    } else {
        lookup_values(entries.drop_first(), key)
    }
}

/// Entries before position `i` never carry `k`, so the lookup is decided
/// by the entries from `i` on alone.
pub proof fn lemma_lookup_skip(entries: Seq<MatchEntry>, i: int, k: Seq<char>)
    requires
        0 <= i <= entries.len(),
        forall|j: int| 0 <= j < i ==> (#[trigger] entries[j]).key@ != k,
    ensures
        lookup_values(entries, k) == lookup_values(entries.skip(i), k),
    decreases i,
{
    if i == 0 {
        assert(entries.skip(0) =~= entries);
    } else {
        lemma_lookup_skip(entries.drop_first(), i - 1, k);
        assert(entries.drop_first().skip(i - 1) =~= entries.skip(i));
    }
}

/// Finds the first entry that carries `key`.
fn lookup_entry(entries: &Vec<MatchEntry>, key: &str) -> (r: Option<usize>)
    ensures
        match r {
            Some(idx) => idx < entries@.len() && entries@[idx as int].key@ == key@
                && lookup_values(entries@, key@) == Some(
                entries@[idx as int].values@.map_values(|v: String| v@),
            ),
            None => lookup_values(entries@, key@) is None,
        },
{
    let mut i: usize = 0;
    while i < entries.len()
        invariant
            i <= entries@.len(),
            forall|j: int| 0 <= j < i ==> (#[trigger] entries@[j]).key@ != key@,
        decreases entries@.len() - i,
    {
        if entries[i].key.as_str().eq(key) {
            proof {
                lemma_lookup_skip(entries@, i as int, key@);
                assert(entries@.skip(i as int).first() == entries@[i as int]);
                assert(entries@.skip(i as int).len() != 0);
            }
            return Some(i);
        }
        i += 1;
    }
    proof {
        lemma_lookup_skip(entries@, entries@.len() as int, key@);
        assert(entries@.skip(entries@.len() as int).len() == 0);
    }
    None
}

impl Matches {
    /// The canonical key a query name denotes under this value's alias
    /// table.
    pub open spec fn spec_resolve(&self, nm: Seq<char>) -> Seq<char> {
        resolve_in(resolver_view(self.short_to_long@), nm)
    }

    /// Whether the named option occurred.
    pub open spec fn spec_present(&self, nm: Seq<char>) -> bool {
        lookup_values(self.entries@, self.spec_resolve(nm)) is Some
    }

    /// The first value captured for the named option, if any.
    pub open spec fn spec_opt_str(&self, nm: Seq<char>) -> Option<Seq<char>> {
        match lookup_values(self.entries@, self.spec_resolve(nm)) {
            Some(vs) => if vs.len() > 0 {
                Some(vs[0])
            } else {
                None
            },
            None => None,
        }
    }

    /// Every value captured for the named option, in encounter order.
    pub open spec fn spec_opt_strs(&self, nm: Seq<char>) -> Seq<Seq<char>> {
        match lookup_values(self.entries@, self.spec_resolve(nm)) {
            Some(vs) => vs,
            None => Seq::empty(),
        }
    }

    /// The canonical key for `nm`, as an owned string.
    fn resolve_name(&self, nm: &str) -> (r: String)
        ensures
            r@ == self.spec_resolve(nm@),
    {
        if nm.unicode_len() != 1 {
            return nm.to_owned();
        }
        match lookup_alias(&self.short_to_long, nm) {
            Some(c) => c,
            None => nm.to_owned(),
        }
    }

    /// Whether the named option occurred. A name never declared is not an
    /// error: it is reported absent.
    pub fn opt_present(&self, nm: &str) -> (r: bool)
        ensures
            r == self.spec_present(nm@),
    {
        let key = self.resolve_name(nm);
        match lookup_entry(&self.entries, key.as_str()) {
            Some(_) => true,
            None => false,
        }
    }

    /// Whether any of the given names denotes a present option.
    pub fn opts_present(&self, names: &[String]) -> (r: bool)
        ensures
            r == exists|i: int| 0 <= i < names@.len() && self.spec_present(names@[i]@),
    {
        let mut i: usize = 0;
        while i < names.len()
            invariant
                i <= names@.len(),
                forall|j: int| 0 <= j < i ==> !self.spec_present((#[trigger] names@[j])@),
            decreases names@.len() - i,
        {
            if self.opt_present(vstd::slice::slice_index_get(names, i).as_str()) {
                return true;
            }
            i += 1;
        }
        false
    }

    /// The first value captured for the named option; `None` when the
    /// option is absent, was never declared, or captures no value.
    pub fn opt_str(&self, nm: &str) -> (r: Option<String>)
        ensures
            match r {
                Some(v) => self.spec_opt_str(nm@) == Some(v@),
                None => self.spec_opt_str(nm@) is None,
            },
    {
        let key = self.resolve_name(nm);
        match lookup_entry(&self.entries, key.as_str()) {
            Some(idx) => {
                let e = &self.entries[idx];
                if e.values.len() > 0 {
                    Some(e.values[0].clone())
                } else {
                    None
                }
            },
            None => None,
        }
    }

    /// Every value captured for the named option, in encounter order;
    /// empty when the option is absent or was never declared.
    pub fn opt_strs(&self, nm: &str) -> (r: Vec<String>)
        ensures
            r@.map_values(|v: String| v@) == self.spec_opt_strs(nm@),
    {
        let key = self.resolve_name(nm);
        match lookup_entry(&self.entries, key.as_str()) {
            Some(idx) => {
                let vs = self.entries[idx].values.clone();
                proof {
                    assert forall|k: int| 0 <= k < vs@.len() implies vs@[k]
                        == self.entries@[idx as int].values@[k] by {
                        assert(cloned(self.entries@[idx as int].values@[k], vs@[k]));
                    }
                    assert(vs@ =~= self.entries@[idx as int].values@);
                }
                vs
            },
            None => {
                proof {
                    assert(Seq::<String>::empty().map_values(|v: String| v@) =~= Seq::<
                        Seq<char>,
                    >::empty());
                }
                Vec::new()
            },
        }
    }
}

} // verus!

