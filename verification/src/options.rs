//! Option descriptors and the option set builder. A `CoreOptions` value
//! accumulates descriptors — each with a short name, a long name, a
//! description, a value arity and an alias list — together with the alias
//! table that maps every registered one-character name to the canonical
//! key under which the option's matches are stored.

use vstd::prelude::*;
use crate::help::HelpText;

verus! {

/// How many values an option captures: none, at most one, exactly one,
/// or one per occurrence.
#[derive(Clone, Copy, Debug, PartialEq, Eq, Structural)]
pub enum Arity {
    NoValue,
    OptionalOne,
    RequiredOne,
    Repeated,
}

/// One declared option. At least one of `short_name` and `long_name` is
/// non-empty in every registered descriptor; the empty string means the
/// form does not exist.
pub struct OptionDescriptor {
    /// One-character name, or empty.
    pub short_name: String,
    /// Multi-character name, or empty.
    pub long_name: String,
    /// Display text for the help listing; no effect on parsing.
    pub description: String,
    /// Display text for the value placeholder; present only when the
    /// arity admits a value.
    pub value_hint: Option<String>,
    /// How many values the option captures.
    pub arity: Arity,
    /// Whether the option may appear more than once.
    pub repeatable: bool,
    /// Further names that resolve to the same canonical key.
    pub aliases: Vec<String>,
}

/// A construction-time error: a mistake in the declarations themselves,
/// made before any argument is parsed.
#[derive(Clone, Copy, Debug, PartialEq, Eq, Structural)]
pub enum ConfigError {
    /// An option was declared with neither a short nor a long name.
    UnnamedOption,
}

/// The key under which an option's matches are stored: its long name,
/// or its short name when no long form exists.
pub open spec fn canonical_key(d: OptionDescriptor) -> Seq<char> {
    if d.long_name@.len() != 0 {
        d.long_name@
    } else {
        d.short_name@
    }
}

/// A descriptor with at least one name.
pub open spec fn has_name(d: OptionDescriptor) -> bool {
    d.short_name@.len() != 0 || d.long_name@.len() != 0
}

/// The alias table as character sequences.
pub open spec fn resolver_view(t: Seq<(String, String)>) -> Seq<(Seq<char>, Seq<char>)> {
    t.map_values(|p: (String, String)| (p.0@, p.1@))
}

/// The mapping an alias table denotes: a later entry for the same name
/// overwrites an earlier one.
pub open spec fn alias_map(t: Seq<(Seq<char>, Seq<char>)>) -> Map<Seq<char>, Seq<char>>
    decreases t.len(),
{
    if t.len() == 0 {
        Map::empty()
    } else {
        alias_map(t.drop_last()).insert(t.last().0, t.last().1)
    }
}

/// The alias-table entries contributed by an alias list: every
/// one-character alias, each mapped to the canonical key.
pub open spec fn alias_entries(aliases: Seq<String>, canon: Seq<char>) -> Seq<
    (Seq<char>, Seq<char>),
>
    decreases aliases.len(),
{
    if aliases.len() == 0 {
        Seq::empty()
    } else {
        let rest = alias_entries(aliases.drop_last(), canon);
        if aliases.last()@.len() == 1 {
            rest.push((aliases.last()@, canon))
        } else {
            rest
        }
    }
}

/// The alias-table entries contributed by one descriptor: its short name,
/// then every one-character alias, each mapped to the canonical key.
pub open spec fn short_entries(d: OptionDescriptor) -> Seq<(Seq<char>, Seq<char>)> {
    let prim: Seq<(Seq<char>, Seq<char>)> = if d.short_name@.len() != 0 {
        seq![(d.short_name@, canonical_key(d))]
    } else {
        Seq::empty()
    };
    prim + alias_entries(d.aliases@, canonical_key(d))
}

/// All names but the first, as character sequences: the names that become
/// aliases of the first.
pub open spec fn rest_names(names: Seq<&str>) -> Seq<Seq<char>> {
    if names.len() == 0 {
        Seq::empty()
    } else {
        names.skip(1).map_values(|s: &str| s@)
    }
}

/// Entries at or after position `i` never bind `k`, so the mapping at `k`
/// is decided by the entries before `i` alone.
pub proof fn lemma_alias_map_skip(t: Seq<(Seq<char>, Seq<char>)>, i: int, k: Seq<char>)
    requires
        0 <= i <= t.len(),
        forall|j: int| i <= j < t.len() ==> (#[trigger] t[j]).0 != k,
    ensures
        alias_map(t).contains_key(k) == alias_map(t.take(i)).contains_key(k),
        alias_map(t).contains_key(k) ==> alias_map(t)[k] == alias_map(t.take(i))[k],
    decreases t.len(),
{
    if i == t.len() {
        assert(t.take(i) =~= t);
    } else {
        lemma_alias_map_skip(t.drop_last(), i, k);
        assert(t.drop_last().take(i) =~= t.take(i));
    }
}

/// Looks a name up in an alias table; the latest entry for the name wins.
pub fn lookup_alias(table: &Vec<(String, String)>, nm: &str) -> (r: Option<String>)
    ensures
        match r {
            Some(c) => alias_map(resolver_view(table@)).contains_key(nm@) && c@ == alias_map(
                resolver_view(table@),
            )[nm@],
            None => !alias_map(resolver_view(table@)).contains_key(nm@),
        },
{
    let ghost rv = resolver_view(table@);
    let mut i: usize = table.len();
    while i > 0
        invariant
            i <= table@.len(),
            rv == resolver_view(table@),
            forall|j: int| i <= j < rv.len() ==> (#[trigger] rv[j]).0 != nm@,
        decreases i,
    {
        i = i - 1;
        let pair = &table[i];
        if pair.0.as_str().eq(nm) {
            proof {
                lemma_alias_map_skip(rv, i + 1, nm@);
                assert(rv.take(i + 1).drop_last() =~= rv.take(i as int));
                assert(rv.take(i + 1).last() == rv[i as int]);
            }
            return Some(pair.1.clone());
        }
    }
    proof {
        lemma_alias_map_skip(rv, 0, nm@);
        assert(alias_map(rv.take(0)) =~= Map::<Seq<char>, Seq<char>>::empty());
    }
    None
}

/// An option set under construction: the display metadata, the ordered
/// descriptors, and the alias table grown as a side effect of every
/// registration.
pub struct CoreOptions {
    pub help_text: HelpText,
    pub descriptors: Vec<OptionDescriptor>,
    pub short_to_long: Vec<(String, String)>,
}

/// `post` is `pre` with exactly the descriptor `d` registered: `d` is
/// appended and the alias table grows by `d`'s short entries.
pub open spec fn registered(pre: CoreOptions, post: CoreOptions, d: OptionDescriptor) -> bool {
    &&& post.descriptors@ == pre.descriptors@.push(d)
    &&& resolver_view(post.short_to_long@) == resolver_view(pre.short_to_long@) + short_entries(d)
    &&& post.help_text == pre.help_text
}

/// The fields of `d`, as character sequences.
pub open spec fn descriptor_matches(
    d: OptionDescriptor,
    short: Seq<char>,
    long: Seq<char>,
    desc: Seq<char>,
    hint: Option<Seq<char>>,
    arity: Arity,
    repeatable: bool,
    aliases: Seq<Seq<char>>,
) -> bool {
    &&& d.short_name@ == short
    &&& d.long_name@ == long
    &&& d.description@ == desc
    &&& crate::help::view_opt_string(d.value_hint) == hint
    &&& d.arity == arity
    &&& d.repeatable == repeatable
    &&& d.aliases@.map_values(|a: String| a@) == aliases
}

impl CoreOptions {
    /// Starts an option set with no declared options.
    pub fn new(help_text: HelpText) -> (r: Self)
        ensures
            r.help_text == help_text,
            r.descriptors@.len() == 0,
            r.short_to_long@.len() == 0,
    {
        CoreOptions { help_text, descriptors: Vec::new(), short_to_long: Vec::new() }
    }

    /// Registers one descriptor. A descriptor with neither a short nor a
    /// long name is a construction error: it is rejected and the option
    /// set is left exactly as it was, with no partial configuration.
    pub fn try_register(&mut self, d: OptionDescriptor) -> (r: Result<(), ConfigError>)
        ensures
            has_name(d) ==> r is Ok && registered(*old(self), *final(self), d),
            !has_name(d) ==> r == Result::<(), ConfigError>::Err(ConfigError::UnnamedOption)
                && *final(self) == *old(self),
    {
        if d.short_name.as_str().is_empty() && d.long_name.as_str().is_empty() {
            return Err(ConfigError::UnnamedOption);
        }
        let canon: String = if !d.long_name.as_str().is_empty() {
            d.long_name.clone()
        } else {
            d.short_name.clone()
        };
        let ghost prim: Seq<(Seq<char>, Seq<char>)> = if d.short_name@.len() != 0 {
            seq![(d.short_name@, canonical_key(d))]
        } else {
            Seq::empty()
        };
        if !d.short_name.as_str().is_empty() {
            self.short_to_long.push((d.short_name.clone(), canon.clone()));
        }
        proof {
            assert(resolver_view(self.short_to_long@) =~= resolver_view(
                old(self).short_to_long@,
            ) + prim);
        }
        let mut i: usize = 0;
        while i < d.aliases.len()
            invariant
                i <= d.aliases@.len(),
                canon@ == canonical_key(d),
                self.descriptors@ == old(self).descriptors@,
                self.help_text == old(self).help_text,
                resolver_view(self.short_to_long@) == resolver_view(old(self).short_to_long@)
                    + prim + alias_entries(d.aliases@.take(i as int), canonical_key(d)),
            decreases d.aliases@.len() - i,
        {
            let a = &d.aliases[i];
            let ghost before = self.short_to_long@;
            if a.as_str().unicode_len() == 1 {
                self.short_to_long.push((a.clone(), canon.clone()));
                proof {
                    assert(resolver_view(self.short_to_long@) =~= resolver_view(before).push(
                        (d.aliases@[i as int]@, canonical_key(d)),
                    ));
                }
            }
            proof {
                assert(d.aliases@.take(i + 1).drop_last() =~= d.aliases@.take(i as int));
                assert(d.aliases@.take(i + 1).last() == d.aliases@[i as int]);
                assert(resolver_view(self.short_to_long@) =~= resolver_view(
                    old(self).short_to_long@,
                ) + prim + alias_entries(d.aliases@.take(i + 1), canonical_key(d)));
            }
            i += 1;
        }
        proof {
            assert(d.aliases@.take(d.aliases@.len() as int) =~= d.aliases@);
            assert(resolver_view(self.short_to_long@) =~= resolver_view(old(self).short_to_long@)
                + short_entries(d));
        }
        self.descriptors.push(d);
        Ok(())
    }

    /// Declares a flag: present or absent, no value.
    pub fn optflag(&mut self, short_name: &str, long_name: &str, desc: &str)
        requires
            short_name@.len() != 0 || long_name@.len() != 0,
            short_name@.len() <= 1,
        ensures
            registered(*old(self), *final(self), final(self).descriptors@.last()),
            descriptor_matches(
                final(self).descriptors@.last(),
                short_name@,
                long_name@,
                desc@,
                None,
                Arity::NoValue,
                false,
                Seq::empty(),
            ),
    {
        let d = OptionDescriptor {
            short_name: short_name.to_owned(),
            long_name: long_name.to_owned(),
            description: desc.to_owned(),
            value_hint: None,
            arity: Arity::NoValue,
            repeatable: false,
            aliases: Vec::new(),
        };
        proof {
            assert(d.aliases@.map_values(|a: String| a@) =~= Seq::<Seq<char>>::empty());
        }
        let _r = self.try_register(d);
    }

    /// Declares a flag that may appear more than once; presence is still
    /// a yes-or-no question.
    pub fn optflagmulti(&mut self, short_name: &str, long_name: &str, desc: &str)
        requires
            short_name@.len() != 0 || long_name@.len() != 0,
            short_name@.len() <= 1,
        ensures
            registered(*old(self), *final(self), final(self).descriptors@.last()),
            descriptor_matches(
                final(self).descriptors@.last(),
                short_name@,
                long_name@,
                desc@,
                None,
                Arity::NoValue,
                true,
                Seq::empty(),
            ),
    {
        let d = OptionDescriptor {
            short_name: short_name.to_owned(),
            long_name: long_name.to_owned(),
            description: desc.to_owned(),
            value_hint: None,
            arity: Arity::NoValue,
            repeatable: true,
            aliases: Vec::new(),
        };
        proof {
            assert(d.aliases@.map_values(|a: String| a@) =~= Seq::<Seq<char>>::empty());
        }
        let _r = self.try_register(d);
    }

    /// Declares an option whose value may be omitted.
    pub fn optflagopt(&mut self, short_name: &str, long_name: &str, desc: &str, hint: &str)
        requires
            short_name@.len() != 0 || long_name@.len() != 0,
            short_name@.len() <= 1,
        ensures
            registered(*old(self), *final(self), final(self).descriptors@.last()),
            descriptor_matches(
                final(self).descriptors@.last(),
                short_name@,
                long_name@,
                desc@,
                Some(hint@),
                Arity::OptionalOne,
                false,
                Seq::empty(),
            ),
    {
        let d = OptionDescriptor {
            short_name: short_name.to_owned(),
            long_name: long_name.to_owned(),
            description: desc.to_owned(),
            value_hint: Some(hint.to_owned()),
            arity: Arity::OptionalOne,
            repeatable: false,
            aliases: Vec::new(),
        };
        proof {
            assert(d.aliases@.map_values(|a: String| a@) =~= Seq::<Seq<char>>::empty());
        }
        let _r = self.try_register(d);
    }

    /// Declares an option that takes exactly one value.
    pub fn optopt(&mut self, short_name: &str, long_name: &str, desc: &str, hint: &str)
        requires
            short_name@.len() != 0 || long_name@.len() != 0,
            short_name@.len() <= 1,
        ensures
            registered(*old(self), *final(self), final(self).descriptors@.last()),
            descriptor_matches(
                final(self).descriptors@.last(),
                short_name@,
                long_name@,
                desc@,
                Some(hint@),
                Arity::RequiredOne,
                false,
                Seq::empty(),
            ),
    {
        let d = OptionDescriptor {
            short_name: short_name.to_owned(),
            long_name: long_name.to_owned(),
            description: desc.to_owned(),
            value_hint: Some(hint.to_owned()),
            arity: Arity::RequiredOne,
            repeatable: false,
            aliases: Vec::new(),
        };
        proof {
            assert(d.aliases@.map_values(|a: String| a@) =~= Seq::<Seq<char>>::empty());
        }
        let _r = self.try_register(d);
    }

    /// Declares an option that takes one value per occurrence, every
    /// occurrence's value retained in order.
    pub fn optmulti(&mut self, short_name: &str, long_name: &str, desc: &str, hint: &str)
        requires
            short_name@.len() != 0 || long_name@.len() != 0,
            short_name@.len() <= 1,
        ensures
            registered(*old(self), *final(self), final(self).descriptors@.last()),
            descriptor_matches(
                final(self).descriptors@.last(),
                short_name@,
                long_name@,
                desc@,
                Some(hint@),
                Arity::Repeated,
                true,
                Seq::empty(),
            ),
    {
        let d = OptionDescriptor {
            short_name: short_name.to_owned(),
            long_name: long_name.to_owned(),
            description: desc.to_owned(),
            value_hint: Some(hint.to_owned()),
            arity: Arity::Repeated,
            repeatable: true,
            aliases: Vec::new(),
        };
        proof {
            assert(d.aliases@.map_values(|a: String| a@) =~= Seq::<Seq<char>>::empty());
        }
        let _r = self.try_register(d);
    }

    /// Declares one flag under several names: the first short and the
    /// first long name become the flag's own names, every further name an
    /// alias that resolves to the same canonical key.
    pub fn optflags(&mut self, short_names: &[&str], long_names: &[&str], desc: &str)
        requires
            (short_names@.len() != 0 && short_names@[0]@.len() != 0) || (long_names@.len() != 0
                && long_names@[0]@.len() != 0),
            short_names@.len() != 0 ==> short_names@[0]@.len() <= 1,
        ensures
            registered(*old(self), *final(self), final(self).descriptors@.last()),
            descriptor_matches(
                final(self).descriptors@.last(),
                if short_names@.len() != 0 { short_names@[0]@ } else { Seq::empty() },
                if long_names@.len() != 0 { long_names@[0]@ } else { Seq::empty() },
                desc@,
                None,
                Arity::NoValue,
                false,
                rest_names(short_names@) + rest_names(long_names@),
            ),
    {
        let short: String = if short_names.len() > 0 {
            (*vstd::slice::slice_index_get(short_names, 0)).to_owned()
        } else {
            String::new()
        };
        let long: String = if long_names.len() > 0 {
            (*vstd::slice::slice_index_get(long_names, 0)).to_owned()
        } else {
            String::new()
        };
        let mut aliases: Vec<String> = Vec::new();
        let mut i: usize = 1;
        while i < short_names.len()
            invariant
                1 <= i,
                i <= short_names@.len() || i == 1,
                aliases@.map_values(|a: String| a@) == (if i <= short_names@.len() {
                    short_names@.subrange(1, i as int).map_values(|s: &str| s@)
                } else {
                    Seq::<Seq<char>>::empty()
                }),
            decreases short_names@.len() - i,
        {
            let ghost prev = aliases@;
            let s: &str = *vstd::slice::slice_index_get(short_names, i);
            let owned: String = s.to_owned();
            aliases.push(owned);
            proof {
                assert(owned@ == short_names@[i as int]@);
                assert(aliases@ == prev.push(owned));
                assert(aliases@.map_values(|a: String| a@) =~= prev.map_values(
                    |a: String| a@,
                ).push(short_names@[i as int]@));
                assert(short_names@.subrange(1, i + 1).drop_last() =~= short_names@.subrange(
                    1,
                    i as int,
                ));
                assert(aliases@.map_values(|a: String| a@) =~= short_names@.subrange(
                    1,
                    i + 1,
                ).map_values(|s2: &str| s2@));
            }
            i += 1;
        }
        proof {
            if short_names@.len() != 0 {
                assert(short_names@.subrange(1, short_names@.len() as int) =~= short_names@.skip(
                    1,
                ));
            }
            assert(aliases@.map_values(|a: String| a@) =~= rest_names(short_names@));
        }
        let ghost from_short = aliases@;
        let mut j: usize = 1;
        while j < long_names.len()
            invariant
                1 <= j,
                j <= long_names@.len() || j == 1,
                from_short.map_values(|a: String| a@) == rest_names(short_names@),
                aliases@.map_values(|a: String| a@) == from_short.map_values(|a: String| a@) + (
                if j <= long_names@.len() {
                    long_names@.subrange(1, j as int).map_values(|s: &str| s@)
                } else {
                    Seq::<Seq<char>>::empty()
                }),
            decreases long_names@.len() - j,
        {
            let ghost prev = aliases@;
            let s: &str = *vstd::slice::slice_index_get(long_names, j);
            let owned: String = s.to_owned();
            aliases.push(owned);
            proof {
                assert(owned@ == long_names@[j as int]@);
                assert(aliases@ == prev.push(owned));
                assert(aliases@.map_values(|a: String| a@) =~= prev.map_values(
                    |a: String| a@,
                ).push(long_names@[j as int]@));
                assert(long_names@.subrange(1, j + 1).drop_last() =~= long_names@.subrange(
                    1,
                    j as int,
                ));
                assert(aliases@.map_values(|a: String| a@) =~= from_short.map_values(
                    |a: String| a@,
                ) + long_names@.subrange(1, j + 1).map_values(|s2: &str| s2@));
            }
            j += 1;
        }
        proof {
            if long_names@.len() != 0 {
                assert(long_names@.subrange(1, long_names@.len() as int) =~= long_names@.skip(1));
            }
            assert(aliases@.map_values(|a: String| a@) =~= rest_names(short_names@) + rest_names(
                long_names@,
            ));
        }
        let d = OptionDescriptor {
            short_name: short,
            long_name: long,
            description: desc.to_owned(),
            value_hint: None,
            arity: Arity::NoValue,
            repeatable: false,
            aliases,
        };
        let _r = self.try_register(d);
    }
}

} // verus!
