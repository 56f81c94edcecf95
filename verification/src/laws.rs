//! The general guarantees of the query layer, stated and proved once for
//! all inputs: a short name and the long name it is bound to answer every
//! query alike, and a name never declared is always absent.

use vstd::prelude::*;
use crate::matches::Matches;
use crate::options::alias_entries;
use crate::options::alias_map;
use crate::options::canonical_key;
use crate::options::lemma_alias_map_skip;
use crate::options::registered;
use crate::options::resolver_view;
use crate::options::CoreOptions;
use crate::options::OptionDescriptor;
use crate::parse::declared_key;
use crate::parse::parse_success_ok;

verus! {

/// `d` carries `x` as its short name, its long name or one of its
/// aliases.
pub open spec fn declares_name(d: OptionDescriptor, x: Seq<char>) -> bool {
    ||| d.short_name@ == x
    ||| d.long_name@ == x
    ||| exists|j: int| 0 <= j < d.aliases@.len() && (#[trigger] d.aliases@[j])@ == x
}

/// Some descriptor of the option set carries `x` as a name.
pub open spec fn declared_by_some(opts: CoreOptions, x: Seq<char>) -> bool {
    exists|i: int|
        0 <= i < opts.descriptors@.len() && declares_name(#[trigger] opts.descriptors@[i], x)
}

/// Every name in the alias table was put there by some descriptor: the
/// shape every option set built by registration alone has.
pub open spec fn resolver_wf(opts: CoreOptions) -> bool {
    forall|j: int|
        0 <= j < opts.short_to_long@.len() ==> declared_by_some(
            opts,
            (#[trigger] opts.short_to_long@[j]).0@,
        )
}

/// Every entry an alias list contributes carries the canonical key as its
/// value, and a key drawn from the list.
proof fn lemma_alias_entries_shape(aliases: Seq<String>, canon: Seq<char>)
    ensures
        forall|j: int|
            0 <= j < alias_entries(aliases, canon).len() ==> (#[trigger] alias_entries(
                aliases,
                canon,
            )[j]).1 == canon,
        forall|j: int|
            0 <= j < alias_entries(aliases, canon).len() ==> exists|i: int|
                0 <= i < aliases.len() && aliases[i]@ == (#[trigger] alias_entries(
                    aliases,
                    canon,
                )[j]).0,
    decreases aliases.len(),
{
    if aliases.len() != 0 {
        lemma_alias_entries_shape(aliases.drop_last(), canon);
        assert forall|j: int|
            0 <= j < alias_entries(aliases, canon).len() implies (#[trigger] alias_entries(
            aliases,
            canon,
        )[j]).1 == canon by {
            let rest = alias_entries(aliases.drop_last(), canon);
            if j < rest.len() {
                assert(alias_entries(aliases, canon)[j] == rest[j]);
            }
        }
        assert forall|j: int|
            0 <= j < alias_entries(aliases, canon).len() implies exists|i: int|
            0 <= i < aliases.len() && aliases[i]@ == (#[trigger] alias_entries(
                aliases,
                canon,
            )[j]).0 by {
            let rest = alias_entries(aliases.drop_last(), canon);
            if j < rest.len() {
                assert(alias_entries(aliases, canon)[j] == rest[j]);
                let i = choose|i: int|
                    0 <= i < aliases.drop_last().len() && (#[trigger] aliases.drop_last()[i])@
                        == rest[j].0;
                assert(aliases[i] == aliases.drop_last()[i]);
                assert(aliases[i]@ == alias_entries(aliases, canon)[j].0);
            } else {
                assert(aliases.last()@ == alias_entries(aliases, canon)[j].0);
                assert(aliases[aliases.len() - 1]@ == alias_entries(aliases, canon)[j].0);
            }
        }
    }
}

/// When every entry of `b` carries the value `v` and some entry of `b`
/// carries the key `k`, the table `a + b` binds `k` to `v`.
proof fn lemma_alias_map_concat_binds(
    a: Seq<(Seq<char>, Seq<char>)>,
    b: Seq<(Seq<char>, Seq<char>)>,
    k: Seq<char>,
    v: Seq<char>,
)
    requires
        exists|j: int| 0 <= j < b.len() && (#[trigger] b[j]).0 == k,
        forall|j: int| 0 <= j < b.len() ==> (#[trigger] b[j]).1 == v,
    ensures
        alias_map(a + b).contains_key(k),
        alias_map(a + b)[k] == v,
    decreases b.len(),
{
    assert(b.len() != 0);
    assert((a + b).len() != 0);
    assert((a + b).last() == b.last());
    if b.last().0 == k {
        assert(b.last().1 == v);
    } else {
        let j = choose|j: int| 0 <= j < b.len() && (#[trigger] b[j]).0 == k;
        assert(j < b.len() - 1);
        assert(b.drop_last()[j] == b[j]);
        lemma_alias_map_concat_binds(a, b.drop_last(), k, v);
        assert((a + b).drop_last() =~= a + b.drop_last());
    }
}

/// Every key the alias table's mapping contains stands in some entry of
/// the table.
proof fn lemma_alias_map_key_source(t: Seq<(Seq<char>, Seq<char>)>, k: Seq<char>)
    requires
        alias_map(t).contains_key(k),
    ensures
        exists|j: int| 0 <= j < t.len() && (#[trigger] t[j]).0 == k,
    decreases t.len(),
{
    assert(t.len() != 0);
    if t.last().0 != k {
        lemma_alias_map_key_source(t.drop_last(), k);
        let j = choose|j: int| 0 <= j < t.drop_last().len() && (#[trigger] t.drop_last()[j]).0 == k;
        assert(t[j].0 == k);
    }
}

/// Registering an option that has both a short and a long name binds the
/// short name to the long name in the alias table, whichever of the
/// option's own entries ends up deciding the binding.
pub proof fn lemma_register_binds_short(pre: CoreOptions, post: CoreOptions, d: OptionDescriptor)
    requires
        registered(pre, post, d),
        d.short_name@.len() != 0,
        d.long_name@.len() != 0,
    ensures
        alias_map(resolver_view(post.short_to_long@)).contains_key(d.short_name@),
        alias_map(resolver_view(post.short_to_long@))[d.short_name@] == d.long_name@,
{
    let entries = crate::options::short_entries(d);
    lemma_alias_entries_shape(d.aliases@, canonical_key(d));
    assert(entries[0].0 == d.short_name@);
    assert forall|j: int| 0 <= j < entries.len() implies (#[trigger] entries[j]).1
        == canonical_key(d) by {
        if j > 0 {
            assert(entries[j] == alias_entries(d.aliases@, canonical_key(d))[j - 1]);
        }
    }
    lemma_alias_map_concat_binds(
        resolver_view(pre.short_to_long@),
        entries,
        d.short_name@,
        canonical_key(d),
    );
}

/// A freshly started option set has a well-shaped alias table: an empty
/// one.
pub proof fn lemma_new_wf(opts: CoreOptions)
    requires
        opts.short_to_long@.len() == 0,
    ensures
        resolver_wf(opts),
{
}

/// Registration keeps the alias table well-shaped: every entry it adds
/// carries a name of the descriptor it registers.
pub proof fn lemma_register_preserves_wf(pre: CoreOptions, post: CoreOptions, d: OptionDescriptor)
    requires
        resolver_wf(pre),
        registered(pre, post, d),
    ensures
        resolver_wf(post),
{
    let pre_rv = resolver_view(pre.short_to_long@);
    let post_rv = resolver_view(post.short_to_long@);
    let entries = crate::options::short_entries(d);
    lemma_alias_entries_shape(d.aliases@, canonical_key(d));
    assert forall|j: int| 0 <= j < post.short_to_long@.len() implies declared_by_some(
        post,
        (#[trigger] post.short_to_long@[j]).0@,
    ) by {
        assert(post_rv[j] == (post.short_to_long@[j].0@, post.short_to_long@[j].1@));
        if j < pre_rv.len() {
            assert(pre_rv[j] == (pre.short_to_long@[j].0@, pre.short_to_long@[j].1@));
            assert(post_rv[j] == pre_rv[j]);
            assert(declared_by_some(pre, pre.short_to_long@[j].0@));
            let i = choose|i: int|
                0 <= i < pre.descriptors@.len() && declares_name(
                    #[trigger] pre.descriptors@[i],
                    pre.short_to_long@[j].0@,
                );
            assert(post.descriptors@[i] == pre.descriptors@[i]);
            assert(declares_name(post.descriptors@[i], post.short_to_long@[j].0@));
        } else {
            let e = entries[j - pre_rv.len()];
            assert(post_rv == pre_rv + entries);
            assert(post_rv.len() == post.short_to_long@.len());
            assert(pre_rv.len() == pre.short_to_long@.len());
            assert((pre_rv + entries).len() == pre_rv.len() + entries.len());
            assert(0 <= j - pre_rv.len() < entries.len());
            assert((pre_rv + entries)[j] == entries[j - pre_rv.len()]);
            assert(post_rv[j] == e);
            let last = post.descriptors@.len() - 1;
            assert(post.descriptors@[last] == d);
            let prim: Seq<(Seq<char>, Seq<char>)> = if d.short_name@.len() != 0 {
                seq![(d.short_name@, canonical_key(d))]
            } else {
                Seq::empty()
            };
            assert(entries == prim + alias_entries(d.aliases@, canonical_key(d)));
            if d.short_name@.len() != 0 && j - pre_rv.len() == 0 {
                assert(e == (prim + alias_entries(d.aliases@, canonical_key(d)))[0]);
                assert(e == prim[0]);
                assert(declares_name(d, e.0));
                assert(declares_name(post.descriptors@[last], post_rv[j].0));
            } else {
                let off: int = prim.len() as int;
                let idx = j - pre_rv.len() - off;
                assert((prim + alias_entries(d.aliases@, canonical_key(d)))[j - pre_rv.len()]
                    == alias_entries(d.aliases@, canonical_key(d))[idx]);
                assert(e == alias_entries(d.aliases@, canonical_key(d))[idx]);
                assert(exists|i: int|
                    0 <= i < d.aliases@.len() && d.aliases@[i]@ == (alias_entries(
                        d.aliases@,
                        canonical_key(d),
                    )[idx]).0);
                let i = choose|i: int|
                    0 <= i < d.aliases@.len() && d.aliases@[i]@ == (alias_entries(
                        d.aliases@,
                        canonical_key(d),
                    )[idx]).0;
                assert(declares_name(d, e.0));
                assert(declares_name(post.descriptors@[last], post_rv[j].0));
            }
        }
    }
    assert(resolver_wf(post));
}

/// A later registration disturbs no binding but those of the names it
/// carries itself: if the alias table binds `s` to `v` and the newly
/// registered descriptor has neither `s` as its short name nor `s` among
/// its aliases, the binding stands unchanged.
pub proof fn lemma_register_keeps_other_bindings(
    pre: CoreOptions,
    post: CoreOptions,
    d: OptionDescriptor,
    s: Seq<char>,
)
    requires
        registered(pre, post, d),
        alias_map(resolver_view(pre.short_to_long@)).contains_key(s),
        d.short_name@ != s,
        forall|j: int| 0 <= j < d.aliases@.len() ==> (#[trigger] d.aliases@[j])@ != s,
    ensures
        alias_map(resolver_view(post.short_to_long@)).contains_key(s),
        alias_map(resolver_view(post.short_to_long@))[s] == alias_map(
            resolver_view(pre.short_to_long@),
        )[s],
{
    let pre_rv = resolver_view(pre.short_to_long@);
    let post_rv = resolver_view(post.short_to_long@);
    let entries = crate::options::short_entries(d);
    lemma_alias_entries_shape(d.aliases@, canonical_key(d));
    assert forall|j: int| pre_rv.len() <= j < post_rv.len() implies (#[trigger] post_rv[j]).0
        != s by {
        assert(post_rv == pre_rv + entries);
        assert((pre_rv + entries)[j] == entries[j - pre_rv.len()]);
        let prim: Seq<(Seq<char>, Seq<char>)> = if d.short_name@.len() != 0 {
            seq![(d.short_name@, canonical_key(d))]
        } else {
            Seq::empty()
        };
        assert(entries == prim + alias_entries(d.aliases@, canonical_key(d)));
        let jj = j - pre_rv.len();
        if jj < prim.len() {
            assert(entries[jj] == prim[jj]);
        } else {
            assert((prim + alias_entries(d.aliases@, canonical_key(d)))[jj] == alias_entries(
                d.aliases@,
                canonical_key(d),
            )[jj - prim.len()]);
            let i = choose|i: int|
                0 <= i < d.aliases@.len() && d.aliases@[i]@ == (alias_entries(
                    d.aliases@,
                    canonical_key(d),
                )[jj - prim.len()]).0;
            assert(d.aliases@[i]@ != s);
        }
    }
    lemma_alias_map_skip(post_rv, pre_rv.len() as int, s);
    assert(post_rv.take(pre_rv.len() as int) =~= pre_rv);
}

/// For any option whose short name `s` the alias table binds to the
/// canonical key `l` — as registering an option with short name `s` and
/// long name `l` does — every query under `s` answers exactly as under
/// `l`, on every matches value and so on every input.
pub proof fn lemma_short_long_equivalent(m: Matches, s: Seq<char>, l: Seq<char>)
    requires
        s.len() == 1,
        l.len() != 1,
        alias_map(resolver_view(m.short_to_long@)).contains_key(s),
        alias_map(resolver_view(m.short_to_long@))[s] == l,
    ensures
        m.spec_present(s) == m.spec_present(l),
        m.spec_opt_str(s) == m.spec_opt_str(l),
        m.spec_opt_strs(s) == m.spec_opt_strs(l),
{
    assert(m.spec_resolve(s) == l);
    assert(m.spec_resolve(l) == l);
}

/// An option never declared is absent: when no descriptor of a
/// well-shaped option set carries `x` as a name, any matches a parse of
/// that option set produced reports `x` not present, with no value.
pub proof fn lemma_undeclared_absent(opts: CoreOptions, m: Matches, x: Seq<char>)
    requires
        resolver_wf(opts),
        parse_success_ok(opts, m),
        !declared_by_some(opts, x),
    ensures
        !m.spec_present(x),
        m.spec_opt_str(x) is None,
        m.spec_opt_strs(x) == Seq::<Seq<char>>::empty(),
{
    let rv = resolver_view(m.short_to_long@);
    if alias_map(rv).contains_key(x) {
        lemma_alias_map_key_source(rv, x);
        let j = choose|j: int| 0 <= j < rv.len() && (#[trigger] rv[j]).0 == x;
        assert(rv[j] == (opts.short_to_long@[j].0@, opts.short_to_long@[j].1@));
        assert(declared_by_some(opts, x));
        assert(false);
    }
    assert(m.spec_resolve(x) == x);
    if crate::matches::lookup_values(m.entries@, x) is Some {
        assert(declared_key(opts, x));
        let i = choose|i: int|
            0 <= i < opts.descriptors@.len() && canonical_key(
                #[trigger] opts.descriptors@[i],
            ) == x;
        assert(declares_name(opts.descriptors@[i], x));
        assert(false);
    }
}

} // verus!
