//! The parser adapter: compiles the declared descriptors into the
//! engine's grammar, runs the engine over the argument vector, and
//! classifies the outcome — a queryable `Matches`, a help or version
//! request, or a usage error. The adapter itself never writes or exits:
//! it hands the caller the outcome with the text and the exit code the
//! boundary owes.

use vstd::prelude::*;
use vstd::string::*;
use crate::engine::am_is_present;
use crate::engine::am_values_of;
use crate::engine::app_about;
use crate::engine::app_after_help;
use crate::engine::app_arg;
use crate::engine::app_new;
use crate::engine::app_parse;
use crate::engine::app_shape;
use crate::engine::app_usage;
use crate::engine::app_version;
use crate::engine::AppShape;
use crate::engine::arg_alias;
use crate::engine::arg_allow_hyphen_values;
use crate::engine::arg_help;
use crate::engine::arg_hidden;
use crate::engine::arg_index;
use crate::engine::arg_long;
use crate::engine::arg_min_values;
use crate::engine::arg_multiple;
use crate::engine::arg_number_of_values;
use crate::engine::arg_shape;
use crate::engine::arg_short;
use crate::engine::arg_takes_value;
use crate::engine::arg_value_name;
use crate::engine::arg_with_name;
use crate::engine::ArgShape;
use crate::engine::blank_arg_shape;
use crate::engine::engine_accepts;
use crate::engine::engine_is_usage;
use crate::engine::engine_message;
use crate::engine::engine_present;
use crate::engine::engine_present_for;
use crate::engine::engine_values;
use crate::engine::engine_values_for;
use crate::engine::grammar_apart;
use crate::engine::placeable;
use crate::engine::shapes_apart;
use crate::engine::err_message;
use crate::engine::err_use_stderr;
use crate::engine::trimmed_short;
use crate::engine::without_leading_hyphens;
use crate::help::view_opt_string;
use crate::matches::lookup_values;
use crate::matches::MatchEntry;
use crate::matches::Matches;
use crate::options::Arity;
use crate::options::canonical_key;
use crate::options::CoreOptions;
use crate::options::has_name;
use crate::options::OptionDescriptor;

verus! {

/// The outcome of one parse. The caller delivers the early exits: help
/// or version text goes to standard output and the process exits with
/// code zero; a usage error line goes to standard error and the process
/// exits with code one.
pub enum ParseOutcome {
    /// The arguments fit the grammar: a queryable snapshot.
    Success(Matches),
    /// Help or version was requested; the text, for standard output.
    HelpOrVersion(String),
    /// The arguments do not fit the grammar; the message, prefixed with
    /// the program name, for standard error.
    UsageError(String),
}

impl ParseOutcome {
    /// The exit code the caller owes on an early exit: zero for a help
    /// or version request, one for a usage error.
    pub open spec fn spec_exit_code(&self) -> int {
        match *self {
            ParseOutcome::Success(_) => 0,
            ParseOutcome::HelpOrVersion(_) => 0,
            ParseOutcome::UsageError(_) => 1,
        }
    }

    /// The exit code for an early exit.
    pub fn exit_code(&self) -> (r: i32)
        ensures
            r == self.spec_exit_code(),
    {
        match *self {
            ParseOutcome::UsageError(_) => 1,
            _ => 0,
        }
    }
}

/// `k` is the canonical key of some declared option.
pub open spec fn declared_key(opts: CoreOptions, k: Seq<char>) -> bool {
    exists|i: int|
        0 <= i < opts.descriptors@.len() && canonical_key(#[trigger] opts.descriptors@[i]) == k
}

/// `m` is the faithful snapshot of an engine result whose present names
/// are `present` and whose captured values are `values`, taken under the
/// option set `opts`: the alias table is shared, the free arguments are
/// the engine's positional captures, and an entry exists for a key
/// exactly when it is declared and occurred — carrying exactly the values
/// the engine captured for it.
pub open spec fn collected(
    opts: CoreOptions,
    present: Set<Seq<char>>,
    values: Map<Seq<char>, Seq<Seq<char>>>,
    m: Matches,
) -> bool {
    &&& m.short_to_long@ == opts.short_to_long@
    &&& m.free@.map_values(|v: String| v@) == (if values.contains_key("ARGS"@) {
        values["ARGS"@]
    } else {
        Seq::<Seq<char>>::empty()
    })
    &&& forall|k: Seq<char>|
        (#[trigger] lookup_values(m.entries@, k)) is Some <==> (present.contains(k)
            && declared_key(opts, k))
    &&& forall|k: Seq<char>|
        (#[trigger] lookup_values(m.entries@, k)) is Some ==> lookup_values(m.entries@, k)
            == Some(
            if values.contains_key(k) {
                values[k]
            } else {
                Seq::<Seq<char>>::empty()
            },
        )
}

/// What every successful parse guarantees, whatever the engine decided:
/// the snapshot shares the option set's alias table, and every entry's
/// key is the canonical key of a declared option — a name never declared
/// has no entry.
pub open spec fn parse_success_ok(opts: CoreOptions, m: Matches) -> bool {
    &&& m.short_to_long@ == opts.short_to_long@
    &&& forall|k: Seq<char>| (#[trigger] lookup_values(m.entries@, k)) is Some ==> declared_key(
        opts,
        k,
    )
}

/// The configuration `build_arg` compiles one descriptor into.
pub open spec fn descriptor_shape(d: OptionDescriptor) -> ArgShape {
    ArgShape {
        long: if d.long_name@.len() != 0 {
            Some(without_leading_hyphens(d.long_name@))
        } else {
            None
        },
        short: if d.long_name@.len() != 0 && d.short_name@.len() == 0 {
            None
        } else {
            trimmed_short(d.short_name@)
        },
        help: Some(d.description@),
        aliases: d.aliases@.map_values(|a: String| a@),
        multiple: (d.arity is Repeated) || (d.arity is NoValue && d.repeatable),
        takes_value: !(d.arity is NoValue),
        value_names: match d.value_hint {
            Some(h) => if d.arity is NoValue {
                Seq::empty()
            } else {
                seq![h@]
            },
            None => Seq::empty(),
        },
        num_vals: if d.arity is Repeated {
            Some(1u64)
        } else {
            None
        },
        min_vals: if d.arity is OptionalOne {
            Some(0u64)
        } else {
            None
        },
        allow_hyphen: match d.arity {
            Arity::OptionalOne => false,
            Arity::NoValue => !d.repeatable,
            _ => true,
        },
        ..blank_arg_shape(canonical_key(d))
    }
}

/// The hidden positional declaration that collects the free arguments.
pub open spec fn capture_shape() -> ArgShape {
    ArgShape {
        multiple: true,
        index: Some(1u64),
        hidden: true,
        ..blank_arg_shape("ARGS"@)
    }
}

/// The grammar `build_app` compiles an option set into: the display
/// metadata, the free-argument capture, then one declaration per
/// descriptor, in registration order.
pub open spec fn compiled_shape(opts: CoreOptions) -> AppShape {
    AppShape {
        name: opts.help_text.name@,
        version: view_opt_string(opts.help_text.version),
        usage: view_opt_string(opts.help_text.syntax),
        about: view_opt_string(opts.help_text.summary),
        after_help: view_opt_string(opts.help_text.long_help),
        args: seq![capture_shape()] + opts.descriptors@.map_values(
            |dd: OptionDescriptor| descriptor_shape(dd),
        ),
    }
}

/// The token vector handed to the engine: the program name, then the
/// caller's arguments.
pub open spec fn argv_model(opts: CoreOptions, args: Seq<String>) -> Seq<Seq<char>> {
    seq![opts.help_text.name@] + args.map_values(|s: String| s@)
}

/// A descriptor the engine can take: it has a name, it does not fall back
/// to a positional declaration (a short form survives the engine's hyphen
/// trimming whenever no long form exists), and it does not reuse the name
/// of the hidden free-argument capture.
pub open spec fn name_shapes_ok(d: OptionDescriptor) -> bool {
    &&& has_name(d)
    &&& d.long_name@.len() == 0 ==> trimmed_short(d.short_name@) is Some
    &&& canonical_key(d) != "ARGS"@
}

/// Two descriptors the engine can hold together: distinct canonical keys,
/// distinct long forms and distinct short forms, as the engine stores
/// them. The engine refuses colliding declarations outright.
pub open spec fn distinct_names(a: OptionDescriptor, b: OptionDescriptor) -> bool {
    &&& canonical_key(a) != canonical_key(b)
    &&& (a.long_name@.len() != 0 && b.long_name@.len() != 0 ==> without_leading_hyphens(
        a.long_name@,
    ) != without_leading_hyphens(b.long_name@))
    &&& (trimmed_short(a.short_name@) is Some && trimmed_short(b.short_name@) is Some
        ==> trimmed_short(a.short_name@) != trimmed_short(b.short_name@))
}

/// An option set the engine accepts as a grammar: every descriptor is
/// well-named and no two collide.
pub open spec fn engine_safe(opts: CoreOptions) -> bool {
    &&& forall|i: int|
        0 <= i < opts.descriptors@.len() ==> name_shapes_ok(#[trigger] opts.descriptors@[i])
    &&& forall|i: int, j: int|
        0 <= i < j < opts.descriptors@.len() ==> distinct_names(
            #[trigger] opts.descriptors@[i],
            #[trigger] opts.descriptors@[j],
        )
}

/// The first character after the leading hyphens, as the engine stores
/// this short form.
fn trim_short_exec(s: &str) -> (r: Option<char>)
    ensures
        r == trimmed_short(s@),
{
    let n = s.unicode_len();
    proof {
        assert(s@.skip(0) =~= s@);
    }
    let mut i: usize = 0;
    while i < n
        invariant
            n == s@.len(),
            i <= n,
            trimmed_short(s@) == trimmed_short(s@.skip(i as int)),
        decreases n - i,
    {
        let c = s.get_char(i);
        proof {
            assert(s@.skip(i as int)[0] == s@[i as int]);
            assert(s@.skip(i as int).len() != 0);
        }
        if c != '-' {
            return Some(c);
        }
        proof {
            assert(s@.skip(i as int).drop_first() =~= s@.skip(i + 1));
        }
        i += 1;
    }
    proof {
        assert(s@.skip(n as int).len() == 0);
    }
    None
}

/// Where the leading hyphens end: the engine-stored long form is the
/// remainder from this position on.
fn hyphen_prefix_end(s: &str) -> (r: usize)
    ensures
        r <= s@.len(),
        without_leading_hyphens(s@) == s@.skip(r as int),
{
    let n = s.unicode_len();
    proof {
        assert(s@.skip(0) =~= s@);
    }
    let mut i: usize = 0;
    while i < n
        invariant
            n == s@.len(),
            i <= n,
            without_leading_hyphens(s@) == without_leading_hyphens(s@.skip(i as int)),
        decreases n - i,
    {
        let c = s.get_char(i);
        proof {
            assert(s@.skip(i as int)[0] == s@[i as int]);
            assert(s@.skip(i as int).len() != 0);
        }
        if c != '-' {
            return i;
        }
        proof {
            assert(s@.skip(i as int).drop_first() =~= s@.skip(i + 1));
        }
        i += 1;
    }
    proof {
        assert(s@.skip(n as int).len() == 0);
    }
    n
}

/// Whether two long forms denote the same engine-stored name: equality
/// after the leading hyphens.
fn trimmed_long_eq(a: &str, b: &str) -> (r: bool)
    ensures
        r == (without_leading_hyphens(a@) == without_leading_hyphens(b@)),
{
    let ia = hyphen_prefix_end(a);
    let ib = hyphen_prefix_end(b);
    let la = a.unicode_len();
    let lb = b.unicode_len();
    if la - ia != lb - ib {
        proof {
            assert(a@.skip(ia as int).len() != b@.skip(ib as int).len());
        }
        return false;
    }
    let m = la - ia;
    let mut k: usize = 0;
    while k < m
        invariant
            la == a@.len(),
            lb == b@.len(),
            ia <= la,
            ib <= lb,
            m == la - ia,
            m == lb - ib,
            k <= m,
            without_leading_hyphens(a@) == a@.skip(ia as int),
            without_leading_hyphens(b@) == b@.skip(ib as int),
            forall|j: int| 0 <= j < k ==> a@.skip(ia as int)[j] == b@.skip(ib as int)[j],
        decreases m - k,
    {
        let ca = a.get_char(ia + k);
        let cb = b.get_char(ib + k);
        proof {
            assert(a@.skip(ia as int)[k as int] == a@[ia + k as int]);
            assert(b@.skip(ib as int)[k as int] == b@[ib + k as int]);
        }
        if ca != cb {
            proof {
                assert(a@.skip(ia as int)[k as int] != b@.skip(ib as int)[k as int]);
            }
            return false;
        }
        k += 1;
    }
    proof {
        assert(a@.skip(ia as int) =~= b@.skip(ib as int));
    }
    true
}

/// `name_shapes_ok` as an executable test.
fn check_name_shapes(d: &OptionDescriptor) -> (r: bool)
    ensures
        r == name_shapes_ok(*d),
{
    if d.short_name.as_str().is_empty() && d.long_name.as_str().is_empty() {
        return false;
    }
    if d.long_name.as_str().is_empty() {
        match trim_short_exec(d.short_name.as_str()) {
            Some(_) => {},
            None => {
                return false;
            },
        }
    }
    let canon: &str = if !d.long_name.as_str().is_empty() {
        d.long_name.as_str()
    } else {
        d.short_name.as_str()
    };
    if canon.eq("ARGS") {
        return false;
    }
    true
}

/// `distinct_names` as an executable test.
fn check_distinct(a: &OptionDescriptor, b: &OptionDescriptor) -> (r: bool)
    ensures
        r == distinct_names(*a, *b),
{
    let ca: &str = if !a.long_name.as_str().is_empty() {
        a.long_name.as_str()
    } else {
        a.short_name.as_str()
    };
    let cb: &str = if !b.long_name.as_str().is_empty() {
        b.long_name.as_str()
    } else {
        b.short_name.as_str()
    };
    if ca.eq(cb) {
        return false;
    }
    if !a.long_name.as_str().is_empty() && !b.long_name.as_str().is_empty() {
        if trimmed_long_eq(a.long_name.as_str(), b.long_name.as_str()) {
            return false;
        }
    }
    let sa = trim_short_exec(a.short_name.as_str());
    let sb = trim_short_exec(b.short_name.as_str());
    match (sa, sb) {
        (Some(x), Some(y)) => {
            if x == y {
                return false;
            }
        },
        _ => {},
    }
    true
}

/// The engine, run on a grammar of exactly the compiled shape and on the
/// program name followed by `args`, reported success, and `m` is the
/// faithful snapshot of its match table.
pub open spec fn engine_success_outcome(opts: CoreOptions, args: Seq<String>, m: Matches) -> bool {
    exists|app: clap::App|
        #![trigger app_shape(app)]
        {
            &&& app_shape(app) == compiled_shape(opts)
            &&& engine_accepts(app, argv_model(opts, args))
            &&& collected(
                opts,
                engine_present_for(app, argv_model(opts, args)),
                engine_values_for(app, argv_model(opts, args)),
                m,
            )
        }
}

/// The engine, run on a grammar of exactly the compiled shape and on the
/// program name followed by `args`, did not report success; its outcome
/// is a usage error exactly when `usage`, and `msg` is its rendered
/// message.
pub open spec fn engine_early_exit(
    opts: CoreOptions,
    args: Seq<String>,
    usage: bool,
    msg: Seq<char>,
) -> bool {
    exists|app: clap::App, e: clap::Error|
        #![trigger app_shape(app), engine_is_usage(e)]
        {
            &&& app_shape(app) == compiled_shape(opts)
            &&& !engine_accepts(app, argv_model(opts, args))
            &&& engine_is_usage(e) == usage
            &&& msg == engine_message(e)
        }
}

/// Appending an entry leaves every earlier key's lookup unchanged and
/// binds the new entry's key only where it was unbound.
proof fn lemma_lookup_push(es: Seq<MatchEntry>, e: MatchEntry, k: Seq<char>)
    ensures
        lookup_values(es.push(e), k) == (if lookup_values(es, k) is Some {
            lookup_values(es, k)
        } else if e.key@ == k {
            Some(e.values@.map_values(|v: String| v@))
        } else {
            None
        }),
    decreases es.len(),
{
    if es.len() == 0 {
        assert(es.push(e).first() == e);
        assert(es.push(e).drop_first() =~= Seq::<MatchEntry>::empty());
        assert(lookup_values(es.push(e).drop_first(), k) is None);
        assert(lookup_values(es, k) is None);
    } else {
        assert(es.push(e).first() == es.first());
        if es.first().key@ != k {
            lemma_lookup_push(es.drop_first(), e, k);
            assert(es.push(e).drop_first() =~= es.drop_first().push(e));
            assert(lookup_values(es.push(e), k) == lookup_values(es.drop_first().push(e), k));
            assert(lookup_values(es, k) == lookup_values(es.drop_first(), k));
        }
    }
}

/// Copies an alias table entry by entry.
fn clone_table(t: &Vec<(String, String)>) -> (r: Vec<(String, String)>)
    ensures
        r@ == t@,
{
    let mut r: Vec<(String, String)> = Vec::new();
    let mut i: usize = 0;
    while i < t.len()
        invariant
            i <= t@.len(),
            r@ == t@.take(i as int),
        decreases t@.len() - i,
    {
        let p = &t[i];
        r.push((p.0.clone(), p.1.clone()));
        proof {
            assert(r@ =~= t@.take(i + 1));
        }
        i += 1;
    }
    proof {
        assert(t@.take(t@.len() as int) =~= t@);
    }
    r
}

/// Compiles one descriptor into an engine argument declaration of
/// exactly the descriptor's shape.
fn build_arg<'a, 'b>(d: &'a OptionDescriptor) -> (r: clap::Arg<'a, 'b>)
    where
        'a: 'b,

    ensures
        arg_shape(r) == descriptor_shape(*d),
{
    let mut arg = if !d.long_name.as_str().is_empty() {
        let a = arg_with_name(d.long_name.as_str());
        let a = arg_long(a, d.long_name.as_str());
        if !d.short_name.as_str().is_empty() {
            arg_short(a, d.short_name.as_str())
        } else {
            a
        }
    } else {
        let a = arg_with_name(d.short_name.as_str());
        arg_short(a, d.short_name.as_str())
    };
    arg = arg_help(arg, d.description.as_str());
    let hyphen: bool = match d.arity {
        Arity::OptionalOne => false,
        Arity::NoValue => !d.repeatable,
        _ => true,
    };
    arg = arg_allow_hyphen_values(arg, hyphen);
    match d.arity {
        Arity::NoValue => {
            if d.repeatable {
                arg = arg_multiple(arg, true);
            }
        },
        Arity::OptionalOne => {
            match &d.value_hint {
                Some(h) => {
                    arg = arg_value_name(arg, h.as_str());
                },
                None => {},
            }
            arg = arg_min_values(arg, 0);
        },
        Arity::RequiredOne => {
            arg = arg_takes_value(arg, true);
            match &d.value_hint {
                Some(h) => {
                    arg = arg_value_name(arg, h.as_str());
                },
                None => {},
            }
        },
        Arity::Repeated => {
            arg = arg_multiple(arg, true);
            arg = arg_takes_value(arg, true);
            arg = arg_number_of_values(arg, 1);
            match &d.value_hint {
                Some(h) => {
                    arg = arg_value_name(arg, h.as_str());
                },
                None => {},
            }
        },
    }
    proof {
        assert(arg_shape(arg) =~= (ArgShape {
            aliases: d.aliases@.take(0).map_values(|a: String| a@),
            ..descriptor_shape(*d)
        }));
    }
    let mut i: usize = 0;
    while i < d.aliases.len()
        invariant
            i <= d.aliases@.len(),
            arg_shape(arg) == (ArgShape {
                aliases: d.aliases@.take(i as int).map_values(|a: String| a@),
                ..descriptor_shape(*d)
            }),
        decreases d.aliases@.len() - i,
    {
        arg = arg_alias(arg, d.aliases[i].as_str());
        proof {
            assert(d.aliases@.take(i + 1).map_values(|a: String| a@) =~= d.aliases@.take(
                i as int,
            ).map_values(|a: String| a@).push(d.aliases@[i as int]@));
            assert(arg_shape(arg) =~= (ArgShape {
                aliases: d.aliases@.take(i + 1).map_values(|a: String| a@),
                ..descriptor_shape(*d)
            }));
        }
        i += 1;
    }
    proof {
        assert(d.aliases@.take(d.aliases@.len() as int) =~= d.aliases@);
        assert(arg_shape(arg) =~= descriptor_shape(*d));
    }
    arg
}

/// A prefix of declarations the engine accepts together is itself
/// accepted together.
proof fn lemma_grammar_apart_prefix(args: Seq<ArgShape>, n: int)
    requires
        grammar_apart(args),
        0 <= n <= args.len(),
    ensures
        grammar_apart(args.take(n)),
{
    assert forall|k: int| 0 <= k < args.take(n).len() implies placeable(
        #[trigger] args.take(n)[k],
    ) by {
        assert(args.take(n)[k] == args[k]);
    }
    assert forall|k1: int, k2: int| 0 <= k1 < k2 < args.take(n).len() implies shapes_apart(
        #[trigger] args.take(n)[k1],
        #[trigger] args.take(n)[k2],
    ) by {
        assert(args.take(n)[k1] == args[k1]);
        assert(args.take(n)[k2] == args[k2]);
    }
}

/// Under a safe option set the compiled declarations are exactly what
/// the engine demands: each placeable, and all pairwise apart.
proof fn lemma_compiled_grammar_apart(opts: CoreOptions)
    requires
        engine_safe(opts),
    ensures
        grammar_apart(compiled_shape(opts).args),
{
    let cargs = compiled_shape(opts).args;
    let mapped = opts.descriptors@.map_values(|dd: OptionDescriptor| descriptor_shape(dd));
    assert forall|k: int| 0 <= k < cargs.len() implies placeable(#[trigger] cargs[k]) by {
        if k == 0 {
            assert(cargs[0] == capture_shape());
        } else {
            assert(cargs[k] == mapped[k - 1]);
            assert(cargs[k] == descriptor_shape(opts.descriptors@[k - 1]));
            assert(name_shapes_ok(opts.descriptors@[k - 1]));
        }
    }
    assert forall|k1: int, k2: int| 0 <= k1 < k2 < cargs.len() implies shapes_apart(
        #[trigger] cargs[k1],
        #[trigger] cargs[k2],
    ) by {
        assert(cargs[k2] == mapped[k2 - 1]);
        assert(cargs[k2] == descriptor_shape(opts.descriptors@[k2 - 1]));
        assert(name_shapes_ok(opts.descriptors@[k2 - 1]));
        if k1 == 0 {
            assert(cargs[0] == capture_shape());
        } else {
            assert(cargs[k1] == mapped[k1 - 1]);
            assert(cargs[k1] == descriptor_shape(opts.descriptors@[k1 - 1]));
            assert(name_shapes_ok(opts.descriptors@[k1 - 1]));
            assert(distinct_names(opts.descriptors@[k1 - 1], opts.descriptors@[k2 - 1]));
        }
    }
}

/// Compiles the whole option set into the engine's grammar — the display
/// metadata, the hidden positional capture for free arguments, and one
/// argument declaration per descriptor — of exactly the compiled shape.
fn build_app<'a, 'b>(opts: &'a CoreOptions) -> (r: clap::App<'a, 'b>)
    where
        'a: 'b,

    requires
        engine_safe(*opts),
    ensures
        app_shape(r) == compiled_shape(*opts),
{
    proof {
        lemma_compiled_grammar_apart(*opts);
    }
    let mut app = app_new(opts.help_text.name.as_str());
    match &opts.help_text.version {
        Some(v) => {
            app = app_version(app, v.as_str());
        },
        None => {},
    }
    match &opts.help_text.syntax {
        Some(s) => {
            app = app_usage(app, s.as_str());
        },
        None => {},
    }
    match &opts.help_text.summary {
        Some(s) => {
            app = app_about(app, s.as_str());
        },
        None => {},
    }
    match &opts.help_text.long_help {
        Some(s) => {
            app = app_after_help(app, s.as_str());
        },
        None => {},
    }
    proof {
        assert(app_shape(app) =~= (AppShape { args: Seq::empty(), ..compiled_shape(*opts) }));
    }
    let mut cap = arg_with_name("ARGS");
    cap = arg_index(cap, 1);
    cap = arg_multiple(cap, true);
    cap = arg_hidden(cap, true);
    app = app_arg(app, cap);
    proof {
        assert(arg_shape(cap) =~= capture_shape());
        assert(app_shape(app).args =~= seq![capture_shape()] + opts.descriptors@.take(
            0,
        ).map_values(|dd: OptionDescriptor| descriptor_shape(dd)));
        assert(app_shape(app) =~= (AppShape {
            args: seq![capture_shape()] + opts.descriptors@.take(0).map_values(
                |dd: OptionDescriptor| descriptor_shape(dd),
            ),
            ..compiled_shape(*opts)
        }));
    }
    let mut i: usize = 0;
    while i < opts.descriptors.len()
        invariant
            i <= opts.descriptors@.len(),
            engine_safe(*opts),
            app_shape(app) == (AppShape {
                args: seq![capture_shape()] + opts.descriptors@.take(i as int).map_values(
                    |dd: OptionDescriptor| descriptor_shape(dd),
                ),
                ..compiled_shape(*opts)
            }),
        decreases opts.descriptors@.len() - i,
    {
        let built = build_arg(&opts.descriptors[i]);
        proof {
            lemma_compiled_grammar_apart(*opts);
            assert(app_shape(app).args.push(arg_shape(built)) =~= compiled_shape(
                *opts,
            ).args.take(i + 2));
            lemma_grammar_apart_prefix(compiled_shape(*opts).args, i + 2);
        }
        app = app_arg(app, built);
        proof {
            assert(seq![capture_shape()] + opts.descriptors@.take(i + 1).map_values(
                |dd: OptionDescriptor| descriptor_shape(dd),
            ) =~= (seq![capture_shape()] + opts.descriptors@.take(i as int).map_values(
                |dd: OptionDescriptor| descriptor_shape(dd),
            )).push(descriptor_shape(opts.descriptors@[i as int])));
            assert(app_shape(app) =~= (AppShape {
                args: seq![capture_shape()] + opts.descriptors@.take(i + 1).map_values(
                    |dd: OptionDescriptor| descriptor_shape(dd),
                ),
                ..compiled_shape(*opts)
            }));
        }
        i += 1;
    }
    proof {
        assert(opts.descriptors@.take(opts.descriptors@.len() as int) =~= opts.descriptors@);
        assert(app_shape(app) =~= compiled_shape(*opts));
    }
    app
}

/// Extracts the engine's result into an owned snapshot: one entry per
/// declared option that occurred, carrying exactly the values the engine
/// captured for its canonical key, plus the positional captures and a
/// copy of the alias table.
fn collect_matches<'a>(opts: &CoreOptions, am: &'a clap::ArgMatches<'a>) -> (m: Matches)
    ensures
        collected(*opts, engine_present(*am), engine_values(*am), m),
{
    let ghost present = engine_present(*am);
    let ghost values = engine_values(*am);
    let mut entries: Vec<MatchEntry> = Vec::new();
    let mut i: usize = 0;
    while i < opts.descriptors.len()
        invariant
            i <= opts.descriptors@.len(),
            present == engine_present(*am),
            values == engine_values(*am),
            forall|k: Seq<char>|
                (#[trigger] lookup_values(entries@, k)) is Some <==> (present.contains(k) && exists|
                    j: int,
                |
                    0 <= j < i && canonical_key(#[trigger] opts.descriptors@[j]) == k),
            forall|k: Seq<char>|
                (#[trigger] lookup_values(entries@, k)) is Some ==> lookup_values(entries@, k)
                    == Some(
                    if values.contains_key(k) {
                        values[k]
                    } else {
                        Seq::<Seq<char>>::empty()
                    },
                ),
        decreases opts.descriptors@.len() - i,
    {
        let d = &opts.descriptors[i];
        let canon: String = if !d.long_name.as_str().is_empty() {
            d.long_name.clone()
        } else {
            d.short_name.clone()
        };
        let ghost before = entries@;
        if am_is_present(am, canon.as_str()) {
            let vals = am_values_of(am, canon.as_str());
            let e = MatchEntry { key: canon, values: vals };
            proof {
                assert forall|k: Seq<char>| true implies #[trigger] lookup_values(
                    before.push(e),
                    k,
                ) == (if lookup_values(before, k) is Some {
                    lookup_values(before, k)
                } else if e.key@ == k {
                    Some(e.values@.map_values(|v: String| v@))
                } else {
                    None
                }) by {
                    lemma_lookup_push(before, e, k);
                }
            }
            entries.push(e);
        }
        i += 1;
    }
    let free = am_values_of(am, "ARGS");
    let m = Matches { free, entries, short_to_long: clone_table(&opts.short_to_long) };
    m
}

impl CoreOptions {
    /// Whether the engine accepts this option set as a grammar
    /// (`engine_safe`): every descriptor carries a usable name, none
    /// reuses the reserved capture name, and no two collide. This is the
    /// one condition `parse` asks of its callers; an unverified caller
    /// can test it here before parsing.
    pub fn is_engine_safe(&self) -> (r: bool)
        ensures
            r == engine_safe(*self),
    {
        let n = self.descriptors.len();
        let mut i: usize = 0;
        while i < n
            invariant
                n == self.descriptors@.len(),
                i <= n,
                forall|j: int| 0 <= j < i ==> name_shapes_ok(#[trigger] self.descriptors@[j]),
                forall|j1: int, j2: int|
                    0 <= j1 < j2 < i ==> distinct_names(
                        #[trigger] self.descriptors@[j1],
                        #[trigger] self.descriptors@[j2],
                    ),
            decreases n - i,
        {
            if !check_name_shapes(&self.descriptors[i]) {
                proof {
                    assert(!engine_safe(*self));
                }
                return false;
            }
            let mut j: usize = 0;
            while j < i
                invariant
                    n == self.descriptors@.len(),
                    j <= i < n,
                    name_shapes_ok(self.descriptors@[i as int]),
                    forall|j2: int|
                        0 <= j2 < i ==> name_shapes_ok(#[trigger] self.descriptors@[j2]),
                    forall|j1: int, j2: int|
                        0 <= j1 < j2 < i ==> distinct_names(
                            #[trigger] self.descriptors@[j1],
                            #[trigger] self.descriptors@[j2],
                        ),
                    forall|j2: int|
                        0 <= j2 < j ==> distinct_names(
                            #[trigger] self.descriptors@[j2],
                            self.descriptors@[i as int],
                        ),
                decreases i - j,
            {
                if !check_distinct(&self.descriptors[j], &self.descriptors[i]) {
                    proof {
                        assert(!engine_safe(*self));
                    }
                    return false;
                }
                j += 1;
            }
            i += 1;
        }
        true
    }

    /// Parses the argument vector — the tokens after the program name —
    /// against the declared options, by compiling the grammar, running
    /// the engine and classifying its outcome. Success is returned
    /// exactly when the engine accepts the token vector under the
    /// compiled grammar, and the snapshot then mirrors the engine's
    /// match table; otherwise the outcome is a usage error or a help or
    /// version request, exactly as the engine classified it, carrying
    /// the engine's rendered message — prefixed with the program name,
    /// a colon and a space for a usage error.
    ///
    /// The declared names must not collide (`engine_safe`): the engine
    /// refuses a grammar with two declarations of the same name and
    /// stops the program on such a configuration mistake.
    pub fn parse(&self, args: Vec<String>) -> (r: ParseOutcome)
        requires
            engine_safe(*self),
        ensures
            (match r {
                ParseOutcome::Success(m) => parse_success_ok(*self, m) && engine_success_outcome(
                    *self,
                    args@,
                    m,
                ),
                ParseOutcome::HelpOrVersion(t) => engine_early_exit(*self, args@, false, t@),
                ParseOutcome::UsageError(t) => exists|msg: Seq<char>|
                    t@ == self.help_text.name@ + ": "@ + msg && engine_early_exit(
                        *self,
                        args@,
                        true,
                        msg,
                    ),
            }),
    {
        let ghost target = argv_model(*self, args@);
        let mut argv: Vec<String> = Vec::new();
        argv.push(self.help_text.name.clone());
        proof {
            assert(argv@.map_values(|s: String| s@) =~= target.take(1));
        }
        let mut i: usize = 0;
        while i < args.len()
            invariant
                i <= args@.len(),
                target == argv_model(*self, args@),
                argv@.map_values(|s: String| s@) == target.take(1 + i),
            decreases args@.len() - i,
        {
            let ghost prev = argv@;
            let a = args[i].clone();
            argv.push(a);
            proof {
                assert(a@ == args@[i as int]@);
                assert(argv@.map_values(|s: String| s@) =~= prev.map_values(|s: String| s@).push(
                    args@[i as int]@,
                ));
                assert(target[1 + i as int] == args@.map_values(|s: String| s@)[i as int]);
                assert(argv@.map_values(|s: String| s@) =~= target.take(1 + i + 1));
            }
            i += 1;
        }
        proof {
            assert(target.take(1 + args@.len() as int) =~= target);
            assert(argv@.map_values(|s: String| s@) == target);
        }
        let app = build_app(self);
        let ghost gapp = app;
        proof {
            lemma_compiled_grammar_apart(*self);
            assert(grammar_apart(app_shape(gapp).args));
        }
        match app_parse(app, &argv) {
            Ok(am) => {
                let m = collect_matches(self, &am);
                proof {
                    assert(app_shape(gapp) == compiled_shape(*self));
                    assert(engine_accepts(gapp, target));
                    assert(engine_present(am) == engine_present_for(gapp, target));
                    assert(engine_values(am) == engine_values_for(gapp, target));
                    assert(collected(
                        *self,
                        engine_present_for(gapp, target),
                        engine_values_for(gapp, target),
                        m,
                    ));
                    assert(engine_success_outcome(*self, args@, m));
                    assert(parse_success_ok(*self, m));
                }
                ParseOutcome::Success(m)
            },
            Err(e) => {
                let ghost ge = e;
                proof {
                    assert(app_shape(gapp) == compiled_shape(*self));
                    assert(!engine_accepts(gapp, target));
                }
                if err_use_stderr(&e) {
                    let msg = err_message(&e);
                    let text = self.help_text.name.clone().concat(": ").concat(msg.as_str());
                    proof {
                        assert(engine_is_usage(ge));
                        assert(msg@ == engine_message(ge));
                        assert(engine_early_exit(*self, args@, true, engine_message(ge)));
                        assert(text@ == self.help_text.name@ + ": "@ + engine_message(ge));
                    }
                    ParseOutcome::UsageError(text)
                } else {
                    let text = err_message(&e);
                    proof {
                        assert(!engine_is_usage(ge));
                        assert(text@ == engine_message(ge));
                        assert(engine_early_exit(*self, args@, false, text@));
                    }
                    ParseOutcome::HelpOrVersion(text)
                }
            },
        }
    }
}

} // verus!
