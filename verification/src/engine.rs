//! The trusted boundary around the grammar engine (`clap`) and std: the
//! engine's types declared for Verus, one small wrapper per engine call
//! the library makes, and names for what the engine's values hold — the
//! configuration a grammar or an argument declaration carries, the names
//! and captured values of a match table, and the verdict and message of a
//! parse run. Every contract here states no more than the engine's own
//! source and documentation show.

use vstd::prelude::*;

verus! {

/// Relies on str's `PartialEq`: equality of two string slices is equality
/// of their characters.
pub assume_specification[ <str as PartialEq<str>>::eq ](a: &str, b: &str) -> (r: bool)
    ensures
        r == (a@ == b@),
;

/// The configuration one argument declaration carries: every setting this
/// library ever gives the engine.
#[verifier::ext_equal]
pub struct ArgShape {
    /// The canonical name the declaration is stored under.
    pub name: Seq<char>,
    /// The long form, leading hyphens stripped.
    pub long: Option<Seq<char>>,
    /// The short form: the first character after leading hyphens.
    pub short: Option<char>,
    /// The description shown in the help listing.
    pub help: Option<Seq<char>>,
    /// Hidden names that dispatch to this declaration.
    pub aliases: Seq<Seq<char>>,
    /// Whether the argument may occur more than once.
    pub multiple: bool,
    /// Whether the argument captures a value.
    pub takes_value: bool,
    /// The value placeholders shown in the help listing.
    pub value_names: Seq<Seq<char>>,
    /// How many values each occurrence captures, when fixed.
    pub num_vals: Option<u64>,
    /// The least number of values an occurrence must capture, when set.
    pub min_vals: Option<u64>,
    /// Whether hyphen-prefixed tokens may be captured as values.
    pub allow_hyphen: bool,
    /// The one-based position, for a positional argument.
    pub index: Option<u64>,
    /// Whether the argument is kept out of the help listing.
    pub hidden: bool,
}

/// The configuration a grammar carries: the display metadata and the
/// argument declarations added so far, in order.
#[verifier::ext_equal]
pub struct AppShape {
    pub name: Seq<char>,
    pub version: Option<Seq<char>>,
    pub usage: Option<Seq<char>>,
    pub about: Option<Seq<char>>,
    pub after_help: Option<Seq<char>>,
    pub args: Seq<ArgShape>,
}

/// An argument declaration fresh from its name: nothing else set.
pub open spec fn blank_arg_shape(name: Seq<char>) -> ArgShape {
    ArgShape {
        name,
        long: None,
        short: None,
        help: None,
        aliases: Seq::empty(),
        multiple: false,
        takes_value: false,
        value_names: Seq::empty(),
        num_vals: None,
        min_vals: None,
        allow_hyphen: false,
        index: None,
        hidden: false,
    }
}

/// A name with its leading hyphens stripped, as the engine stores long
/// forms.
pub open spec fn without_leading_hyphens(s: Seq<char>) -> Seq<char>
    decreases s.len(),
{
    if s.len() == 0 {
        s
    } else if s[0] == '-' {
        without_leading_hyphens(s.drop_first())
    } else {
        s
    }
}

/// The first character after leading hyphens, as the engine stores short
/// forms.
pub open spec fn trimmed_short(s: Seq<char>) -> Option<char>
    decreases s.len(),
{
    if s.len() == 0 {
        None
    } else if s[0] == '-' {
        trimmed_short(s.drop_first())
    } else {
        Some(s[0])
    }
}

/// Two declarations the engine can hold together: distinct names,
/// distinct long forms, distinct short forms and distinct positions —
/// what the engine's own assertions demand of every pair it stores.
pub open spec fn shapes_apart(a: ArgShape, b: ArgShape) -> bool {
    &&& a.name != b.name
    &&& (a.long is Some && b.long is Some ==> a.long != b.long)
    &&& (a.short is Some && b.short is Some ==> a.short != b.short)
    &&& (a.index is Some && b.index is Some ==> a.index != b.index)
}

/// A declaration the engine can place without clashing over positions:
/// an option — a long or a short form exists — or the one positional
/// this library ever declares, at the first position.
pub open spec fn placeable(a: ArgShape) -> bool {
    match a.index {
        Some(i) => i == 1,
        None => a.long is Some || a.short is Some,
    }
}

/// Declarations the engine accepts together: each placeable, and all
/// pairwise apart. On a grammar that violates this, the engine itself
/// asserts and aborts instead of parsing.
pub open spec fn grammar_apart(args: Seq<ArgShape>) -> bool {
    &&& forall|k: int| 0 <= k < args.len() ==> placeable(#[trigger] args[k])
    &&& forall|k1: int, k2: int|
        0 <= k1 < k2 < args.len() ==> shapes_apart(
            #[trigger] args[k1],
            #[trigger] args[k2],
        )
}

/// The configuration an argument declaration carries.
pub uninterp spec fn arg_shape(a: clap::Arg) -> ArgShape;

/// The configuration a grammar carries.
pub uninterp spec fn app_shape(a: clap::App) -> AppShape;

/// Whether the engine, run on this grammar value and this token vector
/// (first token the binary name), reports success.
pub uninterp spec fn engine_accepts(app: clap::App, argv: Seq<Seq<char>>) -> bool;

/// The names the engine's match table holds after a successful run on
/// this grammar value and token vector.
pub uninterp spec fn engine_present_for(app: clap::App, argv: Seq<Seq<char>>) -> Set<Seq<char>>;

/// The values the engine's match table captures after a successful run on
/// this grammar value and token vector.
pub uninterp spec fn engine_values_for(app: clap::App, argv: Seq<Seq<char>>) -> Map<
    Seq<char>,
    Seq<Seq<char>>,
>;

/// Whether a non-success outcome is a usage error — one written to
/// standard error — rather than a help or version request.
pub uninterp spec fn engine_is_usage(e: clap::Error) -> bool;

/// The rendered text of a non-success outcome: a usage error message, or
/// the full help or version text.
pub uninterp spec fn engine_message(e: clap::Error) -> Seq<char>;

/// The engine's grammar under construction.
#[verifier::external_type_specification]
#[verifier::external_body]
pub struct ExApp<'a, 'b>(clap::App<'a, 'b>) where 'a: 'b;

/// One argument declaration of the engine's grammar.
#[verifier::external_type_specification]
#[verifier::external_body]
pub struct ExArg<'a, 'b>(clap::Arg<'a, 'b>) where 'a: 'b;

/// The engine's raw match table.
#[verifier::external_type_specification]
#[verifier::external_body]
pub struct ExArgMatches<'a>(clap::ArgMatches<'a>);

/// The engine's structured non-success outcome: help or version
/// requested, or a usage error.
#[verifier::external_type_specification]
#[verifier::external_body]
pub struct ExClapError(clap::Error);

/// The argument names that occurred in an engine match table.
pub uninterp spec fn engine_present(m: clap::ArgMatches) -> Set<Seq<char>>;

/// The values an engine match table captured, keyed by argument name;
/// an argument that occurred without values is keyed with an empty
/// sequence of values.
pub uninterp spec fn engine_values(m: clap::ArgMatches) -> Map<Seq<char>, Seq<Seq<char>>>;

/// Relies on clap::App::new: starts an empty grammar under the given
/// program name.
#[verifier::external_body]
pub(crate) fn app_new<'a, 'b>(name: &str) -> (r: clap::App<'a, 'b>)
    where
        'a: 'b,

    ensures
        app_shape(r) == (AppShape {
            name: name@,
            version: None,
            usage: None,
            about: None,
            after_help: None,
            args: Seq::empty(),
        }),
{
    clap::App::new(name)
}

/// Relies on clap::App::version: sets the version text.
#[verifier::external_body]
pub(crate) fn app_version<'a, 'b>(app: clap::App<'a, 'b>, ver: &'b str) -> (r: clap::App<'a, 'b>)
    where
        'a: 'b,

    ensures
        app_shape(r) == (AppShape { version: Some(ver@), ..app_shape(app) }),
{
    app.version(ver)
}

/// Relies on clap::App::usage: overrides the generated usage line.
#[verifier::external_body]
pub(crate) fn app_usage<'a, 'b>(app: clap::App<'a, 'b>, usage: &'b str) -> (r: clap::App<'a, 'b>)
    where
        'a: 'b,

    ensures
        app_shape(r) == (AppShape { usage: Some(usage@), ..app_shape(app) }),
{
    app.usage(usage)
}

/// Relies on clap::App::about: sets the one-line summary.
#[verifier::external_body]
pub(crate) fn app_about<'a, 'b>(app: clap::App<'a, 'b>, about: &'b str) -> (r: clap::App<'a, 'b>)
    where
        'a: 'b,

    ensures
        app_shape(r) == (AppShape { about: Some(about@), ..app_shape(app) }),
{
    app.about(about)
}

/// Relies on clap::App::after_help: sets the text shown after the option
/// list.
#[verifier::external_body]
pub(crate) fn app_after_help<'a, 'b>(app: clap::App<'a, 'b>, help: &'b str) -> (r: clap::App<'a, 'b>)
    where
        'a: 'b,

    ensures
        app_shape(r) == (AppShape { after_help: Some(help@), ..app_shape(app) }),
{
    app.after_help(help)
}

/// Relies on clap::App::arg: adds one argument declaration to the
/// grammar. The engine asserts that the declaration's name, long form,
/// short form and position collide with no declaration already added;
/// the precondition leaves such grammars out, so the call never aborts.
#[verifier::external_body]
pub(crate) fn app_arg<'a, 'b>(app: clap::App<'a, 'b>, arg: clap::Arg<'a, 'b>) -> (r: clap::App<
    'a,
    'b,
>)
    where
        'a: 'b,

    requires
        grammar_apart(app_shape(app).args.push(arg_shape(arg))),
    ensures
        app_shape(r) == (AppShape { args: app_shape(app).args.push(arg_shape(arg)), ..app_shape(
            app,
        ) }),
{
    app.arg(arg)
}

/// Relies on clap::Arg::with_name: starts an argument declaration under
/// the given canonical name.
#[verifier::external_body]
pub(crate) fn arg_with_name<'a, 'b>(name: &'a str) -> (r: clap::Arg<'a, 'b>)
    where
        'a: 'b,

    ensures
        arg_shape(r) == blank_arg_shape(name@),
{
    clap::Arg::with_name(name)
}

/// Relies on clap::Arg::long: sets the long form.
#[verifier::external_body]
pub(crate) fn arg_long<'a, 'b>(arg: clap::Arg<'a, 'b>, l: &'b str) -> (r: clap::Arg<'a, 'b>)
    where
        'a: 'b,

    ensures
        arg_shape(r) == (ArgShape { long: Some(without_leading_hyphens(l@)), ..arg_shape(arg) }),
{
    arg.long(l)
}

/// Relies on clap::Arg::short: sets the short form from the first
/// character of the given name.
#[verifier::external_body]
pub(crate) fn arg_short<'a, 'b>(arg: clap::Arg<'a, 'b>, s: &str) -> (r: clap::Arg<'a, 'b>)
    where
        'a: 'b,

    ensures
        arg_shape(r) == (ArgShape { short: trimmed_short(s@), ..arg_shape(arg) }),
{
    arg.short(s)
}

/// Relies on clap::Arg::help: sets the description shown in the help
/// listing.
#[verifier::external_body]
pub(crate) fn arg_help<'a, 'b>(arg: clap::Arg<'a, 'b>, h: &'b str) -> (r: clap::Arg<'a, 'b>)
    where
        'a: 'b,

    ensures
        arg_shape(r) == (ArgShape { help: Some(h@), ..arg_shape(arg) }),
{
    arg.help(h)
}

/// Relies on clap::Arg::alias: adds a hidden name that dispatches to this
/// argument.
#[verifier::external_body]
pub(crate) fn arg_alias<'a, 'b>(arg: clap::Arg<'a, 'b>, name: &'b str) -> (r: clap::Arg<'a, 'b>)
    where
        'a: 'b,

    ensures
        arg_shape(r) == (ArgShape { aliases: arg_shape(arg).aliases.push(name@), ..arg_shape(arg) }),
{
    arg.alias(name)
}

/// Relies on clap::Arg::multiple: allows the argument to occur more than
/// once.
#[verifier::external_body]
pub(crate) fn arg_multiple<'a, 'b>(arg: clap::Arg<'a, 'b>, multi: bool) -> (r: clap::Arg<'a, 'b>)
    where
        'a: 'b,

    ensures
        arg_shape(r) == (ArgShape { multiple: multi, ..arg_shape(arg) }),
{
    arg.multiple(multi)
}

/// Relies on clap::Arg::takes_value: makes the argument capture a value.
#[verifier::external_body]
pub(crate) fn arg_takes_value<'a, 'b>(arg: clap::Arg<'a, 'b>, tv: bool) -> (r: clap::Arg<'a, 'b>)
    where
        'a: 'b,

    ensures
        arg_shape(r) == (ArgShape { takes_value: tv, ..arg_shape(arg) }),
{
    arg.takes_value(tv)
}

/// Relies on clap::Arg::value_name: sets the value placeholder shown in
/// the help listing; also makes the argument capture a value.
#[verifier::external_body]
pub(crate) fn arg_value_name<'a, 'b>(arg: clap::Arg<'a, 'b>, name: &'b str) -> (r: clap::Arg<'a, 'b>)
    where
        'a: 'b,

    ensures
        arg_shape(r) == (ArgShape { takes_value: true, value_names: arg_shape(arg).value_names.push(name@), ..arg_shape(arg) }),
{
    arg.value_name(name)
}

/// Relies on clap::Arg::number_of_values: fixes how many values each
/// occurrence of the argument captures; also makes the argument capture
/// a value.
#[verifier::external_body]
pub(crate) fn arg_number_of_values<'a, 'b>(arg: clap::Arg<'a, 'b>, qty: u64) -> (r: clap::Arg<'a, 'b>)
    where
        'a: 'b,

    ensures
        arg_shape(r) == (ArgShape { takes_value: true, num_vals: Some(qty), ..arg_shape(arg) }),
{
    arg.number_of_values(qty)
}

/// Relies on clap::Arg::min_values: lowers the number of values the
/// argument must capture; with zero, the value may be omitted entirely.
#[verifier::external_body]
pub(crate) fn arg_min_values<'a, 'b>(arg: clap::Arg<'a, 'b>, qty: u64) -> (r: clap::Arg<'a, 'b>)
    where
        'a: 'b,

    ensures
        arg_shape(r) == (ArgShape { takes_value: true, min_vals: Some(qty), ..arg_shape(arg) }),
{
    arg.min_values(qty)
}

/// Relies on clap::Arg::allow_hyphen_values: lets hyphen-prefixed tokens
/// be captured as this argument's values.
#[verifier::external_body]
pub(crate) fn arg_allow_hyphen_values<'a, 'b>(arg: clap::Arg<'a, 'b>, a: bool) -> (r: clap::Arg<
    'a,
    'b,
>)
    where
        'a: 'b,

    ensures
        arg_shape(r) == (ArgShape { allow_hyphen: a, ..arg_shape(arg) }),
{
    arg.allow_hyphen_values(a)
}

/// Relies on clap::Arg::index: makes the argument positional, at the
/// given one-based position.
#[verifier::external_body]
pub(crate) fn arg_index<'a, 'b>(arg: clap::Arg<'a, 'b>, idx: u64) -> (r: clap::Arg<'a, 'b>)
    where
        'a: 'b,

    ensures
        arg_shape(r) == (ArgShape { index: Some(idx), ..arg_shape(arg) }),
{
    arg.index(idx)
}

/// Relies on clap::Arg::hidden: keeps the argument out of the help
/// listing.
#[verifier::external_body]
pub(crate) fn arg_hidden<'a, 'b>(arg: clap::Arg<'a, 'b>, h: bool) -> (r: clap::Arg<'a, 'b>)
    where
        'a: 'b,

    ensures
        arg_shape(r) == (ArgShape { hidden: h, ..arg_shape(arg) }),
{
    arg.hidden(h)
}

/// Relies on clap::App::get_matches_from_safe: parses the token vector —
/// whose first element is taken as the binary name — against the grammar,
/// and returns the match table, or the structured help, version or usage
/// outcome. The engine itself supplies the help flag (`-h`/`--help`) and,
/// when a version was set, the version flag (`-V`/`--version`), unless
/// the grammar already declares those names. At the start of the run the
/// engine re-asserts that its declarations do not collide and that its
/// positionals are well-placed; the precondition leaves such grammars
/// out, so the run never aborts on the grammar.
#[verifier::external_body]
pub(crate) fn app_parse<'a, 'b>(app: clap::App<'a, 'b>, argv: &Vec<String>) -> (r: Result<
    clap::ArgMatches<'a>,
    clap::Error,
>)
    where
        'a: 'b,

    requires
        grammar_apart(app_shape(app).args),
    ensures
        (r is Ok) == engine_accepts(app, argv@.map_values(|s: String| s@)),
        (match r {
            Ok(t) => engine_present(t) == engine_present_for(app, argv@.map_values(|s: String| s@))
                && engine_values(t) == engine_values_for(app, argv@.map_values(|s: String| s@)),
            Err(_) => true,
        }),
{
    app.get_matches_from_safe(argv.iter())
}

/// Relies on clap::ArgMatches::is_present: whether an argument with that
/// canonical name occurred.
#[verifier::external_body]
pub(crate) fn am_is_present(m: &clap::ArgMatches, name: &str) -> (r: bool)
    ensures
        r == engine_present(*m).contains(name@),
{
    m.is_present(name)
}

/// Relies on clap::ArgMatches::values_of: every value captured for that
/// canonical name, in the order encountered; empty when the argument did
/// not occur or captured nothing.
#[verifier::external_body]
pub(crate) fn am_values_of<'a>(m: &'a clap::ArgMatches<'a>, name: &str) -> (r: Vec<String>)
    ensures
        r@.map_values(|v: String| v@) == (if engine_values(*m).contains_key(name@) {
            engine_values(*m)[name@]
        } else {
            Seq::<Seq<char>>::empty()
        }),
{
    let mut out: Vec<String> = Vec::new();
    if let Some(vs) = m.values_of(name) {
        for v in vs {
            out.push(v.to_owned());
        }
    }
    out
}

/// Relies on clap::Error::use_stderr: true exactly when the outcome is a
/// usage error, false when it is a help or version request.
#[verifier::external_body]
pub(crate) fn err_use_stderr(e: &clap::Error) -> (r: bool)
    ensures
        r == engine_is_usage(*e),
{
    e.use_stderr()
}

/// Relies on clap::Error's public `message` field: the rendered text of
/// the outcome — a usage error message, or the full help or version text.
#[verifier::external_body]
pub(crate) fn err_message(e: &clap::Error) -> (r: String)
    ensures
        r@ == engine_message(*e),
{
    e.message.clone()
}

} // verus!
