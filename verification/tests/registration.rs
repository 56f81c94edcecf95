//! Construction-time behavior: the help-text builder and descriptor
//! registration, including the rejection of an option with no name.

use coreopts::Arity;
use coreopts::ConfigError;
use coreopts::CoreOptions;
use coreopts::HelpTextBuilder;
use coreopts::OptionDescriptor;

fn plain_opts(name: &str) -> CoreOptions {
    CoreOptions::new(HelpTextBuilder::new(name).build())
}

#[test]
fn builder_keeps_every_field() {
    let t = HelpTextBuilder::new("prog")
        .version("1.2.3")
        .syntax("[OPTIONS] FILE")
        .summary("does a thing")
        .long_help("more words")
        .build();
    assert_eq!(t.name, "prog");
    assert_eq!(t.version.as_deref(), Some("1.2.3"));
    assert_eq!(t.syntax.as_deref(), Some("prog [OPTIONS] FILE"));
    assert_eq!(t.summary.as_deref(), Some("does a thing"));
    assert_eq!(t.long_help.as_deref(), Some("more words"));
}

#[test]
fn builder_starts_empty() {
    let t = HelpTextBuilder::new("prog").build();
    assert_eq!(t.name, "prog");
    assert!(t.version.is_none());
    assert!(t.syntax.is_none());
    assert!(t.summary.is_none());
    assert!(t.long_help.is_none());
}

#[test]
fn unnamed_option_is_rejected_with_nothing_registered() {
    let mut opts = plain_opts("prog");
    let d = OptionDescriptor {
        short_name: String::new(),
        long_name: String::new(),
        description: "nameless".to_owned(),
        value_hint: None,
        arity: Arity::NoValue,
        repeatable: false,
        aliases: Vec::new(),
    };
    let r = opts.try_register(d);
    assert_eq!(r, Err(ConfigError::UnnamedOption));
    assert_eq!(opts.descriptors.len(), 0);
    assert_eq!(opts.short_to_long.len(), 0);
}

#[test]
fn unnamed_option_leaves_earlier_registrations_alone() {
    let mut opts = plain_opts("prog");
    opts.optflag("q", "quiet", "say less");
    let d = OptionDescriptor {
        short_name: String::new(),
        long_name: String::new(),
        description: String::new(),
        value_hint: None,
        arity: Arity::RequiredOne,
        repeatable: false,
        aliases: Vec::new(),
    };
    let r = opts.try_register(d);
    assert!(r.is_err());
    assert_eq!(opts.descriptors.len(), 1);
    assert_eq!(opts.descriptors[0].long_name, "quiet");
}

#[test]
fn registration_fills_the_alias_table() {
    let mut opts = plain_opts("prog");
    opts.optflag("q", "quiet", "say less");
    opts.optopt("o", "output", "where to write", "FILE");
    assert_eq!(opts.short_to_long.len(), 2);
    assert_eq!(opts.short_to_long[0], ("q".to_owned(), "quiet".to_owned()));
    assert_eq!(opts.short_to_long[1], ("o".to_owned(), "output".to_owned()));
}

#[test]
fn short_only_option_is_its_own_canonical_key() {
    let mut opts = plain_opts("prog");
    opts.optflag("x", "", "short only");
    assert_eq!(opts.short_to_long[0], ("x".to_owned(), "x".to_owned()));
}

#[test]
fn one_character_aliases_join_the_alias_table() {
    let mut opts = plain_opts("prog");
    opts.optflags(&["v", "V"], &["verbose", "loud"], "say more");
    assert_eq!(opts.descriptors[0].short_name, "v");
    assert_eq!(opts.descriptors[0].long_name, "verbose");
    assert_eq!(opts.descriptors[0].aliases, vec!["V".to_owned(), "loud".to_owned()]);
    assert_eq!(opts.short_to_long.len(), 2);
    assert_eq!(opts.short_to_long[0], ("v".to_owned(), "verbose".to_owned()));
    assert_eq!(opts.short_to_long[1], ("V".to_owned(), "verbose".to_owned()));
}
