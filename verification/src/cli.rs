//! Command-line arguments and the version string.
use vstd::prelude::*;
use vstd::string::*;

verus! {

/// The version text: the package version, followed by the extra build
/// information in parentheses when there is any.
pub open spec fn version_spec(pkg: Seq<char>, extra: Option<Seq<char>>) -> Seq<char> {
    match extra {
        Some(x) => pkg + " ("@ + x + ")"@,
        None => pkg,
    }
}

/// The version text: `"{pkg} ({extra})"` when extra build information is
/// given, `pkg` alone otherwise.
pub fn version(pkg: &str, extra: Option<&str>) -> (s: String)
    ensures
        s@ == version_spec(pkg@, match extra {
            Some(x) => Some(x@),
            None => None,
        }),
{
    match extra {
        Some(x) => {
            let s = String::from_str(pkg);
            let s = s.concat(" (");
            let s = s.concat(x);
            s.concat(")")
        },
        None => String::from_str(pkg),
    }
}

/// Command-line arguments.
#[derive(Debug, Clone)]
pub struct Args {
    /// Optional path of a configuration file.
    pub config: Option<String>,
}

/// Why the command line was not accepted: `display` is set when clap
/// answered with help or version text rather than an error.
#[derive(Debug, Clone)]
pub struct CliError {
    pub display: bool,
    pub message: String,
}

/// A parse outcome taken by its views.
pub open spec fn cli_outcome_view(r: Result<Option<String>, CliError>) -> Result<
    Option<Seq<char>>,
    (bool, Seq<char>),
> {
    match r {
        Ok(Some(c)) => Ok(Some(c@)),
        Ok(None) => Ok(None),
        Err(e) => Err((e.display, e.message@)),
    }
}

/// The outcome of clap's parse of an argument vector (the program name
/// first) for a command with a `-c`/`--config <CONFIG>` option (described
/// as the optional path of a conduwuit config TOML file) and the given
/// version text: the value of the option, or the rendered error.
pub uninterp spec fn clap_parse_config(argv: Seq<Seq<char>>, version: Seq<char>) -> Result<
    Option<Seq<char>>,
    (bool, Seq<char>),
>;

/// `clap::Command::try_get_matches_from` on a command with one optional
/// `-c`/`--config` value; the outcome is named `clap_parse_config` of the
/// arguments.
#[verifier::external_body]
fn clap_config(argv: Vec<String>, version: &'static str) -> (r: Result<Option<String>, CliError>)
    ensures
        cli_outcome_view(r) == clap_parse_config(argv@.map_values(|a: String| a@), version@),
{
    let cmd = clap::Command::new("conduwuit").version(version).arg(
        clap::Arg::new("config").short('c').long("config").value_name("CONFIG").help(
            "Optional argument to the path of a conduwuit config TOML file",
        ),
    );
    match cmd.try_get_matches_from(argv) {
        Ok(m) => Ok(m.get_one::<String>("config").cloned()),
        Err(e) => Err(CliError {
            display: !e.use_stderr(),
            message: format!("{}", e.render()),
        }),
    }
}

/// Parses the command line (the program name first) into structured
/// arguments.
pub fn parse(argv: Vec<String>, version: &'static str) -> (r: Result<Args, CliError>)
    ensures
        match clap_parse_config(argv@.map_values(|a: String| a@), version@) {
            Ok(c) => r matches Ok(args) && match c {
                Some(p) => args.config matches Some(q) && q@ == p,
                None => args.config is None,
            },
            Err((display, message)) => r matches Err(e) && e.display == display
                && e.message@ == message,
        },
{
    match clap_config(argv, version) {
        Ok(config) => Ok(Args { config }),
        Err(e) => Err(e),
    }
}

} // verus!
