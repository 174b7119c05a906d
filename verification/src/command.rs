//! The chains that the program resolves its own configuration with, each
//! ordered from the most explicit source to the compiled-in default.

use crate::args::arg_values;
use crate::cfg::{default_template_glob, Cfg, CfgModel};
use crate::cli::{
    reads_from, resolve_with, ArgHandler, CfgFileHandler, DefaultHandler, EnvHandler, FileHandler,
    Handler, Lookup,
};
use crate::model::{resolve, Source, World};
use vstd::prelude::*;
use vstd::string::StrSliceExecFns;

verus! {

/// The chain for the path of the configuration file: the argument, then the
/// environment under `prefix`, then `default_path`.
pub fn config_path_chain<'a>(matches: &'a clap::ArgMatches, prefix: &str, default_path: &str) -> (chain:
    ArgHandler<'a>)
    ensures
        chain.chain() == config_path_sources(arg_values(*matches), prefix@, default_path@),
{
    let env = EnvHandler::new().prefix(prefix).next(Box::new(DefaultHandler::new(default_path)));
    let chain = ArgHandler::new(matches).next(Box::new(env));
    proof {
        assert(chain.chain() =~= seq![
            Source::Arg { values: arg_values(*matches) },
            Source::Env { prefix: Some(prefix@) },
            Source::Default { value: default_path@ },
        ]);
    }
    chain
}

/// The chain for one attribute of the configuration: the argument, then the
/// environment under `prefix`, then the configuration file at
/// `config_path`, then `default`.
pub fn attribute_chain<'a>(
    matches: &'a clap::ArgMatches,
    prefix: &str,
    config_path: &str,
    default: &str,
) -> (chain: ArgHandler<'a>)
    ensures
        chain.chain() == attribute_sources(arg_values(*matches), prefix@, config_path@, default@),
{
    let file = CfgFileHandler::new(config_path).next(Box::new(DefaultHandler::new(default)));
    let env = EnvHandler::new().prefix(prefix).next(Box::new(file));
    let chain = ArgHandler::new(matches).next(Box::new(env));
    proof {
        assert(chain.chain() =~= seq![
            Source::Arg { values: arg_values(*matches) },
            Source::Env { prefix: Some(prefix@) },
            Source::CfgFile { path: config_path@ },
            Source::Default { value: default@ },
        ]);
    }
    chain
}

/// The chain for the verbosity of the log: the argument, then the
/// environment under `prefix`, then the whole text of the file at
/// `verbosity_path`, then `default`.
pub fn verbosity_chain<'a>(
    matches: &'a clap::ArgMatches,
    prefix: &str,
    verbosity_path: &str,
    default: &str,
) -> (chain: ArgHandler<'a>)
    ensures
        chain.chain() == seq![
            Source::Arg { values: arg_values(*matches) },
            Source::Env { prefix: Some(prefix@) },
            Source::File { path: verbosity_path@ },
            Source::Default { value: default@ },
        ],
{
    let file = FileHandler::new(verbosity_path).next(Box::new(DefaultHandler::new(default)));
    let env = EnvHandler::new().prefix(prefix).next(Box::new(file));
    let chain = ArgHandler::new(matches).next(Box::new(env));
    proof {
        assert(chain.chain() =~= seq![
            Source::Arg { values: arg_values(*matches) },
            Source::Env { prefix: Some(prefix@) },
            Source::File { path: verbosity_path@ },
            Source::Default { value: default@ },
        ]);
    }
    chain
}

/// The number that a string of decimal digits stands for.
pub open spec fn digits_value(digits: Seq<char>) -> nat
    decreases digits.len(),
{
    if digits.len() == 0 {
        0
    } else {
        digits_value(digits.drop_last()) * 10 + (digits.last() as nat - '0' as nat) as nat
    }
}

/// Every character of `text` is a decimal digit.
pub open spec fn all_digits(text: Seq<char>) -> bool {
    forall|i: int| 0 <= i < text.len() ==> '0' <= #[trigger] text[i] <= '9'
}

/// `text` without the `+` in front of it, if it has one.
pub open spec fn unsigned(text: Seq<char>) -> Seq<char> {
    if text.len() > 0 && text[0] == '+' {
        text.drop_first()
    } else {
        text
    }
}

/// The port that `text` names: decimal digits with nothing around them but
/// an optional `+` in front, and a value that sixteen bits hold.
pub open spec fn port_of(text: Seq<char>) -> Option<u16> {
    let digits = unsigned(text);
    if digits.len() > 0 && all_digits(digits) && digits_value(digits) <= u16::MAX {
        Some(digits_value(digits) as u16)
    } else {
        None
    }
}

/// Appending one digit to a string of digits multiplies its number by ten
/// and adds the digit.
pub proof fn lemma_digits_value_push(text: Seq<char>, start: int, end: int)
    requires
        0 <= start <= end < text.len(),
    ensures
        digits_value(text.subrange(start, end + 1)) == digits_value(text.subrange(start, end)) * 10 + (
        text[end] as nat - '0' as nat) as nat,
{
    let longer = text.subrange(start, end + 1);
    assert(longer.drop_last() =~= text.subrange(start, end));
    assert(longer.last() == text[end]);
}

/// A string of digits stands for a number no smaller than any of its
/// prefixes does.
pub proof fn lemma_digits_value_grows(text: Seq<char>, start: int, mid: int, end: int)
    requires
        0 <= start <= mid <= end <= text.len(),
        forall|i: int| start <= i < end ==> '0' <= #[trigger] text[i] <= '9',
    ensures
        digits_value(text.subrange(start, mid)) <= digits_value(text.subrange(start, end)),
    decreases end - mid,
{
    if mid < end {
        lemma_digits_value_grows(text, start, mid, end - 1);
        lemma_digits_value_push(text, start, end - 1);
    }
}

/// The port that `text` names, if it names one.
pub fn parse_port(text: &str) -> (port: Option<u16>)
    ensures
        port == port_of(text@),
{
    let n = text.unicode_len();
    let ghost digits = unsigned(text@);
    if !text.is_ascii() {
        proof {
            let i = choose|i: int| 0 <= i < text@.len() && !('\0' <= #[trigger] text@[i] <= '\u{7f}');
            if text@[0] == '+' {
                assert(digits[i - 1] == text@[i]);
                assert(!('0' <= digits[i - 1] <= '9'));
            } else {
                assert(!('0' <= digits[i] <= '9'));
            }
        }
        return None;
    }
    let start: usize = if n > 0 && text.get_ascii(0) == 43 {
        1
    } else {
        0
    };
    proof {
        assert(digits =~= text@.subrange(start as int, n as int));
    }
    if start == n {
        return None;
    }
    let mut value: u32 = 0;
    let mut i: usize = start;
    while i < n
        invariant
            start <= i <= n,
            n == text@.len(),
            text.is_ascii(),
            digits == unsigned(text@),
            digits == text@.subrange(start as int, n as int),
            forall|k: int| start <= k < i ==> '0' <= #[trigger] text@[k] <= '9',
            value == digits_value(text@.subrange(start as int, i as int)),
            value <= u16::MAX,
        decreases n - i,
    {
        let byte = text.get_ascii(i);
        proof {
            assert('\0' <= text@[i as int] <= '\u{7f}');
            assert(text@[i as int] as int == byte as int);
            assert(digits[i - start] == text@[i as int]);
            lemma_digits_value_push(text@, start as int, i as int);
        }
        if byte < 48 || byte > 57 {
            proof {
                assert(!('0' <= digits[i - start] <= '9'));
            }
            return None;
        }
        let next: u32 = value * 10 + (byte - 48) as u32;
        if next > 65535 {
            proof {
                if all_digits(digits) {
                    assert forall|k: int| start <= k < n implies '0' <= #[trigger] text@[k] <= '9' by {
                        assert(digits[k - start] == text@[k]);
                    }
                    lemma_digits_value_grows(text@, start as int, i + 1, n as int);
                }
            }
            return None;
        }
        value = next;
        i += 1;
    }
    proof {
        assert(text@.subrange(start as int, i as int) =~= digits);
        assert forall|k: int| 0 <= k < digits.len() implies '0' <= #[trigger] digits[k] <= '9' by {
            assert(digits[k] == text@[k + start]);
        }
    }
    Some(value as u16)
}

/// Why no configuration could be put together.
pub enum RunError {
    /// What the port resolved to is no port; the text is handed back.
    Port(String),
}

/// The configuration that the sources of `world` give, or the text that was
/// found for the port and is none.
///
/// The path of the configuration file is resolved first; template glob,
/// address and port are then resolved each along a chain of its own that
/// reads that file. The verbosity is left at its default.
pub open spec fn run_cfg(
    values: Map<Seq<char>, Seq<char>>,
    prefix: Seq<char>,
    default_path: Seq<char>,
    manifest_dir: Seq<char>,
    world: World,
) -> Result<CfgModel, Seq<char>> {
    let config_path = resolve(config_path_sources(values, prefix, default_path), "config"@, world).unwrap();
    let template_glob = resolve(
        attribute_sources(values, prefix, config_path, manifest_dir + "/templates/**/*"@),
        "template_glob"@,
        world,
    ).unwrap();
    let address = resolve(
        attribute_sources(values, prefix, config_path, "127.0.0.1"@),
        "address"@,
        world,
    ).unwrap();
    let port = resolve(attribute_sources(values, prefix, config_path, "8080"@), "port"@, world).unwrap();
    match port_of(port) {
        Some(number) => Ok(CfgModel { verbose: "info"@, address, port: number, template_glob }),
        None => Err(port),
    }
}

/// The sources of the chain for the path of the configuration file.
pub open spec fn config_path_sources(
    values: Map<Seq<char>, Seq<char>>,
    prefix: Seq<char>,
    default_path: Seq<char>,
) -> Seq<Source> {
    seq![Source::Arg { values }, Source::Env { prefix: Some(prefix) }, Source::Default { value: default_path }]
}

/// The sources of the chain for one attribute of the configuration.
pub open spec fn attribute_sources(
    values: Map<Seq<char>, Seq<char>>,
    prefix: Seq<char>,
    config_path: Seq<char>,
    default: Seq<char>,
) -> Seq<Source> {
    seq![
        Source::Arg { values },
        Source::Env { prefix: Some(prefix) },
        Source::CfgFile { path: config_path },
        Source::Default { value: default },
    ]
}

/// The characters of an outcome of [`resolve_cfg`].
pub open spec fn outcome_view(outcome: Result<Cfg, RunError>) -> Result<CfgModel, Seq<char>> {
    match outcome {
        Ok(cfg) => Ok(cfg@),
        Err(RunError::Port(text)) => Err(text@),
    }
}

/// Puts the configuration of a run together, with `read` doing every
/// reading that the chains ask for.
///
/// Whatever world `read` answers from, the outcome is what [`run_cfg`]
/// gives for that world. Whatever `read` answers, a configuration that comes
/// back has the default verbosity, and a text that comes back is no port.
pub fn resolve_cfg<F: Fn(&Lookup) -> Option<String> + Copy>(
    matches: &clap::ArgMatches,
    prefix: &str,
    default_path: &str,
    manifest_dir: &str,
    read: F,
) -> (outcome: Result<Cfg, RunError>)
    requires
        forall|lookup: &Lookup| call_requires(read, (lookup,)),
    ensures
        forall|world: World| reads_from(read, world) ==> outcome_view(outcome) == run_cfg(
            arg_values(*matches),
            prefix@,
            default_path@,
            manifest_dir@,
            world,
        ),
        outcome matches Ok(cfg) ==> cfg.verbose@ == "info"@,
        outcome matches Err(RunError::Port(text)) ==> port_of(text@) is None,
{
    let config_path = resolve_with(&config_path_chain(matches, prefix, default_path), "config", read).unwrap();
    let mut cfg = Cfg::with_defaults(manifest_dir);

    let default_glob = default_template_glob(manifest_dir);
    let template_glob = resolve_with(
        &attribute_chain(matches, prefix, config_path.as_str(), default_glob.as_str()),
        "template_glob",
        read,
    );
    if let Some(template_glob) = template_glob {
        cfg.template_glob = template_glob;
    }
    let address = resolve_with(
        &attribute_chain(matches, prefix, config_path.as_str(), "127.0.0.1"),
        "address",
        read,
    );
    if let Some(address) = address {
        cfg.address = address;
    }
    let port = resolve_with(&attribute_chain(matches, prefix, config_path.as_str(), "8080"), "port", read);
    if let Some(port) = port {
        match parse_port(port.as_str()) {
            Some(number) => {
                cfg.port = number;
            },
            None => {
                return Err(RunError::Port(port));
            },
        }
    }
    Ok(cfg)
}

} // verus!
