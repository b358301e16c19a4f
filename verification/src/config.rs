use vstd::prelude::*;
use vstd::string::StringExecFns;

use crate::error::Error;

verus! {

/// A terminal emulator the launcher knows how to invoke.
#[derive(Clone, Copy, Debug, PartialEq, Eq, Structural)]
pub enum Term {
    Alacritty,
    Konsole,
}

impl Term {
    /// The name under which the terminal emulator is invoked.
    pub open spec fn spec_name(&self) -> Seq<char> {
        match self {
            Term::Alacritty => "alacritty"@,
            Term::Konsole => "konsole"@,
        }
    }

    pub fn name(&self) -> (r: String)
        ensures
            r@ == self.spec_name(),
    {
        match self {
            Term::Alacritty => "alacritty".to_owned(),
            Term::Konsole => "konsole".to_owned(),
        }
    }
}

/// The command-line arguments the pipeline consumes: an optional explicit
/// config file path and an optional terminal emulator choice.
pub struct Args {
    pub config: Option<String>,
    pub term: Option<Term>,
}

impl Args {
    pub fn new(config: Option<String>, term: Option<Term>) -> (r: Args)
        ensures
            r.config == config,
            r.term == term,
    {
        Args { config, term }
    }
}

/// The path the config locator resolves to, if any: the explicit path when
/// one was given, else `<home>/.ssh/config` when `HOME` is set, else nothing.
pub open spec fn spec_config_path(config: Option<Seq<char>>, home: Option<Seq<char>>) -> Option<
    Seq<char>,
> {
    match config {
        Some(c) => Some(c),
        None => match home {
            Some(h) => Some(h + "/.ssh/config"@),
            None => None,
        },
    }
}

/// Resolve the path of the SSH config file from the arguments and the value
/// of the `HOME` environment variable. This performs no file access at all:
/// when `HOME` is unset and no explicit path was given, the error is returned
/// before anything could touch the file system.
pub fn get_config_path(args: &Args, home: &Option<String>) -> (r: Result<String, Error>)
    ensures
        r matches Ok(p) ==> Some(p@) == spec_config_path(
            args.config.deep_view(),
            home.deep_view(),
        ),
        r matches Err(e) ==> e == Error::ConfigPathError && args.config is None && home is None,
        (r is Ok) == (args.config is Some || home is Some),
{
    match &args.config {
        Some(c) => Ok(c.clone()),
        None => match home {
            Some(h) => {
                let mut p = h.clone();
                p.append("/.ssh/config");
                Ok(p)
            },
            None => Err(Error::ConfigPathError),
        },
    }
}

/// The terminal identifier the resolution order yields: the flag wins, then
/// a non-empty `TERM` environment value, then the configured default. An
/// empty `TERM` counts as unset.
pub open spec fn spec_resolved_term(
    flag: Option<Term>,
    term_env: Option<Seq<char>>,
    default_term: Option<Term>,
) -> Option<Seq<char>> {
    match flag {
        Some(t) => Some(t.spec_name()),
        None => match term_env {
            Some(s) => if s.len() > 0 {
                Some(s)
            } else {
                match default_term {
                    Some(d) => Some(d.spec_name()),
                    None => None,
                }
            },
            None => match default_term {
                Some(d) => Some(d.spec_name()),
                None => None,
            },
        },
    }
}

/// Resolve the terminal emulator to launch: the `--term` flag overrides the
/// `TERM` environment variable, which overrides the default; an empty `TERM`
/// is treated as unset. Fails only when all three sources are missing.
pub fn resolve_term(args: &Args, term_env: &Option<String>, default_term: Option<Term>) -> (r:
    Result<String, Error>)
    ensures
        r matches Ok(t) ==> Some(t@) == spec_resolved_term(
            args.term,
            term_env.deep_view(),
            default_term,
        ),
        r matches Err(e) ==> e == Error::TermNotSet && spec_resolved_term(
            args.term,
            term_env.deep_view(),
            default_term,
        ) is None,
        (r is Ok) == (spec_resolved_term(args.term, term_env.deep_view(), default_term) is Some),
{
    match &args.term {
        Some(t) => Ok(t.name()),
        None => match term_env {
            Some(s) if !s.as_str().is_empty() => Ok(s.clone()),
            _ => match default_term {
                Some(d) => Ok(d.name()),
                None => Err(Error::TermNotSet),
            },
        },
    }
}

} // verus!
