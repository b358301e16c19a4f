use vstd::prelude::*;

verus! {

/// Every failure this library can report. Each stage of the pipeline owns
/// one or two variants: locating the config file, parsing it, resolving a
/// terminal emulator, and offering the filtered host list for selection.
#[derive(Clone, Copy, Debug, PartialEq, Eq, Structural)]
pub enum Error {
    /// `HOME` is unset while no explicit config path was given.
    ConfigPathError,
    /// The config parser rejected the file.
    ConfigParseError,
    /// A host block offers no usable `HostName`.
    MissingHostName,
    /// No terminal emulator could be resolved from flag, environment or default.
    TermNotSet,
    /// The filtered host list is empty, so there is nothing to select.
    NoHostsFound,
}

impl Error {
    /// The message shown to the user for this error.
    pub open spec fn spec_message(&self) -> Seq<char> {
        match self {
            Error::ConfigPathError => "$HOME not set"@,
            Error::ConfigParseError => "could not parse the SSH config file"@,
            Error::MissingHostName => "HostName not found"@,
            Error::TermNotSet => "$TERM not set or empty"@,
            Error::NoHostsFound => "no hosts found in the SSH config file"@,
        }
    }

    pub fn message(&self) -> (r: String)
        ensures
            r@ == self.spec_message(),
    {
        match self {
            Error::ConfigPathError => "$HOME not set".to_owned(),
            Error::ConfigParseError => "could not parse the SSH config file".to_owned(),
            Error::MissingHostName => "HostName not found".to_owned(),
            Error::TermNotSet => "$TERM not set or empty".to_owned(),
            Error::NoHostsFound => "no hosts found in the SSH config file".to_owned(),
        }
    }
}

} // verus!
