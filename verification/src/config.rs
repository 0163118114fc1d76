//! The pieces of the process-configuration surface that consume parsed
//! quantities: the error types, the abstract source of configuration
//! strings, a test-friendly in-memory source, and the small validating
//! parsers the loader applies to raw values.
//!
//! Reading real environment variables, socket addresses and URL syntax
//! live with the embedding program; only their decision logic is here.

use vstd::prelude::*;
use crate::numeral::{parse_u64, spec_parse_u64};
use crate::text::{chars_of, eq_str};

verus! {

/// Why a configuration could not be loaded.
#[derive(Clone, Debug, PartialEq, Eq, Structural)]
pub enum Error {
    /// An environment variable was present but unusable.
    InvalidEnvVar,
}

/// Why a single configuration value could not be parsed.
#[derive(Clone, Debug, PartialEq, Eq, Structural)]
pub enum ParseError {
    NotANumber,
    InvalidUnit,
    HostIsNotAnIpAddress,
    NotUnicode,
    UrlError(UrlError),
}

/// Why a control-plane URL was rejected.
#[derive(Clone, Copy, Debug, PartialEq, Eq, Structural)]
pub enum UrlError {
    /// The URL is syntactically invalid according to general URL parsing
    /// rules.
    SyntaxError,
    /// The URL has a scheme that isn't supported.
    UnsupportedScheme,
    /// The URL is missing the host part.
    MissingHost,
    /// The URL is missing the port and there is no default port.
    MissingPort,
    /// The URL contains a path component that isn't "/", which isn't
    /// allowed.
    PathNotAllowed,
    /// The URL contains a fragment, which isn't allowed.
    FragmentNotAllowed,
}

/// The value stored under `key` in an association list, front entry
/// winning.
pub open spec fn lookup_assoc(entries: Seq<(String, String)>, key: Seq<char>) -> Option<Seq<char>>
    decreases entries.len(),
{
    if entries.len() == 0 {
        None
    } else if entries[0].0@ == key {
        Some(entries[0].1@)
    } else {
        lookup_assoc(entries.drop_first(), key)
    }
}

/// The strings used to build a configuration, keyed by variable name.
pub trait Strings {
    /// Retrieves the value for the key `key`.
    fn get(&self, key: &str) -> Result<Option<String>, Error>;
}

/// An in-memory implementation of [`Strings`], for exercising the loader
/// without touching a real environment.
pub struct TestEnv {
    values: Vec<(String, String)>,
}

impl TestEnv {
    /// The value stored under `key`, if any.
    pub closed spec fn spec_lookup(self, key: Seq<char>) -> Option<Seq<char>> {
        lookup_assoc(self.values@, key)
    }

    /// An environment with no variables set.
    pub fn new() -> (r: Self)
        ensures
            forall|k: Seq<char>| r.spec_lookup(k) is None,
    {
        TestEnv { values: Vec::new() }
    }

    /// Sets `key` to `value`, replacing any earlier value.
    pub fn put(&mut self, key: &'static str, value: String)
        ensures
            final(self).spec_lookup(key@) == Some(value@),
            forall|k: Seq<char>|
                k != key@ ==> final(self).spec_lookup(k) == old(self).spec_lookup(k),
    {
        let pair = (key.to_owned(), value);
        self.values.insert(0, pair);
        proof {
            assert(self.values@.drop_first() =~= old(self).values@);
        }
    }

    /// Looks `key` up, cloning the stored value.
    pub fn get_value(&self, key: &str) -> (r: Option<String>)
        ensures
            match r {
                Some(v) => self.spec_lookup(key@) == Some(v@),
                None => self.spec_lookup(key@) is None,
            },
    {
        let n = self.values.len();
        proof {
            assert(self.values@.subrange(0, n as int) =~= self.values@);
        }
        let mut i: usize = 0;
        while i < n
            invariant
                n == self.values@.len(),
                i <= n,
                lookup_assoc(self.values@, key@) == lookup_assoc(
                    self.values@.subrange(i as int, n as int),
                    key@,
                ),
            decreases n - i,
        {
            let ghost rest = self.values@.subrange(i as int, n as int);
            if eq_str(self.values[i].0.as_str(), key) {
                let v = self.values[i].1.clone();
                return Some(v);
            }
            i += 1;
            proof {
                assert(rest.drop_first() =~= self.values@.subrange(i as int, n as int));
            }
        }
        proof {
            assert(self.values@.subrange(n as int, n as int) =~= Seq::<(String, String)>::empty());
        }
        None
    }
}

impl Strings for TestEnv {
    fn get(&self, key: &str) -> Result<Option<String>, Error> {
        Ok(self.get_value(key))
    }
}

/// Parses a configuration value as an unsigned number, reporting any
/// failure as [`ParseError::NotANumber`].
pub fn parse_number(s: &str) -> (r: Result<u64, ParseError>)
    ensures
        spec_parse_u64(s@) is Ok ==> r == Ok::<u64, ParseError>(spec_parse_u64(s@)->Ok_0),
        spec_parse_u64(s@) is Err ==> r == Err::<u64, ParseError>(ParseError::NotANumber),
{
    let v = chars_of(s);
    match parse_u64(&v) {
        Ok(n) => Ok(n),
        Err(_) => Err(ParseError::NotANumber),
    }
}

/// The checks a syntactically valid control-plane URL must pass before
/// its port is accepted: a host must be present, the scheme must be
/// `tcp`, a port must be given, the path must be `/`, and there must be
/// no fragment — reported in that order.
pub open spec fn spec_check_url_parts(
    scheme: Seq<char>,
    has_host: bool,
    port: Option<u16>,
    path: Seq<char>,
    has_fragment: bool,
) -> Result<u16, ParseError> {
    if !has_host {
        Err(ParseError::UrlError(UrlError::MissingHost))
    } else if scheme != "tcp"@ {
        Err(ParseError::UrlError(UrlError::UnsupportedScheme))
    } else if port is None {
        Err(ParseError::UrlError(UrlError::MissingPort))
    } else if path != "/"@ {
        Err(ParseError::UrlError(UrlError::PathNotAllowed))
    } else if has_fragment {
        Err(ParseError::UrlError(UrlError::FragmentNotAllowed))
    } else {
        Ok(port->0)
    }
}

/// Validates the parts of an already-parsed URL, as
/// [`spec_check_url_parts`] describes, returning the port on success.
pub fn check_url_parts(
    scheme: &str,
    has_host: bool,
    port: Option<u16>,
    path: &str,
    has_fragment: bool,
) -> (r: Result<u16, ParseError>)
    ensures
        r == spec_check_url_parts(scheme@, has_host, port, path@, has_fragment),
{
    if !has_host {
        Err(ParseError::UrlError(UrlError::MissingHost))
    } else if !eq_str(scheme, "tcp") {
        Err(ParseError::UrlError(UrlError::UnsupportedScheme))
    } else {
        match port {
            None => Err(ParseError::UrlError(UrlError::MissingPort)),
            Some(p) => {
                if !eq_str(path, "/") {
                    Err(ParseError::UrlError(UrlError::PathNotAllowed))
                } else if has_fragment {
                    Err(ParseError::UrlError(UrlError::FragmentNotAllowed))
                } else {
                    Ok(p)
                }
            },
        }
    }
}

/// Reads `name` from the configuration strings and applies `parse` to
/// the value, if any. An absent variable is not an error and yields
/// `Ok(None)`; a value the parser rejects, or one the source itself
/// refuses, is reported as an invalid variable.
pub fn parse<T, S: Strings, F: FnOnce(&str) -> Result<T, ParseError>>(
    strings: &S,
    name: &str,
    parse: F,
) -> Result<Option<T>, Error>
    requires
        forall|x: &str| #[trigger] call_requires(parse, (x,)),
{
    match strings.get(name) {
        Ok(Some(s)) => match parse(s.as_str()) {
            Ok(v) => Ok(Some(v)),
            Err(_) => Err(Error::InvalidEnvVar),
        },
        Ok(None) => Ok(None),
        Err(e) => Err(e),
    }
}

} // verus!
