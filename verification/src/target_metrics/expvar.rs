//! The scraper of Go expvar metrics: a JSON tree, fetched once a second.

use vstd::prelude::*;
use vstd::string::StringExecFns;

verus! {

/// How long to pause between two scrapes, and how long a scrape may take,
/// in milliseconds.
pub const SCRAPE_INTERVAL: u64 = 1_000;

/// Why the scraper failed.
#[derive(Debug, Clone, Copy, PartialEq, Eq, Structural)]
pub enum Error {
    /// The scraper ended before the run did.
    EarlyShutdown,
}

/// The configuration of the scraper.
#[derive(Debug)]
pub struct Config {
    /// Where to fetch the variables from.
    pub uri: String,
    /// Which variables to read: JSON pointers into the tree.
    pub vars: Vec<String>,
}

/// How the scraper came to an end.
#[derive(Debug, Clone, Copy, PartialEq, Eq, Structural)]
pub enum Ended {
    /// Its loop returned, which it should never do.
    Server,
    /// The run is over.
    Shutdown,
}

/// The scraper.
#[derive(Debug)]
pub struct Expvar {
    config: Config,
}

/// `name` without the slashes it starts with.
pub open spec fn without_leading_slashes(name: Seq<char>) -> Seq<char>
    decreases name.len(),
{
    if name.len() > 0 && name[0] == '/' {
        without_leading_slashes(name.skip(1))
    } else {
        name
    }
}

/// The name of the gauge for a variable: `target/`, then the variable's
/// pointer without the slashes it starts with.
pub open spec fn gauge_text(var_name: Seq<char>) -> Seq<char> {
    "target/"@ + without_leading_slashes(var_name)
}

/// The name of the gauge for a variable.
pub fn gauge_name(var_name: &str) -> (r: String)
    ensures
        r@ == gauge_text(var_name@),
{
    let length: usize = var_name.unicode_len();
    let mut at: usize = 0;
    assert(var_name@.skip(0) =~= var_name@);
    while at < length && var_name.get_char(at) == '/'
        invariant
            at <= length,
            length == var_name@.len(),
            without_leading_slashes(var_name@) == without_leading_slashes(var_name@.skip(at as int)),
        decreases length - at,
    {
        proof {
            let rest = var_name@.skip(at as int);
            assert(rest[0] == var_name@[at as int]);
            assert(rest.skip(1) =~= var_name@.skip(at + 1));
        }
        at += 1;
    }
    proof {
        let rest = var_name@.skip(at as int);
        if at < length {
            assert(rest[0] == var_name@[at as int]);
        }
        assert(without_leading_slashes(rest) == rest);
        assert(rest =~= var_name@.subrange(at as int, length as int));
    }
    let mut r = String::from_str("target/");
    r.append(var_name.substring_char(at, length));
    r
}

impl Expvar {
    /// The configuration, as given.
    pub closed spec fn settings(&self) -> Config {
        self.config
    }

    /// A scraper for the configuration.
    pub fn new(config: Config) -> (r: Self)
        ensures
            r.settings() == config,
    {
        Expvar { config }
    }

    /// Where to fetch the variables from.
    pub fn uri(&self) -> (r: &String)
        ensures
            *r == self.settings().uri,
    {
        &self.config.uri
    }

    /// Which variables to read.
    pub fn vars(&self) -> (r: &Vec<String>)
        ensures
            *r == self.settings().vars,
    {
        &self.config.vars
    }

    /// The end of the scraper: success if the run is over, a failure if the
    /// scraper's own loop ended first.
    pub fn run(self, ended: Ended) -> (r: Result<(), Error>)
        ensures
            r == match ended {
                Ended::Server => Err::<(), Error>(Error::EarlyShutdown),
                Ended::Shutdown => Ok::<(), Error>(()),
            },
    {
        match ended {
            Ended::Server => Err(Error::EarlyShutdown),
            Ended::Shutdown => Ok(()),
        }
    }
}

} // verus!
