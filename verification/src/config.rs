//! Settings of one exporter process.

use vstd::prelude::*;

verus! {

/// Settings of the exporter; fixed once the server runs.
pub struct Config {
    /// Verbosity level: each step adds more diagnostic output.
    pub verbose: u8,
    /// Address of the tracker, as `host:port`, without scheme and without path.
    pub url: String,
    /// Port to listen on.
    pub port: u16,
    /// Interface to listen on.
    pub interface: String,
    /// Prefix of every metric name.
    pub prefix: String,
    /// Number of workers that serve scrapes.
    pub threads: usize,
    /// Human readable name of the tracker, used as a label.
    pub name: String,
}

/// What a [`Config`] holds, as mathematical values.
pub struct ConfigView {
    pub verbose: u8,
    pub url: Seq<char>,
    pub port: u16,
    pub interface: Seq<char>,
    pub prefix: Seq<char>,
    pub threads: usize,
    pub name: Seq<char>,
}

impl View for Config {
    type V = ConfigView;

    open spec fn view(&self) -> ConfigView {
        ConfigView {
            verbose: self.verbose,
            url: self.url@,
            port: self.port,
            interface: self.interface@,
            prefix: self.prefix@,
            threads: self.threads,
            name: self.name@,
        }
    }
}

impl Config {
    /// The settings used where nothing else is asked for.
    pub open spec fn defaults() -> ConfigView {
        ConfigView {
            verbose: 0,
            url: "localhost"@,
            port: 9999,
            interface: "0.0.0.0"@,
            prefix: "opentracker"@,
            threads: 8,
            name: "tracker"@,
        }
    }

    /// Creates the default settings.
    pub fn new() -> (config: Self)
        ensures
            config@ == Self::defaults(),
    {
        Self {
            verbose: 0,
            url: "localhost".to_owned(),
            port: 9999,
            interface: "0.0.0.0".to_owned(),
            prefix: "opentracker".to_owned(),
            threads: 8,
            name: "tracker".to_owned(),
        }
    }
}

} // verus!
