//! Run options and the fail-on threshold.

use vstd::prelude::*;

verus! {

/// The severity from which a run is reported as failed.
#[derive(Clone, Copy, Debug, PartialEq, Eq, Structural)]
pub enum FailLevel {
    /// Never fail.
    Never,
    /// Fail on a warning or anything worse.
    Warn,
    /// Fail on a critical finding only.
    Crit,
}

/// The options of one run.
#[derive(Clone, Debug)]
pub struct Args {
    /// The project directory.
    pub path: String,
    /// Skip the development dependencies.
    pub no_dev: bool,
    /// Print the findings as JSON.
    pub json: bool,
    /// The fail-on threshold.
    pub fail_on: FailLevel,
}

/// Builds the run options from what the command line gave, with the defaults for what
/// it left out: the current directory and a threshold that never fails.
pub fn parse_args(path: Option<String>, no_dev: bool, json: bool, fail_on: Option<FailLevel>) -> (r: Args)
    ensures
        r.path@ == (match path {
            Some(p) => p@,
            None => "."@,
        }),
        r.no_dev == no_dev,
        r.json == json,
        r.fail_on == (match fail_on {
            Some(f) => f,
            None => FailLevel::Never,
        }),
{
    let path = match path {
        Some(p) => p,
        None => String::from_str("."),
    };
    let fail_on = match fail_on {
        Some(f) => f,
        None => FailLevel::Never,
    };
    Args { path, no_dev, json, fail_on }
}

} // verus!
