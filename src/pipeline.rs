//! One step of the analysis run: the outcome of one package's fetch merged into the report.

use vstd::prelude::*;
use crate::analyzer::{analyze_package_on, findings, lemma_findings_len, views};
use crate::metadata::{Date, FetchError, PackageMeta};
use crate::report::{merge_outcome, Report};

verus! {

/// Handles the fetch outcome of `package` on day `today`. Metadata that was had is
/// evaluated and merged (clean or with its findings); a failed fetch leaves the report
/// as it was and is handed back, for the caller to surface.
pub fn process_fetch(
    report: &mut Report,
    package: &String,
    fetched: Result<PackageMeta, FetchError>,
    today: Date,
) -> (r: Option<FetchError>)
    requires
        old(report).wf(),
        old(report).insights@.len() + 4 <= usize::MAX,
    ensures
        final(report).wf(),
        match fetched {
            Ok(m) => r is None && final(report)@ == merge_outcome(
                old(report)@,
                package@,
                findings(m@, today.day as int),
            ),
            Err(e) => r == Some(e) && final(report)@ == old(report)@,
        },
{
    match fetched {
        Ok(meta) => {
            let found = analyze_package_on(&meta, today);
            proof {
                lemma_findings_len(meta@, today.day as int);
                assert(views(found@).len() == found@.len());
            }
            report.record_outcome(package, found);
            None
        },
        Err(e) => Some(e),
    }
}

} // verus!
