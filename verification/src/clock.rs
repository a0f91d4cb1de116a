use vstd::prelude::*;

verus! {

/// The current instant as an RFC 3339 text: `chrono::Utc::now()` converted
/// with `DateTime::to_rfc3339`.
/// Nothing is claimed of the text: it depends on the time of the call.
#[verifier::external_body]
pub(crate) fn now_rfc3339() -> (t: String) {
    chrono::Utc::now().to_rfc3339()
}

} // verus!
