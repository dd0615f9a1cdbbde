//! Structural checks of discovery and authoring contracts.
use vstd::prelude::*;

use crate::director::model::authoring_contract::{AiSafeAuthoringContract, DiscoveryContract};

verus! {

/// Why a contract was rejected.
#[derive(Debug, Clone, Copy, PartialEq, Eq, Structural)]
pub enum ValidationError {
    EmptyPlan,
    TooManyFilesInBundle { max: u32 },
    DiscoveryNotLoaded,
    ProfileTierMismatch,
}

/// A discovery contract is accepted when all three spine ids are non-empty.
pub fn validate_discovery_contract(dc: &DiscoveryContract) -> (r: Result<(), ValidationError>)
    ensures
        r is Ok <==> (dc.spineRefs.invariantsSpineId@.len() > 0 && dc.spineRefs.entertainmentMetricsSpineId@.len() > 0
            && dc.spineRefs.schemaSpineIndexId@.len() > 0),
        r is Err ==> r == Err::<(), ValidationError>(ValidationError::DiscoveryNotLoaded),
{
    if dc.spineRefs.invariantsSpineId.unicode_len() == 0 || dc.spineRefs.entertainmentMetricsSpineId.unicode_len() == 0
        || dc.spineRefs.schemaSpineIndexId.unicode_len() == 0
    {
        return Err(ValidationError::DiscoveryNotLoaded);
    }
    Ok(())
}

/// A bundle size is acceptable when it is between 1 and 3 files.
pub open spec fn bundle_size_ok(n: u32) -> bool {
    1 <= n <= 3
}

/// An authoring contract is accepted when its plan is non-empty and every
/// planned artifact allows between one and three files; otherwise the first
/// failing check is reported.
pub fn validate_authoring_contract(ac: &AiSafeAuthoringContract) -> (r: Result<(), ValidationError>)
    ensures
        ({
            let arts = ac.plan.artifacts@;
            &&& arts.len() == 0 ==> r == Err::<(), ValidationError>(ValidationError::EmptyPlan)
            &&& arts.len() > 0 ==> (r is Ok <==> forall|i: int| 0 <= i < arts.len() ==> bundle_size_ok(#[trigger] arts[i].maxFilesInBundle))
            &&& arts.len() > 0 && r is Err ==> exists|i: int| 0 <= i < arts.len()
                && !bundle_size_ok(#[trigger] arts[i].maxFilesInBundle)
                && (forall|k: int| 0 <= k < i ==> bundle_size_ok(#[trigger] arts[k].maxFilesInBundle))
                && r == Err::<(), ValidationError>(ValidationError::TooManyFilesInBundle { max: arts[i].maxFilesInBundle })
        }),
{
    let arts = &ac.plan.artifacts;
    if arts.len() == 0 {
        return Err(ValidationError::EmptyPlan);
    }
    let mut i: usize = 0;
    while i < arts.len()
        invariant
            i <= arts.len(),
            arts@ == ac.plan.artifacts@,
            forall|k: int| 0 <= k < i ==> bundle_size_ok(#[trigger] arts@[k].maxFilesInBundle),
        decreases arts.len() - i,
    {
        let n = arts[i].maxFilesInBundle;
        if n == 0 || n > 3 {
            return Err(ValidationError::TooManyFilesInBundle { max: n });
        }
        i = i + 1;
    }
    Ok(())
}

} // verus!
