//! The fixed set of domain actions the harness can be asked to repeat.

use vstd::prelude::*;

verus! {

/// One kind of operation; the scheduler repeats each configured kind a
/// configured number of times.
#[derive(Clone, Copy, Debug, PartialEq, Eq, Structural, Hash)]
pub enum Operation {
    RegisterAccount,
    RegisterDomain,
    RegisterAssetQuantity,
    RegisterAssetBigQuantity,
    RegisterAssetFixed,
    RegisterAssetStore,
    TransferAsset,
    MintAsset,
}

/// Which operation a label names, if any: each variant under its own
/// name, nothing else accepted.
pub open spec fn spec_parse_operation(s: Seq<char>) -> Option<Operation> {
    if s == "RegisterAccount"@ {
        Some(Operation::RegisterAccount)
    } else if s == "RegisterDomain"@ {
        Some(Operation::RegisterDomain)
    } else if s == "RegisterAssetQuantity"@ {
        Some(Operation::RegisterAssetQuantity)
    } else if s == "RegisterAssetBigQuantity"@ {
        Some(Operation::RegisterAssetBigQuantity)
    } else if s == "RegisterAssetFixed"@ {
        Some(Operation::RegisterAssetFixed)
    } else if s == "RegisterAssetStore"@ {
        Some(Operation::RegisterAssetStore)
    } else if s == "TransferAsset"@ {
        Some(Operation::TransferAsset)
    } else if s == "MintAsset"@ {
        Some(Operation::MintAsset)
    } else {
        None
    }
}

/// Whether two strings hold the same characters.
fn str_eq(a: &str, b: &str) -> (r: bool)
    ensures
        r == (a@ == b@),
{
    let x = a.to_owned();
    let y = b.to_owned();
    x == y
}

impl Operation {
    /// Parse an operation from its label.
    pub fn from_label(s: &str) -> (r: Option<Operation>)
        ensures
            r == spec_parse_operation(s@),
    {
        if str_eq(s, "RegisterAccount") {
            Some(Operation::RegisterAccount)
        } else if str_eq(s, "RegisterDomain") {
            Some(Operation::RegisterDomain)
        } else if str_eq(s, "RegisterAssetQuantity") {
            Some(Operation::RegisterAssetQuantity)
        } else if str_eq(s, "RegisterAssetBigQuantity") {
            Some(Operation::RegisterAssetBigQuantity)
        } else if str_eq(s, "RegisterAssetFixed") {
            Some(Operation::RegisterAssetFixed)
        } else if str_eq(s, "RegisterAssetStore") {
            Some(Operation::RegisterAssetStore)
        } else if str_eq(s, "TransferAsset") {
            Some(Operation::TransferAsset)
        } else if str_eq(s, "MintAsset") {
            Some(Operation::MintAsset)
        } else {
            None
        }
    }
}

} // verus!
