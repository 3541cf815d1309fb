//! Error kinds of the scan pipeline.

use vstd::prelude::*;

verus! {

/// What can go fatally wrong during a scan.
///
/// `NoInterface`: no scoreable NIC was found. `L2Send` / `L2Recv`: the raw
/// layer-2 channel could not be opened or died. Either is fatal to the
/// current scan; the monitor reports it and continues.
#[derive(Clone, Copy, PartialEq, Eq, Structural, Debug)]
pub enum ScanError {
    NoInterface,
    L2Send,
    L2Recv,
}

impl ScanError {
    /// A short description of the error.
    pub fn message(&self) -> (r: String)
        ensures
            self is NoInterface ==> r@ == "No valid IPv4 network interface found"@,
            self is L2Send ==> r@ == "Failed to open or write the raw layer-2 channel"@,
            self is L2Recv ==> r@ == "The raw layer-2 channel died while receiving"@,
    {
        match self {
            ScanError::NoInterface => String::from_str("No valid IPv4 network interface found"),
            ScanError::L2Send => String::from_str("Failed to open or write the raw layer-2 channel"),
            ScanError::L2Recv => String::from_str("The raw layer-2 channel died while receiving"),
        }
    }
}

} // verus!
