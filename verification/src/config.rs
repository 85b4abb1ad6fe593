//! Configuration of the processor.
use vstd::prelude::*;

verus! {

/// How the processor treats a failed record.
pub struct TransactionProcessorConfig {
    /// Stop at the first failed record, rather than skip it.
    pub fail_file_on_error: bool,
}

impl Default for TransactionProcessorConfig {
    /// Failed records are skipped.
    fn default() -> (r: Self)
        ensures
            r.fail_file_on_error == false,
    {
        Self { fail_file_on_error: false }
    }
}

} // verus!
