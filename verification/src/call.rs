//! Input for the host "call" operation, as plain values. (De)serialization
//! to a wire form is the embedding application's concern.

use vstd::prelude::*;

verus! {

/// Which application function a caller wants run, and with what arguments.
#[derive(Debug, PartialEq, Eq)]
pub struct CallArgs {
    pub zome_name: String,
    pub cap_name: String,
    pub fn_name: String,
    pub fn_args: String,
}

impl Clone for CallArgs {
    fn clone(&self) -> (r: CallArgs)
        ensures
            r == *self,
    {
        CallArgs {
            zome_name: self.zome_name.clone(),
            cap_name: self.cap_name.clone(),
            fn_name: self.fn_name.clone(),
            fn_args: self.fn_args.clone(),
        }
    }
}

} // verus!
