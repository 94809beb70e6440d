//! Alpine apk: searches and updates are not supported yet.
use vstd::prelude::*;

verus! {

pub struct ApkProvider;

impl ApkProvider {
    pub fn new() -> (r: ApkProvider)
        ensures
            r == ApkProvider,
    {
        ApkProvider
    }
}

} // verus!
