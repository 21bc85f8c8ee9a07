//! The naming of a market's base asset.
//!
//! The base of a market is either a coin, named by the account address, the
//! module and the struct of its type, or a generic asset that has a name of
//! its own. A registration that gives a generic name gives none of the three
//! parts of a coin type.

use vstd::prelude::*;

verus! {

/// How the registration of a market names its base asset.
#[derive(Clone, Debug, PartialEq, Eq)]
pub struct BaseAsset {
    pub account_address: Option<String>,
    pub module_name: Option<String>,
    pub struct_name: Option<String>,
    pub name_generic: Option<String>,
}

impl BaseAsset {
    /// Whether the naming is consistent: with a generic name there is no
    /// account address, no module name and no struct name.
    pub open spec fn consistent(self) -> bool {
        self.name_generic is Some ==> self.account_address is None && self.module_name is None
            && self.struct_name is None
    }

    /// Whether the naming is consistent. A market is registered only with a
    /// consistent base.
    pub fn is_consistent(&self) -> (ok: bool)
        ensures
            ok == self.consistent(),
    {
        if self.name_generic.is_some() {
            self.account_address.is_none() && self.module_name.is_none()
                && self.struct_name.is_none()
        } else {
            true
        }
    }
}

} // verus!
