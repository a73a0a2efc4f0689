//! What the user chose for one compilation.

use crate::pack_version::PackVersion;
use vstd::prelude::*;

verus! {

/// The settings of a compilation.
#[derive(Debug)]
pub struct Configuration {
    /// The namespace of the datapack, in small letters.
    pub namespace: String,
    /// The pack format that the datapack is for; 0 lifts every demand on it.
    pub pack_version: PackVersion,
    /// The path of the load function, which no source may define.
    pub load_name: String,
    /// The path under which the compiler keeps its own functions.
    pub private_name: String,
}

/// The settings of a compilation as a plain value.
pub struct ConfigurationView {
    pub namespace: Seq<char>,
    pub pack_format: u32,
    pub load_name: Seq<char>,
    pub private_name: Seq<char>,
}

impl View for Configuration {
    type V = ConfigurationView;

    open spec fn view(&self) -> ConfigurationView {
        ConfigurationView {
            namespace: self.namespace@,
            pack_format: self.pack_version.pack_format,
            load_name: self.load_name@,
            private_name: self.private_name@,
        }
    }
}

impl Clone for Configuration {
    fn clone(&self) -> (r: Self)
        ensures
            r@ == self@,
    {
        Configuration {
            namespace: self.namespace.clone(),
            pack_version: self.pack_version,
            load_name: self.load_name.clone(),
            private_name: self.private_name.clone(),
        }
    }
}

} // verus!
