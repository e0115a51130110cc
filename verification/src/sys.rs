//! Static descriptors of the host system, captured once at startup by the
//! embedding application and carried on every event.

use vstd::prelude::*;

verus! {

/// Fixed-shape record of host properties, resolved once at client construction.
pub struct SystemProperties {
    pub is_debug: bool,
    pub os_name: String,
    pub os_version: String,
    pub locale: String,
    pub engine_name: String,
    pub engine_version: String,
}

impl Clone for SystemProperties {
    fn clone(&self) -> (r: Self)
        ensures
            r == *self,
    {
        SystemProperties {
            is_debug: self.is_debug,
            os_name: self.os_name.clone(),
            os_version: self.os_version.clone(),
            locale: self.locale.clone(),
            engine_name: self.engine_name.clone(),
            engine_version: self.engine_version.clone(),
        }
    }
}

/// Identity and descriptors of the device itself.
pub struct Device {
    pub identifier: String,
    pub os_name: String,
    pub os_version: String,
    pub os_locale: String,
}

} // verus!
