//! Introspection: the listing of everything a service has registered,
//! served to interested peers.

use vstd::prelude::*;
use crate::registry::ServiceRegistry;

verus! {

/// The reserved service name under which connection introspection is
/// offered.
pub const CONNECT_SERVICE_NAME: &'static str = "karo.bus.connect";

/// The reserved method name under which a service lists its registry.
pub const INSPECT_METHOD: &'static str = "inspect";

/// A service's registered names, one list per category.
pub struct InspectData {
    pub methods: Vec<String>,
    pub signals: Vec<String>,
    pub states: Vec<String>,
}

impl InspectData {
    /// An empty listing.
    pub fn new() -> (d: InspectData)
        ensures
            d.methods@.len() == 0,
            d.signals@.len() == 0,
            d.states@.len() == 0,
    {
        InspectData { methods: Vec::new(), signals: Vec::new(), states: Vec::new() }
    }

    /// The listing of everything `reg` has registered, each category in
    /// registration order.
    pub fn of_registry(reg: &ServiceRegistry) -> (d: InspectData)
        ensures
            d.methods@.map_values(|s: String| s@) == reg.methods@.map_values(
                |e: crate::registry::MethodEntry| e.name@,
            ),
            d.signals@.map_values(|s: String| s@) == reg.signals@.map_values(
                |e: crate::registry::SignalEntry| e.name@,
            ),
            d.states@.map_values(|s: String| s@) == reg.states@.map_values(
                |e: crate::registry::StateEntry| e.name@,
            ),
    {
        let mut methods: Vec<String> = Vec::new();
        let mut i: usize = 0;
        while i < reg.methods.len()
            invariant
                0 <= i <= reg.methods@.len(),
                methods@.len() == i,
                forall|k: int| 0 <= k < i ==> methods@[k]@ == reg.methods@[k].name@,
            decreases reg.methods@.len() - i,
        {
            methods.push(reg.methods[i].name.clone());
            i = i + 1;
        }
        let mut signals: Vec<String> = Vec::new();
        let mut j: usize = 0;
        while j < reg.signals.len()
            invariant
                0 <= j <= reg.signals@.len(),
                signals@.len() == j,
                forall|k: int| 0 <= k < j ==> signals@[k]@ == reg.signals@[k].name@,
            decreases reg.signals@.len() - j,
        {
            signals.push(reg.signals[j].name.clone());
            j = j + 1;
        }
        let mut states: Vec<String> = Vec::new();
        let mut k: usize = 0;
        while k < reg.states.len()
            invariant
                0 <= k <= reg.states@.len(),
                states@.len() == k,
                forall|x: int| 0 <= x < k ==> states@[x]@ == reg.states@[x].name@,
            decreases reg.states@.len() - k,
        {
            states.push(reg.states[k].name.clone());
            k = k + 1;
        }
        proof {
            assert(methods@.map_values(|s: String| s@) =~= reg.methods@.map_values(
                |e: crate::registry::MethodEntry| e.name@,
            ));
            assert(signals@.map_values(|s: String| s@) =~= reg.signals@.map_values(
                |e: crate::registry::SignalEntry| e.name@,
            ));
            assert(states@.map_values(|s: String| s@) =~= reg.states@.map_values(
                |e: crate::registry::StateEntry| e.name@,
            ));
        }
        InspectData { methods, signals, states }
    }
}

} // verus!
