//! Attention notifications. On this platform none are delivered.
use vstd::prelude::*;

verus! {

/// Delivers an attention notification; a no-op where the platform offers no
/// user notification centre.
pub fn notify_attention(_title: &str, _body: &str) {
}

} // verus!
