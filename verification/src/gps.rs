//! GPS providers that the library itself defines.
use vstd::prelude::*;

verus! {

/// macOS CoreLocation provider. It has no fix of its own outside the desktop
/// application, which shares its position with the collector.
pub struct MacosGpsProvider;

} // verus!
