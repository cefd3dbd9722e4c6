//! Monitors of the local machine, where they cannot all be detected.
use vstd::prelude::*;

use crate::protocol::{GridPosition, MonitorInfo};

verus! {

/// The bit pattern of the floating-point number 1.0.
pub const SCALE_ONE_BITS: u64 = 0x3FF0_0000_0000_0000;

/// The display assumed where none is detected: "Primary Display", monitor 0,
/// 1920 by 1080 at the origin, scale factor 1.
pub open spec fn is_primary_display(m: MonitorInfo) -> bool {
    &&& m.monitor_id == 0
    &&& m.name@ == "Primary Display"@
    &&& m.width == 1920
    &&& m.height == 1080
    &&& m.scale_factor_bits == SCALE_ONE_BITS
    &&& m.position == GridPosition { x: 0, y: 0 }
}

/// The display assumed where none is detected.
pub fn primary_display() -> (m: MonitorInfo)
    ensures
        is_primary_display(m),
{
    MonitorInfo {
        monitor_id: 0,
        name: String::from_str("Primary Display"),
        width: 1920,
        height: 1080,
        scale_factor_bits: SCALE_ONE_BITS,
        position: GridPosition { x: 0, y: 0 },
    }
}

/// The detected monitors, or the assumed primary display where none was
/// detected.
pub fn with_fallback(detected: Vec<MonitorInfo>) -> (ms: Vec<MonitorInfo>)
    ensures
        detected@.len() > 0 ==> ms == detected,
        detected@.len() == 0 ==> ms@.len() == 1 && is_primary_display(ms@[0]),
{
    if detected.len() == 0 {
        let mut ms = Vec::new();
        ms.push(primary_display());
        ms
    } else {
        detected
    }
}

} // verus!
