//! Statistics of protocol detection (detection itself happens when a
//! connection is accepted; these counters are kept for reporting).

use std::collections::HashMap;
use std::time::Duration;

use vstd::prelude::*;

verus! {

/// Protocol detection counters.
#[derive(Debug, Default)]
pub struct ProtocolDetectionStats {
    /// How many detections ran.
    pub total_detections: u64,
    /// Time spent detecting, in total.
    pub total_detection_time: Duration,
    /// Detections per protocol name.
    pub protocol_counts: HashMap<String, u64>,
    /// Detections with high confidence.
    pub high_confidence_detections: u64,
    /// Malicious protocols blocked.
    pub blocked_protocols: u64,
    /// Detections that failed.
    pub detection_errors: u64,
}

} // verus!
