//! The envelopes that producers publish.
use std::path::PathBuf;
use std::sync::Arc;
use vstd::prelude::*;

verus! {

/// One frame for the aggregator: a measurement with its per-source frame id,
/// the source's identifier and the directory its files go to.
pub struct LidarMessage<M> {
    pub frame_id: usize,
    pub role_name: Arc<String>,
    pub measure: Arc<M>,
    pub sub_outdir: Arc<PathBuf>,
}

/// One frame for the live view: a measurement with the source's identifier
/// and the pose of the source at capture time.
pub struct GuiMessage<M, P> {
    pub role_name: Arc<String>,
    pub measure: Arc<M>,
    pub transform: P,
}

} // verus!
