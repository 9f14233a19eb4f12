//! Voice-activity detection boundary: the frame contract shared by the
//! chunker and whatever stateful classifier backs it.
//!
//! The classifier itself is a recurrent model run by an inference engine
//! outside the verified library; here live the interface the chunker drives
//! and the checks on the fixed tensor contract the model must honour.

use vstd::prelude::*;

verus! {

/// Samples per analysis frame: 30 ms at the canonical 16 kHz rate.
pub const VAD_FRAME_SIZE: usize = 480;

/// A stateful binary speech classifier over fixed-size audio frames.
///
/// One call classifies one frame and carries recurrent context forward in
/// the implementor's own state. `Some(true)` means the frame holds speech,
/// `Some(false)` means it does not, and `None` reports an inference failure
/// for that call alone; the chunker recovers from `None` by treating the
/// frame as not known to be silent and scanning on.
///
/// No behaviour is promised of implementations: everything proved about the
/// chunker holds for every classifier, however it answers.
pub trait FrameClassifier<S> {
    fn classify(&mut self, frame: &[S]) -> (r: Option<bool>);
}

/// True exactly when `dims` is the required shape of each recurrent state
/// tensor (hidden and cell) of the frame classifier: (2, 1, 64).
///
/// The state a classifier invocation returns must keep this shape; a
/// mismatch is a fatal error for the detector, never silently reshaped.
pub fn valid_state_shape(dims: &Vec<u64>) -> (r: bool)
    ensures
        r <==> (dims@.len() == 3 && dims@[0] == 2 && dims@[1] == 1 && dims@[2] == 64),
{
    dims.len() == 3 && dims[0] == 2 && dims[1] == 1 && dims[2] == 64
}

} // verus!
