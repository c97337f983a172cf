//! The sound played at the start and end of a recording.
use vstd::prelude::*;

verus! {

/// The system sound file that is played.
pub const TINK_PATH: &'static str = "/System/Library/Sounds/Tink.aiff";

} // verus!
