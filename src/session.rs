use vstd::prelude::*;

use crate::loader::{all_cover, decoded_frame, decoded_luma, load_frames, LoadError};
use crate::playback::{delay_of, plan, playback_plan, Action};

verus! {

/// Everything playback needs, worked out before the first frame is shown:
/// the rendered frames in order, and the steps that play them.
pub struct Session {
    pub frames: Vec<String>,
    pub steps: Vec<Action>,
}

/// Loads and renders every frame, then plans their playback at `frame_rate`.
/// Any file that fails to load fails the session, with no frame kept.
pub fn prepare_session(files: &Vec<Vec<u8>>, width: u32, height: u32, frame_rate: u32) -> (r:
    Result<Session, LoadError>)
    requires
        frame_rate > 0,
    ensures
        r is Ok <==> all_cover(files@, width, height),
        r matches Err(e) ==> e == LoadError::Decode,
        r matches Ok(s) ==> s.frames@.len() == files@.len() && (forall|i: int|
            0 <= i < files@.len() ==> #[trigger] s.frames@[i]@ == decoded_frame(
                decoded_luma(files@[i]@),
                width,
                height,
            )) && s.steps@ == plan(files@.len(), delay_of(frame_rate)),
{
    let frames = load_frames(files, width, height)?;
    let steps = playback_plan(frames.len(), frame_rate);
    Ok(Session { frames, steps })
}

} // verus!
