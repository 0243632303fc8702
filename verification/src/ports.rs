//! Port arithmetic: each display stream owns one UDP/TCP port pair.
//!
//! Display `k` receives video on UDP `7878 + 2k` and signaling on TCP
//! `7879 + 2k`.

use vstd::prelude::*;

verus! {

/// UDP video port of display 0.
pub const VIDEO_PORT: u16 = 7878;

/// TCP signaling port of display 0.
pub const SIGNALING_PORT: u16 = 7879;

/// UDP video port for a given display index: 7878, 7880, 7882, …
pub fn video_port(display_index: u8) -> (port: u16)
    ensures
        port == VIDEO_PORT + 2 * display_index,
{
    VIDEO_PORT + (display_index as u16) * 2
}

/// TCP signaling port for a given display index: 7879, 7881, 7883, …
pub fn signaling_port(display_index: u8) -> (port: u16)
    ensures
        port == SIGNALING_PORT + 2 * display_index,
{
    SIGNALING_PORT + (display_index as u16) * 2
}

} // verus!
