//! Stream configuration: resolution, frame rate, bitrate and codec.

use vstd::prelude::*;

verus! {

/// A display resolution in pixels.
#[derive(Debug, Clone, Copy, PartialEq, Eq, Structural, Hash)]
pub struct Resolution {
    pub width: u32,
    pub height: u32,
}

impl Resolution {
    pub fn new(width: u32, height: u32) -> (r: Resolution)
        ensures
            r.width == width,
            r.height == height,
    {
        Resolution { width, height }
    }

    /// Total pixel count of the resolution.
    pub fn total_pixels(&self) -> (n: u64)
        ensures
            n == self.width * self.height,
    {
        let w = self.width as u64;
        let h = self.height as u64;
        proof {
            assert(w * h <= 0xffff_ffff * 0xffff_ffff) by (nonlinear_arith)
                requires
                    w <= 0xffff_ffff,
                    h <= 0xffff_ffff,
            ;
        }
        w * h
    }
}

/// The video codec tag carried in the hello message.
#[derive(Debug, Clone, Copy, PartialEq, Eq, Structural)]
pub enum VideoCodec {
    H264,
    H265,
}

/// How the sender reaches the receiver.
#[derive(Debug, Clone, Copy, PartialEq, Eq, Structural)]
pub enum ConnectionMode {
    Wifi,
    Usb,
}

/// Per-session video stream configuration, negotiated in `hello` and updated
/// by `config_update`.
#[derive(Debug, Clone, Copy, PartialEq, Eq, Structural)]
pub struct StreamConfig {
    pub resolution: Resolution,
    pub target_fps: u32,
    pub max_bitrate_bps: u64,
    pub codec: VideoCodec,
    pub low_latency_mode: bool,
}

/// The configuration a session starts from when the hello carries none:
/// 1920×1080 at 30 fps, 8 Mb/s, H.264, low latency.
pub open spec fn spec_default_stream_config() -> StreamConfig {
    StreamConfig {
        resolution: Resolution { width: 1920, height: 1080 },
        target_fps: 30,
        max_bitrate_bps: 8_000_000,
        codec: VideoCodec::H264,
        low_latency_mode: true,
    }
}

impl Default for StreamConfig {
    fn default() -> (c: StreamConfig)
        ensures
            c == spec_default_stream_config(),
    {
        StreamConfig {
            resolution: Resolution { width: 1920, height: 1080 },
            target_fps: 30,
            max_bitrate_bps: 8_000_000,
            codec: VideoCodec::H264,
            low_latency_mode: true,
        }
    }
}

impl StreamConfig {
    /// High-performance preset: 2560×1440 at 60 fps, 20 Mb/s.
    pub fn high_performance() -> (c: StreamConfig)
        ensures
            c == (StreamConfig {
                resolution: Resolution { width: 2560, height: 1440 },
                target_fps: 60,
                max_bitrate_bps: 20_000_000,
                codec: VideoCodec::H264,
                low_latency_mode: true,
            }),
    {
        StreamConfig {
            resolution: Resolution { width: 2560, height: 1440 },
            target_fps: 60,
            max_bitrate_bps: 20_000_000,
            codec: VideoCodec::H264,
            low_latency_mode: true,
        }
    }

    /// Interval between frames in microseconds at the target frame rate.
    pub fn frame_interval_us(&self) -> (us: u64)
        requires
            self.target_fps >= 1,
        ensures
            us == 1_000_000 as u64 / self.target_fps as u64,
    {
        1_000_000 / self.target_fps as u64
    }
}

/// Clamp a configured display count to the supported range of one to eight
/// concurrent streams.
pub fn clamp_display_count(n: u8) -> (c: u8)
    ensures
        c == if n < 1 {
            1u8
        } else if n > 8 {
            8u8
        } else {
            n
        },
        1 <= c <= 8,
{
    if n < 1 {
        1
    } else if n > 8 {
        8
    } else {
        n
    }
}

} // verus!
