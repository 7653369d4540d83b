use vstd::prelude::*;

use crate::compat_stream::{PayloadType, VideoFrame};
use crate::device::{
    generate_pattern_data, pattern_fits, pattern_rows, CaptureConfiguration, StreamSettings,
};
use crate::pixel_format::{spec_bytes_per_pixel, PixelFormat};
use crate::text::owned;

verus! {

/// How the synthetic capture source is set up: the format it transmits in, where it
/// overrides the requested one.
#[derive(Clone, Copy, Debug, PartialEq, Eq)]
pub struct SyntheticCaptureConfig {
    pub transmit_pixel_format: Option<PixelFormat>,
}

impl Default for SyntheticCaptureConfig {
    fn default() -> (r: Self)
        ensures
            r.transmit_pixel_format is None,
    {
        SyntheticCaptureConfig { transmit_pixel_format: None }
    }
}

/// A running synthetic capture. Times are nanoseconds on a monotonic clock.
#[derive(Clone, Copy, Debug)]
pub struct SyntheticCaptureState {
    pub started_at_ns: u64,
    pub last_frame_at_ns: Option<u64>,
    pub next_frame_id: u32,
    pub requested: CaptureConfiguration,
    pub transmit_pixel_format: PixelFormat,
}

/// The format a capture transmits in.
pub open spec fn spec_transmit_format(
    config: SyntheticCaptureConfig,
    requested: CaptureConfiguration,
) -> PixelFormat {
    match config.transmit_pixel_format {
        Some(f) => f,
        None => requested.pixel_format,
    }
}

/// Why a capture cannot start, if it cannot: a zero dimension, or an odd UYVY width.
pub open spec fn spec_start_problem(
    config: SyntheticCaptureConfig,
    requested: CaptureConfiguration,
) -> Option<Seq<char>> {
    if requested.width == 0 || requested.height == 0 {
        Some("invalid synthetic capture dimensions"@)
    } else if spec_transmit_format(config, requested) == PixelFormat::Uyvy && requested.width % 2
        != 0 {
        Some("UYVY synthetic capture width must be even"@)
    } else {
        None
    }
}

/// What holds of every running capture.
pub open spec fn capture_state_ok(s: SyntheticCaptureState) -> bool {
    &&& s.requested.width > 0
    &&& s.requested.height > 0
    &&& s.requested.width * s.requested.height * 3 <= usize::MAX
    &&& s.next_frame_id >= 1
}

/// The frame number after `id`: it wraps, and skips zero.
pub open spec fn spec_next_frame_id(id: u32) -> u32 {
    if id == u32::MAX {
        1
    } else {
        (id + 1) as u32
    }
}

/// Nanoseconds from `start` to `now`, or zero if `now` is earlier.
pub open spec fn spec_elapsed(start: u64, now: u64) -> u64 {
    if now >= start {
        (now - start) as u64
    } else {
        0
    }
}

/// The nanoseconds between frames at `fps` frames per second.
pub open spec fn spec_frame_interval(fps: u32) -> u64
    recommends
        fps > 0,
{
    (1_000_000_000u64 / (fps as u64)) as u64
}

/// How long to wait before the next frame so that frames keep to the requested rate.
pub open spec fn spec_frame_delay(state: Option<SyntheticCaptureState>, now: u64) -> u64 {
    match state {
        Some(s) => match s.last_frame_at_ns {
            Some(t) => {
                let interval = spec_frame_interval(s.requested.fps);
                let elapsed = spec_elapsed(t, now);
                if elapsed < interval {
                    (interval - elapsed) as u64
                } else {
                    0
                }
            },
            None => 0,
        },
        None => 0,
    }
}

/// A capture source that produces a moving test pattern.
#[derive(Debug)]
pub struct SyntheticCaptureBackend {
    config: SyntheticCaptureConfig,
    state: Option<SyntheticCaptureState>,
}

/// A capture source as the configuration it was made with and its running state, if started.
pub struct CaptureSourceView {
    pub config: SyntheticCaptureConfig,
    pub state: Option<SyntheticCaptureState>,
}

impl View for SyntheticCaptureBackend {
    type V = CaptureSourceView;

    closed spec fn view(&self) -> CaptureSourceView {
        CaptureSourceView { config: self.config, state: self.state }
    }
}

impl SyntheticCaptureBackend {
    #[verifier::type_invariant]
    spec fn running_state_ok(self) -> bool {
        match self.state {
            Some(s) => capture_state_ok(s),
            None => true,
        }
    }

    /// A stopped source.
    pub fn new(config: SyntheticCaptureConfig) -> (r: Self)
        ensures
            r@.state is None,
            r@.config == config,
    {
        SyntheticCaptureBackend { config, state: None }
    }

    /// Starts capturing `config` at time `now_ns`; the frame numbers start at one. A capture
    /// that cannot start leaves the source as it was.
    pub fn start_capture(&mut self, config: CaptureConfiguration, now_ns: u64) -> (r: Result<
        (),
        String,
    >)
        requires
            config.width * config.height * 3 <= usize::MAX,
        ensures
            final(self)@.config == old(self)@.config,
            match spec_start_problem(old(self)@.config, config) {
                Some(m) => r matches Err(e) && e@ == m && final(self)@.state == old(self)@.state,
                None => r is Ok && final(self)@.state == Some(
                    SyntheticCaptureState {
                        started_at_ns: now_ns,
                        last_frame_at_ns: None,
                        next_frame_id: 1,
                        requested: config,
                        transmit_pixel_format: spec_transmit_format(
                            old(self)@.config,
                            config,
                        ),
                    },
                ),
            },
    {
        let transmit_pixel_format = match self.config.transmit_pixel_format {
            Some(f) => f,
            None => config.pixel_format,
        };
        if config.width == 0 || config.height == 0 {
            return Err(owned("invalid synthetic capture dimensions"));
        }
        if transmit_pixel_format == PixelFormat::Uyvy && config.width % 2 != 0 {
            return Err(owned("UYVY synthetic capture width must be even"));
        }
        self.state = Some(
            SyntheticCaptureState {
                started_at_ns: now_ns,
                last_frame_at_ns: None,
                next_frame_id: 1,
                requested: config,
                transmit_pixel_format,
            },
        );
        Ok(())
    }

    /// Stops capturing.
    pub fn stop_capture(&mut self) -> (r: Result<(), String>)
        ensures
            r is Ok,
            final(self)@.state is None,
            final(self)@.config == old(self)@.config,
    {
        self.state = None;
        Ok(())
    }

    /// How many nanoseconds to wait at `now_ns` before taking the next frame.
    pub fn frame_delay_nanos(&self, now_ns: u64) -> (r: u64)
        requires
            self@.state matches Some(s) ==> s.requested.fps > 0,
        ensures
            r == spec_frame_delay(self@.state, now_ns),
    {
        match &self.state {
            Some(s) => match s.last_frame_at_ns {
                Some(t) => {
                    let interval = 1_000_000_000u64 / (s.requested.fps as u64);
                    let elapsed = if now_ns >= t {
                        now_ns - t
                    } else {
                        0
                    };
                    if elapsed < interval {
                        interval - elapsed
                    } else {
                        0
                    }
                },
                None => 0,
            },
            None => 0,
        }
    }

    /// Takes the next test-pattern frame at time `now_ns`; an error when the source is
    /// stopped.
    pub fn next_frame(&mut self, now_ns: u64) -> (r: Result<VideoFrame, String>)
        requires
            old(self)@.state matches Some(s) ==> pattern_fits(
                s.transmit_pixel_format,
                s.requested.width,
                s.requested.height,
                s.next_frame_id,
            ),
        ensures
            final(self)@.config == old(self)@.config,
            match old(self)@.state {
                None => r matches Err(e) && e@ == "synthetic capture is not running"@
                    && final(self)@.state is None,
                Some(s) => {
                    &&& r matches Ok(frame) && {
                        &&& frame.frame_id == s.next_frame_id
                        &&& frame.timestamp == spec_elapsed(s.started_at_ns, now_ns)
                        &&& frame.width == s.requested.width
                        &&& frame.height == s.requested.height
                        &&& frame.pixel_format == s.transmit_pixel_format
                        &&& frame.payload_type == PayloadType::Image
                        &&& frame.data@ == pattern_rows(
                            s.transmit_pixel_format,
                            s.next_frame_id,
                            s.requested.width,
                            s.requested.height,
                            s.requested.height as nat,
                        )
                    }
                    &&& final(self)@.state == Some(
                        SyntheticCaptureState {
                            started_at_ns: s.started_at_ns,
                            last_frame_at_ns: Some(now_ns),
                            next_frame_id: spec_next_frame_id(s.next_frame_id),
                            requested: s.requested,
                            transmit_pixel_format: s.transmit_pixel_format,
                        },
                    )
                },
            },
    {
        proof {
            use_type_invariant(&*self);
        }
        let s = match self.state {
            Some(s) => s,
            None => return Err(owned("synthetic capture is not running")),
        };
        let frame_id = s.next_frame_id;
        let next_frame_id = if frame_id == u32::MAX {
            1
        } else {
            frame_id + 1
        };
        let width = s.requested.width;
        let height = s.requested.height;
        let pixel_format = s.transmit_pixel_format;
        assert(width * height * spec_bytes_per_pixel(pixel_format) <= width * height * 3)
            by (nonlinear_arith)
            requires
                spec_bytes_per_pixel(pixel_format) <= 3,
        ;
        let data = match generate_pattern_data(frame_id, width, height, pixel_format) {
            Ok(d) => d,
            Err(e) => return Err(e),
        };
        let timestamp = if now_ns >= s.started_at_ns {
            now_ns - s.started_at_ns
        } else {
            0
        };
        self.state = Some(
            SyntheticCaptureState {
                started_at_ns: s.started_at_ns,
                last_frame_at_ns: Some(now_ns),
                next_frame_id,
                requested: s.requested,
                transmit_pixel_format: pixel_format,
            },
        );
        Ok(
            VideoFrame {
                frame_id,
                timestamp,
                width,
                height,
                pixel_format,
                payload_type: PayloadType::Image,
                data,
            },
        )
    }

    /// The number the next frame will carry, while capturing.
    pub fn next_frame_id(&self) -> (r: Option<u32>)
        ensures
            r == match self@.state {
                Some(s) => Some(s.next_frame_id),
                None => None::<u32>,
            },
    {
        match &self.state {
            Some(s) => Some(s.next_frame_id),
            None => None,
        }
    }

    /// The format being captured, as transmitted.
    pub fn current_format(&self) -> (r: Option<CaptureConfiguration>)
        ensures
            r == match self@.state {
                None => None,
                Some(s) => Some(
                    CaptureConfiguration {
                        width: s.requested.width,
                        height: s.requested.height,
                        pixel_format: s.transmit_pixel_format,
                        fps: s.requested.fps,
                    },
                ),
            },
    {
        match &self.state {
            Some(s) => Some(
                CaptureConfiguration {
                    width: s.requested.width,
                    height: s.requested.height,
                    pixel_format: s.transmit_pixel_format,
                    fps: s.requested.fps,
                },
            ),
            None => None,
        }
    }
}

/// What the stream sender does in one turn: stop the capture, start one, make a packetizer
/// for a new MTU, and take and send a frame.
#[derive(Clone, Copy, Debug, PartialEq, Eq)]
pub struct SenderPlan {
    pub stop_capture: bool,
    pub start_capture: Option<CaptureConfiguration>,
    pub new_mtu: Option<usize>,
    pub send_frame: bool,
}

/// A turn of the sender: with no destination port it stops any capture and sends nothing;
/// otherwise it restarts the capture where the format changed, makes a packetizer where the
/// MTU changed, and sends a frame.
pub open spec fn spec_sender_plan(
    active_capture: Option<CaptureConfiguration>,
    active_mtu: Option<usize>,
    s: StreamSettings,
) -> SenderPlan {
    if s.destination_port == 0 {
        SenderPlan {
            stop_capture: active_capture is Some,
            start_capture: None,
            new_mtu: None,
            send_frame: false,
        }
    } else {
        let restart = active_capture != Some(s.capture);
        SenderPlan {
            stop_capture: restart && active_capture is Some,
            start_capture: if restart {
                Some(s.capture)
            } else {
                None
            },
            new_mtu: if active_mtu != Some(s.mtu) {
                Some(s.mtu)
            } else {
                None
            },
            send_frame: true,
        }
    }
}

/// Decides the sender's next turn from what runs now and what the registers ask for.
pub fn plan_sender_step(
    active_capture: Option<CaptureConfiguration>,
    active_mtu: Option<usize>,
    settings: &StreamSettings,
) -> (r: SenderPlan)
    ensures
        r == spec_sender_plan(active_capture, active_mtu, *settings),
{
    if settings.destination_port == 0 {
        return SenderPlan {
            stop_capture: active_capture.is_some(),
            start_capture: None,
            new_mtu: None,
            send_frame: false,
        };
    }
    let same_capture = match active_capture {
        Some(c) => c == settings.capture,
        None => false,
    };
    let same_mtu = match active_mtu {
        Some(m) => m == settings.mtu,
        None => false,
    };
    SenderPlan {
        stop_capture: !same_capture && active_capture.is_some(),
        start_capture: if same_capture {
            None
        } else {
            Some(settings.capture)
        },
        new_mtu: if same_mtu {
            None
        } else {
            Some(settings.mtu)
        },
        send_frame: true,
    }
}

} // verus!
