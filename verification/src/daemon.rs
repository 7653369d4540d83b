use vstd::prelude::*;

use crate::device::{CaptureConfiguration, DeviceSettings};
use crate::plugin::CapsFields;
use crate::pixel_format::{
    spec_debug_name, spec_from_caps, spec_gst_format, spec_media_type,
    spec_pixel_format_error_message, PixelFormat,
};
use crate::text::{
    is_blank, owned, push_decimal, push_signed_decimal, push_str, spec_decimal,
    spec_signed_decimal, spec_trim,
};

verus! {

/// The name of the appsink element that a capture pipeline hands its frames to.
pub const FRAME_SINK_NAME: &'static str = "framesink";

/// The source a device daemon captures from.
#[derive(Clone, Copy, Debug, PartialEq, Eq, Structural)]
pub enum InputKind {
    Synthetic,
    Argus,
    V4l2,
    Pipeline,
}

/// The capture source of a device daemon, with its own settings.
#[derive(Clone, Debug, PartialEq, Eq)]
pub enum ProviderConfig {
    Synthetic,
    Argus { sensor_id: u32 },
    V4l2 { device: String },
    Pipeline { description: String },
}

/// A capture source with its texts as sequences.
pub enum ProviderView {
    Synthetic,
    Argus { sensor_id: u32 },
    V4l2 { device: Seq<char> },
    Pipeline { description: Seq<char> },
}

impl View for ProviderConfig {
    type V = ProviderView;

    open spec fn view(&self) -> ProviderView {
        match self {
            ProviderConfig::Synthetic => ProviderView::Synthetic,
            ProviderConfig::Argus { sensor_id } => ProviderView::Argus { sensor_id: *sensor_id },
            ProviderConfig::V4l2 { device } => ProviderView::V4l2 { device: device@ },
            ProviderConfig::Pipeline { description } => ProviderView::Pipeline {
                description: description@,
            },
        }
    }
}

/// A capture source that runs a GStreamer pipeline.
#[derive(Clone, Debug, PartialEq, Eq)]
pub enum GstreamerProviderConfig {
    Argus { sensor_id: u32 },
    V4l2 { device: String },
    Pipeline { description: String },
}

/// How a device daemon runs: where it listens (an IPv4 address as a number, and a port),
/// the interface and address it advertises, its stream, and its capture source.
#[derive(Clone, Debug, PartialEq, Eq)]
pub struct DeviceDaemonConfig {
    pub bind_ip: u32,
    pub bind_port: u16,
    pub interface_name: Option<String>,
    pub advertise_address: Option<u32>,
    pub stream_name: String,
    pub width: u32,
    pub height: u32,
    pub pixel_format: PixelFormat,
    pub fps: u32,
    pub mtu: u16,
    pub provider: ProviderConfig,
}

impl Default for DeviceDaemonConfig {
    /// Listens on every address at port 5683 and streams 1280x720 UYVY at 30 frames per
    /// second from the synthetic source.
    fn default() -> (r: Self)
        ensures
            r.bind_ip == 0,
            r.bind_port == 5683,
            r.interface_name is None,
            r.advertise_address is None,
            r.stream_name@ == "stream0"@,
            r.width == 1280,
            r.height == 720,
            r.pixel_format == PixelFormat::Uyvy,
            r.fps == 30,
            r.mtu == 1200,
            r.provider@ == ProviderView::Synthetic,
    {
        DeviceDaemonConfig {
            bind_ip: 0,
            bind_port: 5683,
            interface_name: None,
            advertise_address: None,
            stream_name: owned("stream0"),
            width: 1280,
            height: 720,
            pixel_format: PixelFormat::Uyvy,
            fps: 30,
            mtu: 1200,
            provider: ProviderConfig::Synthetic,
        }
    }
}

impl DeviceDaemonConfig {
    /// The device settings the daemon runs with; a daemon always keeps its format fixed.
    pub fn runtime_config(&self) -> (r: DeviceSettings)
        ensures
            r.stream_name@ == self.stream_name@,
            r.width == self.width,
            r.height == self.height,
            r.pixel_format == self.pixel_format,
            r.fps == self.fps,
            r.mtu == self.mtu,
            r.enforce_fixed_format,
    {
        DeviceSettings {
            stream_name: self.stream_name.clone(),
            width: self.width,
            height: self.height,
            pixel_format: self.pixel_format,
            fps: self.fps,
            mtu: self.mtu,
            enforce_fixed_format: true,
        }
    }

    /// The capture format the daemon asks its source for.
    pub fn capture_configuration(&self) -> (r: CaptureConfiguration)
        ensures
            r == (CaptureConfiguration {
                width: self.width,
                height: self.height,
                pixel_format: self.pixel_format,
                fps: self.fps,
            }),
    {
        CaptureConfiguration {
            width: self.width,
            height: self.height,
            pixel_format: self.pixel_format,
            fps: self.fps,
        }
    }
}

/// Whether an option holds more than whitespace.
pub open spec fn spec_given(value: Option<Seq<char>>) -> bool {
    value matches Some(v) && spec_trim(v).len() > 0
}

/// The message for an option that belongs to another capture source.
pub open spec fn spec_unexpected_message(name: Seq<char>) -> Seq<char> {
    "--"@ + name + " is only valid for its matching provider"@
}

/// The message for a missing option.
pub open spec fn spec_required_message(name: Seq<char>) -> Seq<char> {
    "--"@ + name + " is required for the selected provider"@
}

/// The message for an option that holds only whitespace.
pub open spec fn spec_empty_message(name: Seq<char>) -> Seq<char> {
    "--"@ + name + " must not be empty"@
}

/// The view of an optional text.
pub open spec fn opt_view(value: Option<&str>) -> Option<Seq<char>> {
    match value {
        Some(v) => Some(v@),
        None => None,
    }
}

/// The view of an optional owned text.
pub open spec fn opt_string_view(value: Option<String>) -> Option<Seq<char>> {
    match value {
        Some(v) => Some(v@),
        None => None,
    }
}

/// Refuses option `name` when it holds more than whitespace.
pub fn reject_unexpected_option(name: &str, value: Option<&str>) -> (r: Result<(), String>)
    ensures
        spec_given(opt_view(value)) ==> (r matches Err(e) && e@ == spec_unexpected_message(
            name@,
        )),
        !spec_given(opt_view(value)) ==> r is Ok,
{
    if let Some(v) = value {
        if !is_blank(v) {
            return Err(unexpected_option_error(name));
        }
    }
    Ok(())
}

fn unexpected_option_error(name: &str) -> (r: String)
    ensures
        r@ == spec_unexpected_message(name@),
{
    let mut m = owned("--");
    push_str(&mut m, name);
    push_str(&mut m, " is only valid for its matching provider");
    m
}

/// The value of option `name`, which must be given and not blank.
pub fn require_cli_option(name: &str, value: Option<String>) -> (r: Result<String, String>)
    ensures
        match value {
            None => r matches Err(e) && e@ == spec_required_message(name@),
            Some(v) => if spec_trim(v@).len() == 0 {
                r matches Err(e) && e@ == spec_empty_message(name@)
            } else {
                r matches Ok(s) && s@ == v@
            },
        },
{
    match value {
        None => {
            let mut m = owned("--");
            push_str(&mut m, name);
            push_str(&mut m, " is required for the selected provider");
            Err(m)
        },
        Some(v) => {
            if is_blank(v.as_str()) {
                let mut m = owned("--");
                push_str(&mut m, name);
                push_str(&mut m, " must not be empty");
                Err(m)
            } else {
                Ok(v)
            }
        },
    }
}

/// Refuses every source-specific option, for the synthetic source.
pub fn reject_unused_cli_options(
    sensor_id: Option<u32>,
    device: Option<&str>,
    pipeline: Option<&str>,
) -> (r: Result<(), String>)
    ensures
        sensor_id is Some ==> (r matches Err(e) && e@ == spec_unexpected_message("sensor-id"@)),
        sensor_id is None && spec_given(opt_view(device)) ==> (r matches Err(e) && e@
            == spec_unexpected_message("device"@)),
        sensor_id is None && !spec_given(opt_view(device)) && spec_given(opt_view(pipeline)) ==> (
        r matches Err(e) && e@ == spec_unexpected_message("pipeline"@)),
        sensor_id is None && !spec_given(opt_view(device)) && !spec_given(opt_view(pipeline))
            ==> r is Ok,
{
    if sensor_id.is_some() {
        return Err(unexpected_option_error("sensor-id"));
    }
    match reject_unexpected_option("device", device) {
        Ok(()) => {},
        Err(e) => return Err(e),
    }
    reject_unexpected_option("pipeline", pipeline)
}

/// The capture source the command-line options select, or why they do not fit together.
pub open spec fn spec_provider_from_options(
    input: InputKind,
    sensor_id: Option<u32>,
    device: Option<Seq<char>>,
    pipeline: Option<Seq<char>>,
) -> Result<ProviderView, Seq<char>> {
    match input {
        InputKind::Synthetic => if sensor_id is Some {
            Err(spec_unexpected_message("sensor-id"@))
        } else if spec_given(device) {
            Err(spec_unexpected_message("device"@))
        } else if spec_given(pipeline) {
            Err(spec_unexpected_message("pipeline"@))
        } else {
            Ok(ProviderView::Synthetic)
        },
        InputKind::Argus => if spec_given(device) {
            Err(spec_unexpected_message("device"@))
        } else if spec_given(pipeline) {
            Err(spec_unexpected_message("pipeline"@))
        } else {
            Ok(
                ProviderView::Argus {
                    sensor_id: match sensor_id {
                        Some(id) => id,
                        None => 0,
                    },
                },
            )
        },
        InputKind::V4l2 => if sensor_id is Some {
            Err(spec_unexpected_message("sensor-id"@))
        } else if spec_given(pipeline) {
            Err(spec_unexpected_message("pipeline"@))
        } else {
            match device {
                None => Err(spec_required_message("device"@)),
                Some(d) => if spec_trim(d).len() == 0 {
                    Err(spec_empty_message("device"@))
                } else {
                    Ok(ProviderView::V4l2 { device: d })
                },
            }
        },
        InputKind::Pipeline => if sensor_id is Some {
            Err(spec_unexpected_message("sensor-id"@))
        } else if spec_given(device) {
            Err(spec_unexpected_message("device"@))
        } else {
            match pipeline {
                None => Err(spec_required_message("pipeline"@)),
                Some(p) => if spec_trim(p).len() == 0 {
                    Err(spec_empty_message("pipeline"@))
                } else {
                    Ok(ProviderView::Pipeline { description: p })
                },
            }
        },
    }
}

/// Selects the capture source from the command-line options.
pub fn provider_from_options(
    input: InputKind,
    sensor_id: Option<u32>,
    device: Option<String>,
    pipeline: Option<String>,
) -> (r: Result<ProviderConfig, String>)
    ensures
        match spec_provider_from_options(
            input,
            sensor_id,
            opt_string_view(device),
            opt_string_view(pipeline),
        ) {
            Ok(p) => r matches Ok(c) && c@ == p,
            Err(m) => r matches Err(e) && e@ == m,
        },
{
    let device_ref: Option<&str> = match &device {
        Some(d) => Some(d.as_str()),
        None => None,
    };
    let pipeline_ref: Option<&str> = match &pipeline {
        Some(p) => Some(p.as_str()),
        None => None,
    };
    match input {
        InputKind::Synthetic => {
            match reject_unused_cli_options(sensor_id, device_ref, pipeline_ref) {
                Ok(()) => Ok(ProviderConfig::Synthetic),
                Err(e) => Err(e),
            }
        },
        InputKind::Argus => {
            match reject_unexpected_option("device", device_ref) {
                Ok(()) => {},
                Err(e) => return Err(e),
            }
            match reject_unexpected_option("pipeline", pipeline_ref) {
                Ok(()) => {},
                Err(e) => return Err(e),
            }
            let id = match sensor_id {
                Some(id) => id,
                None => 0,
            };
            Ok(ProviderConfig::Argus { sensor_id: id })
        },
        InputKind::V4l2 => {
            if sensor_id.is_some() {
                return Err(unexpected_option_error("sensor-id"));
            }
            match reject_unexpected_option("pipeline", pipeline_ref) {
                Ok(()) => {},
                Err(e) => return Err(e),
            }
            match require_cli_option("device", device) {
                Ok(d) => Ok(ProviderConfig::V4l2 { device: d }),
                Err(e) => Err(e),
            }
        },
        InputKind::Pipeline => {
            if sensor_id.is_some() {
                return Err(unexpected_option_error("sensor-id"));
            }
            match reject_unexpected_option("device", device_ref) {
                Ok(()) => {},
                Err(e) => return Err(e),
            }
            match require_cli_option("pipeline", pipeline) {
                Ok(p) => Ok(ProviderConfig::Pipeline { description: p }),
                Err(e) => Err(e),
            }
        },
    }
}

/// Why a capture source's own settings are refused, if they are.
pub open spec fn spec_provider_problem(provider: ProviderView, pixel_format: PixelFormat) -> Option<
    Seq<char>,
> {
    match provider {
        ProviderView::Synthetic => None,
        ProviderView::Argus { .. } => if pixel_format != PixelFormat::Uyvy {
            Some("argus provider only supports UYVY output"@)
        } else {
            None
        },
        ProviderView::V4l2 { device } => if spec_trim(device).len() == 0 {
            Some("v4l2 provider device path must not be empty"@)
        } else {
            None
        },
        ProviderView::Pipeline { description } => if spec_trim(description).len() == 0 {
            Some("pipeline provider description must not be empty"@)
        } else {
            None
        },
    }
}

/// Checks the capture source's own settings.
pub fn validate_provider_config(config: &DeviceDaemonConfig) -> (r: Result<(), String>)
    ensures
        match spec_provider_problem(config.provider@, config.pixel_format) {
            Some(m) => r matches Err(e) && e@ == m,
            None => r is Ok,
        },
{
    match &config.provider {
        ProviderConfig::Synthetic => Ok(()),
        ProviderConfig::Argus { .. } => {
            if config.pixel_format != PixelFormat::Uyvy {
                Err(owned("argus provider only supports UYVY output"))
            } else {
                Ok(())
            }
        },
        ProviderConfig::V4l2 { device } => {
            if is_blank(device.as_str()) {
                Err(owned("v4l2 provider device path must not be empty"))
            } else {
                Ok(())
            }
        },
        ProviderConfig::Pipeline { description } => {
            if is_blank(description.as_str()) {
                Err(owned("pipeline provider description must not be empty"))
            } else {
                Ok(())
            }
        },
    }
}

/// Why a daemon configuration is refused, if it is: a zero dimension, a zero rate, an odd
/// UYVY width, or a problem of the capture source.
pub open spec fn spec_daemon_config_problem(
    width: u32,
    height: u32,
    fps: u32,
    pixel_format: PixelFormat,
    provider: ProviderView,
) -> Option<Seq<char>> {
    if width == 0 || height == 0 {
        Some("frame size must be non-zero"@)
    } else if fps == 0 {
        Some("fps must be greater than zero"@)
    } else if pixel_format == PixelFormat::Uyvy && width % 2 != 0 {
        Some("UYVY device width must be even"@)
    } else {
        spec_provider_problem(provider, pixel_format)
    }
}

/// Checks a daemon configuration before the daemon starts.
pub fn validate_config(config: &DeviceDaemonConfig) -> (r: Result<(), String>)
    ensures
        match spec_daemon_config_problem(
            config.width,
            config.height,
            config.fps,
            config.pixel_format,
            config.provider@,
        ) {
            Some(m) => r matches Err(e) && e@ == m,
            None => r is Ok,
        },
{
    if config.width == 0 || config.height == 0 {
        return Err(owned("frame size must be non-zero"));
    }
    if config.fps == 0 {
        return Err(owned("fps must be greater than zero"));
    }
    if config.pixel_format == PixelFormat::Uyvy && config.width % 2 != 0 {
        return Err(owned("UYVY device width must be even"));
    }
    validate_provider_config(config)
}

/// The decimal text of `n`.
fn decimal(n: u32) -> (r: String)
    ensures
        r@ == spec_decimal(n as nat),
{
    let mut s = String::new();
    push_decimal(&mut s, n as u64);
    s
}

/// The pipeline that captures from an Argus camera sensor and converts to UYVY.
pub open spec fn spec_argus_description(sensor_id: u32, c: CaptureConfiguration) -> Seq<char> {
    "nvarguscamerasrc sensor-id="@ + spec_decimal(sensor_id as nat)
        + " ! video/x-raw(memory:NVMM),width="@ + spec_decimal(c.width as nat) + ",height="@
        + spec_decimal(c.height as nat) + ",framerate="@ + spec_decimal(c.fps as nat)
        + "/1 ! nvvidconv ! video/x-raw,format=UYVY,width="@ + spec_decimal(c.width as nat)
        + ",height="@ + spec_decimal(c.height as nat) + " ! appsink name="@ + FRAME_SINK_NAME@
        + " sync=false max-buffers=1 drop=true"@
}

/// The pipeline that captures from an Argus camera sensor.
pub fn build_argus_pipeline_description(sensor_id: u32, config: &CaptureConfiguration) -> (r:
    String)
    ensures
        r@ == spec_argus_description(sensor_id, *config),
{
    let mut s = owned("nvarguscamerasrc sensor-id=");
    push_decimal(&mut s, sensor_id as u64);
    push_str(&mut s, " ! video/x-raw(memory:NVMM),width=");
    push_decimal(&mut s, config.width as u64);
    push_str(&mut s, ",height=");
    push_decimal(&mut s, config.height as u64);
    push_str(&mut s, ",framerate=");
    push_decimal(&mut s, config.fps as u64);
    push_str(&mut s, "/1 ! nvvidconv ! video/x-raw,format=UYVY,width=");
    push_decimal(&mut s, config.width as u64);
    push_str(&mut s, ",height=");
    push_decimal(&mut s, config.height as u64);
    push_str(&mut s, " ! appsink name=");
    push_str(&mut s, FRAME_SINK_NAME);
    push_str(&mut s, " sync=false max-buffers=1 drop=true");
    s
}

/// The pipeline that captures from a V4L2 device in the configured caps.
pub open spec fn spec_v4l2_description(device: Seq<char>, c: CaptureConfiguration) -> Seq<char> {
    "v4l2src device="@ + device + " ! "@ + spec_media_type(c.pixel_format) + ",format="@
        + spec_gst_format(c.pixel_format) + ",width="@ + spec_decimal(c.width as nat)
        + ",height="@ + spec_decimal(c.height as nat) + ",framerate="@ + spec_decimal(
        c.fps as nat,
    ) + "/1 ! appsink name="@ + FRAME_SINK_NAME@ + " sync=false max-buffers=1 drop=true"@
}

/// The pipeline that captures from a V4L2 device.
pub fn build_v4l2_pipeline_description(device: &str, config: &CaptureConfiguration) -> (r: String)
    ensures
        r@ == spec_v4l2_description(device@, *config),
{
    let mut s = owned("v4l2src device=");
    push_str(&mut s, device);
    push_str(&mut s, " ! ");
    push_str(&mut s, config.pixel_format.media_type());
    push_str(&mut s, ",format=");
    push_str(&mut s, config.pixel_format.gst_format());
    push_str(&mut s, ",width=");
    push_decimal(&mut s, config.width as u64);
    push_str(&mut s, ",height=");
    push_decimal(&mut s, config.height as u64);
    push_str(&mut s, ",framerate=");
    push_decimal(&mut s, config.fps as u64);
    push_str(&mut s, "/1 ! appsink name=");
    push_str(&mut s, FRAME_SINK_NAME);
    push_str(&mut s, " sync=false max-buffers=1 drop=true");
    s
}

/// The pipeline a GStreamer source runs for a capture format.
pub fn build_pipeline_description(
    provider: &GstreamerProviderConfig,
    config: &CaptureConfiguration,
) -> (r: String)
    ensures
        match provider {
            GstreamerProviderConfig::Argus { sensor_id } => r@ == spec_argus_description(
                *sensor_id,
                *config,
            ),
            GstreamerProviderConfig::V4l2 { device } => r@ == spec_v4l2_description(
                device@,
                *config,
            ),
            GstreamerProviderConfig::Pipeline { description } => r@ == description@,
        },
{
    match provider {
        GstreamerProviderConfig::Argus { sensor_id } => build_argus_pipeline_description(
            *sensor_id,
            config,
        ),
        GstreamerProviderConfig::V4l2 { device } => build_v4l2_pipeline_description(
            device.as_str(),
            config,
        ),
        GstreamerProviderConfig::Pipeline { description } => description.clone(),
    }
}

/// The short name of a GStreamer source, used in its messages.
pub open spec fn spec_provider_name(provider: GstreamerProviderConfig) -> Seq<char> {
    match provider {
        GstreamerProviderConfig::Argus { .. } => "argus"@,
        GstreamerProviderConfig::V4l2 { .. } => "v4l2"@,
        GstreamerProviderConfig::Pipeline { .. } => "pipeline"@,
    }
}

/// The short name of a GStreamer source.
pub fn provider_name(provider: &GstreamerProviderConfig) -> (r: &'static str)
    ensures
        r@ == spec_provider_name(*provider),
{
    match provider {
        GstreamerProviderConfig::Argus { .. } => "argus",
        GstreamerProviderConfig::V4l2 { .. } => "v4l2",
        GstreamerProviderConfig::Pipeline { .. } => "pipeline",
    }
}

/// Why a GStreamer source refuses a capture format, if it does: an odd UYVY width, or a
/// format other than UYVY from an Argus sensor.
pub open spec fn spec_capture_config_problem(
    provider: GstreamerProviderConfig,
    config: CaptureConfiguration,
) -> Option<Seq<char>> {
    if config.pixel_format == PixelFormat::Uyvy && config.width % 2 != 0 {
        Some("UYVY output width must be even"@)
    } else if provider is Argus && config.pixel_format != PixelFormat::Uyvy {
        Some("argus provider only supports UYVY output"@)
    } else {
        None
    }
}

/// Checks a capture format against what a GStreamer source can produce.
pub fn validate_provider_capture_config(
    provider: &GstreamerProviderConfig,
    config: &CaptureConfiguration,
) -> (r: Result<(), String>)
    ensures
        match spec_capture_config_problem(*provider, *config) {
            Some(m) => r matches Err(e) && e@ == m,
            None => r is Ok,
        },
{
    if config.pixel_format == PixelFormat::Uyvy && config.width % 2 != 0 {
        return Err(owned("UYVY output width must be even"));
    }
    let is_argus = match provider {
        GstreamerProviderConfig::Argus { .. } => true,
        _ => false,
    };
    if is_argus && config.pixel_format != PixelFormat::Uyvy {
        return Err(owned("argus provider only supports UYVY output"));
    }
    Ok(())
}

/// The capture format that negotiated caps describe, or why they do not describe one.
pub open spec fn spec_capture_format_from_caps(caps: Option<CapsFields>, fps: u32) -> Result<
    CaptureConfiguration,
    Seq<char>,
> {
    match caps {
        None => Err("caps did not include a structure"@),
        Some(c) => match c.format {
            None => Err("caps did not expose a format field"@),
            Some(format) => match c.width {
                None => Err("caps did not expose a width field"@),
                Some(width) => match c.height {
                    None => Err("caps did not expose a height field"@),
                    Some(height) => if width <= 0 || height <= 0 {
                        Err(
                            "caps exposed invalid dimensions "@ + spec_signed_decimal(width as int)
                                + "x"@ + spec_signed_decimal(height as int),
                        )
                    } else {
                        match spec_from_caps(c.media_type@, format@) {
                            Some(f) => Ok(
                                CaptureConfiguration {
                                    width: width as u32,
                                    height: height as u32,
                                    pixel_format: f,
                                    fps,
                                },
                            ),
                            None => Err(
                                spec_pixel_format_error_message(
                                    crate::pixel_format::PixelFormatError::UnsupportedCaps {
                                        media_type: c.media_type,
                                        format,
                                    },
                                ),
                            ),
                        }
                    },
                },
            },
        },
    }
}

/// Reads the capture format from negotiated caps, at the requested rate.
pub fn capture_format_from_caps(caps: Option<&CapsFields>, fps: u32) -> (r: Result<
    CaptureConfiguration,
    String,
>)
    ensures
        match spec_capture_format_from_caps(
            match caps {
                Some(c) => Some(*c),
                None => None,
            },
            fps,
        ) {
            Ok(c) => r == Ok::<CaptureConfiguration, String>(c),
            Err(m) => r matches Err(e) && e@ == m,
        },
{
    let c = match caps {
        Some(c) => c,
        None => return Err(owned("caps did not include a structure")),
    };
    let format = match &c.format {
        Some(f) => f,
        None => return Err(owned("caps did not expose a format field")),
    };
    let width = match c.width {
        Some(w) => w,
        None => return Err(owned("caps did not expose a width field")),
    };
    let height = match c.height {
        Some(h) => h,
        None => return Err(owned("caps did not expose a height field")),
    };
    if width <= 0 || height <= 0 {
        let mut m = owned("caps exposed invalid dimensions ");
        push_signed_decimal(&mut m, width);
        push_str(&mut m, "x");
        push_signed_decimal(&mut m, height);
        return Err(m);
    }
    match PixelFormat::from_caps(c.media_type.as_str(), format.as_str()) {
        Ok(f) => Ok(
            CaptureConfiguration { width: width as u32, height: height as u32, pixel_format: f, fps },
        ),
        Err(e) => Err(e.message()),
    }
}

/// The message for a source that negotiated another format than the one requested.
pub open spec fn spec_format_mismatch_message(
    provider_name: Seq<char>,
    requested: CaptureConfiguration,
    actual: CaptureConfiguration,
) -> Seq<char> {
    provider_name + " provider negotiated "@ + spec_decimal(actual.width as nat) + "x"@
        + spec_decimal(actual.height as nat) + " "@ + spec_debug_name(actual.pixel_format)
        + ", expected "@ + spec_decimal(requested.width as nat) + "x"@ + spec_decimal(
        requested.height as nat,
    ) + " "@ + spec_debug_name(requested.pixel_format)
}

/// Checks that a source produces the size and pixel format that were requested.
pub fn validate_expected_format(
    provider_name: &str,
    requested: &CaptureConfiguration,
    actual: &CaptureConfiguration,
) -> (r: Result<(), String>)
    ensures
        (requested.width == actual.width && requested.height == actual.height
            && requested.pixel_format == actual.pixel_format) ==> r is Ok,
        !(requested.width == actual.width && requested.height == actual.height
            && requested.pixel_format == actual.pixel_format) ==> (r matches Err(e) && e@
            == spec_format_mismatch_message(provider_name@, *requested, *actual)),
{
    if requested.width != actual.width || requested.height != actual.height
        || requested.pixel_format != actual.pixel_format {
        let mut m = owned(provider_name);
        push_str(&mut m, " provider negotiated ");
        push_decimal(&mut m, actual.width as u64);
        push_str(&mut m, "x");
        push_decimal(&mut m, actual.height as u64);
        push_str(&mut m, " ");
        push_str(&mut m, actual.pixel_format.debug_name());
        push_str(&mut m, ", expected ");
        push_decimal(&mut m, requested.width as u64);
        push_str(&mut m, "x");
        push_decimal(&mut m, requested.height as u64);
        push_str(&mut m, " ");
        push_str(&mut m, requested.pixel_format.debug_name());
        return Err(m);
    }
    Ok(())
}

/// Checks that a captured buffer holds exactly one packed frame of the format.
pub fn validate_packed_buffer_len(format: &CaptureConfiguration, actual_len: usize) -> (r: Result<
    (),
    String,
>)
    requires
        format.width * format.height * 3 <= usize::MAX,
    ensures
        match crate::pixel_format::spec_payload_len(format.pixel_format, format.width, format.height) {
            None => r matches Err(e) && e@ == "invalid packed frame dimensions"@,
            Some(n) => if actual_len == n {
                r is Ok
            } else {
                r matches Err(e) && e@ == "payload length mismatch: expected "@ + spec_decimal(n)
                    + ", got "@ + spec_decimal(actual_len as nat)
            },
        },
{
    let ghost bpp = crate::pixel_format::spec_bytes_per_pixel(format.pixel_format);
    assert(format.width * format.height * bpp <= format.width * format.height * 3)
        by (nonlinear_arith)
        requires
            bpp <= 3,
    ;
    let expected_len = match format.pixel_format.payload_len(format.width, format.height) {
        Ok(n) => n,
        Err(_) => return Err(owned("invalid packed frame dimensions")),
    };
    if actual_len != expected_len {
        let mut m = owned("payload length mismatch: expected ");
        push_decimal(&mut m, expected_len as u64);
        push_str(&mut m, ", got ");
        push_decimal(&mut m, actual_len as u64);
        return Err(m);
    }
    Ok(())
}

} // verus!
