use std::sync::Arc;
use vstd::prelude::*;

use crate::control::{
    AppliedStreamConfiguration, AppliedView, ControlCapabilities, ControlError, ControlErrorKind,
    ControlTarget, DiscoveredDevice, RequestView, RequestedStreamConfiguration, RunningStream,
};
use crate::text::{owned, push_str, str_eq};

verus! {

/// An open control channel to one device. Implementations decide what each call does.
pub trait ControlConnection: Send + 'static {
    fn describe(&self) -> Result<ControlCapabilities, ControlError>;

    fn configure(&mut self, request: RequestedStreamConfiguration) -> Result<
        AppliedStreamConfiguration,
        ControlError,
    >;

    fn start(&mut self, stream_id: &str) -> Result<RunningStream, ControlError>;

    fn stop(&mut self, stream_id: &str) -> Result<(), ControlError>;

    fn disconnect(&mut self) -> Result<(), ControlError>;
}

/// A way of finding and connecting to devices. Implementations decide what each call does.
pub trait ControlBackend: Send + Sync + 'static {
    type Connection: ControlConnection;

    /// The devices the backend finds for a target; none by default.
    fn discover(&self, target: &ControlTarget) -> (r: Result<Vec<DiscoveredDevice>, ControlError>)
        default_ensures
            r matches Ok(devices) && devices@.len() == 0,
    {
        Ok(Vec::new())
    }

    fn connect(&self, target: &ControlTarget) -> Result<Self::Connection, ControlError>;
}

/// A running stream with its id as characters.
pub struct RunningView {
    pub stream_id: Seq<char>,
    pub profile: crate::compat_profile::StreamProfileId,
    pub running: bool,
}

impl View for RunningStream {
    type V = RunningView;

    open spec fn view(&self) -> RunningView {
        RunningView { stream_id: self.stream_id@, profile: self.profile, running: self.running }
    }
}

/// An optional applied configuration, viewed.
pub open spec fn applied_view(a: Option<AppliedStreamConfiguration>) -> Option<AppliedView> {
    match a {
        Some(x) => Some(x@),
        None => None,
    }
}

/// An optional running stream, viewed.
pub open spec fn running_view(r: Option<RunningStream>) -> Option<RunningView> {
    match r {
        Some(x) => Some(x@),
        None => None,
    }
}

/// Whether two requested configurations are the same.
pub fn requests_equal(a: &RequestedStreamConfiguration, b: &RequestedStreamConfiguration) -> (r:
    bool)
    ensures
        r == (a@ == b@),
{
    let formats_equal = match (a.format, b.format) {
        (Some(x), Some(y)) => x == y,
        (None, None) => true,
        _ => false,
    };
    str_eq(a.stream_name.as_str(), b.stream_name.as_str()) && a.profile == b.profile && str_eq(
        a.destination_host.as_str(),
        b.destination_host.as_str(),
    ) && a.port == b.port && str_eq(a.bind_address.as_str(), b.bind_address.as_str())
        && a.packet_delay_ns == b.packet_delay_ns && a.max_packet_size == b.max_packet_size
        && formats_equal
}

fn copy_applied(a: &AppliedStreamConfiguration) -> (r: AppliedStreamConfiguration)
    ensures
        r@ == a@,
{
    AppliedStreamConfiguration {
        stream_id: owned(a.stream_id.as_str()),
        stream_name: owned(a.stream_name.as_str()),
        profile: a.profile,
        destination_host: owned(a.destination_host.as_str()),
        port: a.port,
        bind_address: owned(a.bind_address.as_str()),
        packet_delay_ns: a.packet_delay_ns,
        max_packet_size: a.max_packet_size,
        format: a.format,
        normalized: a.normalized,
    }
}

fn copy_request(a: &RequestedStreamConfiguration) -> (r: RequestedStreamConfiguration)
    ensures
        r@ == a@,
{
    RequestedStreamConfiguration {
        stream_name: owned(a.stream_name.as_str()),
        profile: a.profile,
        destination_host: owned(a.destination_host.as_str()),
        port: a.port,
        bind_address: owned(a.bind_address.as_str()),
        packet_delay_ns: a.packet_delay_ns,
        max_packet_size: a.max_packet_size,
        format: a.format,
    }
}

fn copy_running(a: &RunningStream) -> (r: RunningStream)
    ensures
        r@ == a@,
{
    RunningStream { stream_id: owned(a.stream_id.as_str()), profile: a.profile, running: a.running }
}

/// What a connection's `describe` may give.
pub open spec fn describe_gives<C: ControlConnection>(
    c: C,
    r: Result<ControlCapabilities, ControlError>,
) -> bool {
    call_ensures(C::describe, (&c,), r)
}

/// One request a session makes: a connect to its target, or a call on its connection together
/// with what the call was handed.
pub enum SessionCall {
    Connect(ControlTarget),
    Describe,
    Configure(RequestView),
    Start(Seq<char>),
    Stop(Seq<char>),
    Disconnect,
}

/// A host's control session with one device: it connects on first need, keeps one connection,
/// and remembers what it configured and started so that repeated requests are answered
/// without the device. It takes a stream as running only while a configuration is applied.
pub struct ControlSession<B: ControlBackend> {
    backend: Arc<B>,
    target: ControlTarget,
    requested: RequestedStreamConfiguration,
    connection: Option<B::Connection>,
    capabilities: Option<ControlCapabilities>,
    stream: StreamState,
    calls: Ghost<Seq<SessionCall>>,
}

/// What a session has configured and started: a stream runs only with a configuration applied.
struct StreamState {
    applied: Option<AppliedStreamConfiguration>,
    running: Option<RunningStream>,
}

impl StreamState {
    #[verifier::type_invariant]
    spec fn running_has_applied(&self) -> bool {
        self.running is Some ==> self.applied is Some
    }
}

impl<B: ControlBackend> ControlSession<B> {
    /// Whether the session holds a connection.
    pub closed spec fn spec_connected(&self) -> bool {
        self.connection is Some
    }

    /// The connection the session holds, if any.
    pub closed spec fn spec_connection(&self) -> Option<B::Connection> {
        self.connection
    }

    /// Every request the session has made of its backend and connections, in order.
    pub closed spec fn spec_calls(&self) -> Seq<SessionCall> {
        self.calls@
    }

    /// The backend the session uses.
    pub closed spec fn spec_backend(&self) -> B {
        *self.backend
    }

    pub closed spec fn spec_target(&self) -> ControlTarget {
        self.target
    }

    pub closed spec fn spec_requested(&self) -> RequestView {
        self.requested@
    }

    pub closed spec fn spec_capabilities(&self) -> Option<ControlCapabilities> {
        self.capabilities
    }

    pub closed spec fn spec_applied(&self) -> Option<AppliedView> {
        applied_view(self.stream.applied)
    }

    pub closed spec fn spec_running(&self) -> Option<RunningView> {
        running_view(self.stream.running)
    }

    /// A stream is taken as running only while a configuration is applied.
    pub open spec fn spec_consistent(&self) -> bool {
        self.spec_running() is Some ==> self.spec_applied() is Some
    }

    /// The requests made once a connection is assured: a connect to the target where the
    /// session held none.
    pub open spec fn calls_after_connect(&self) -> Seq<SessionCall> {
        if self.spec_connected() {
            self.spec_calls()
        } else {
            self.spec_calls().push(SessionCall::Connect(self.spec_target()))
        }
    }

    /// What the backend's connect may give for the session's target.
    pub open spec fn connect_gives(&self, r: Result<B::Connection, ControlError>) -> bool {
        call_ensures(B::connect, (&self.spec_backend(), &self.spec_target()), r)
    }

    /// A session that has not connected yet, with nothing configured and no request made.
    pub fn new(backend: Arc<B>, target: ControlTarget, requested: RequestedStreamConfiguration) -> (r:
        ControlSession<B>)
        ensures
            !r.spec_connected(),
            r.spec_calls() == Seq::<SessionCall>::empty(),
            r.spec_backend() == *backend,
            r.spec_target() == target,
            r.spec_requested() == requested@,
            r.spec_capabilities() is None,
            r.spec_applied() is None,
            r.spec_running() is None,
            r.spec_consistent(),
    {
        ControlSession {
            backend,
            target,
            requested,
            connection: None,
            capabilities: None,
            stream: StreamState { applied: None, running: None },
            calls: Ghost(Seq::empty()),
        }
    }

    pub fn target(&self) -> (r: &ControlTarget)
        ensures
            *r == self.spec_target(),
    {
        &self.target
    }

    pub fn requested(&self) -> (r: &RequestedStreamConfiguration)
        ensures
            r@ == self.spec_requested(),
    {
        &self.requested
    }

    pub fn applied(&self) -> (r: Option<&AppliedStreamConfiguration>)
        ensures
            match r {
                Some(a) => self.spec_applied() == Some(a@),
                None => self.spec_applied() is None,
            },
    {
        self.stream.applied.as_ref()
    }

    pub fn running(&self) -> (r: Option<&RunningStream>)
        ensures
            match r {
                Some(a) => self.spec_running() == Some(a@),
                None => self.spec_running() is None,
            },
            self.spec_consistent(),
    {
        proof {
            use_type_invariant(&self.stream);
        }
        self.stream.running.as_ref()
    }

    /// The devices the backend finds for the session's target; the session does not connect.
    pub fn discover(&self) -> (r: Result<Vec<DiscoveredDevice>, ControlError>)
        ensures
            call_ensures(B::discover, (&self.spec_backend(), &self.spec_target()), r),
    {
        self.backend.discover(&self.target)
    }

    fn ensure_connection(&mut self) -> (r: Result<(), ControlError>)
        ensures
            r is Ok <==> final(self).spec_connected(),
            old(self).spec_connected() ==> r is Ok && *final(self) == *old(self),
            final(self).spec_calls() == old(self).calls_after_connect(),
            !old(self).spec_connected() ==> match r {
                Ok(_) => final(self).spec_connection() matches Some(c) && old(self).connect_gives(
                    Ok(c),
                ),
                Err(e) => old(self).connect_gives(Err(e)),
            },
            final(self).spec_backend() == old(self).spec_backend(),
            final(self).spec_target() == old(self).spec_target(),
            final(self).spec_requested() == old(self).spec_requested(),
            final(self).spec_capabilities() == old(self).spec_capabilities(),
            final(self).spec_applied() == old(self).spec_applied(),
            final(self).spec_running() == old(self).spec_running(),
    {
        if self.connection.is_none() {
            let connection = self.backend.connect(&self.target);
            proof {
                self.calls = Ghost(self.calls@.push(SessionCall::Connect(self.target)));
            }
            match connection {
                Ok(c) => {
                    self.connection = Some(c);
                },
                Err(e) => {
                    return Err(e);
                },
            }
        }
        Ok(())
    }

    /// The device's capabilities: the ones remembered, else asked of the device once, over a
    /// connection made first where there is none.
    pub fn describe(&mut self) -> (r: Result<&ControlCapabilities, ControlError>)
        ensures
            old(self).spec_capabilities() matches Some(c) ==> (r matches Ok(x) && *x == c)
                && *final(self) == *old(self),
            old(self).spec_capabilities() is None ==> {
                &&& final(self).spec_connected() ==> final(self).spec_calls()
                    == old(self).calls_after_connect().push(SessionCall::Describe)
                &&& !final(self).spec_connected() ==> !old(self).spec_connected()
                    && final(self).spec_calls() == old(self).calls_after_connect()
                &&& !old(self).spec_connected() && final(self).spec_connected() ==> (final(self).spec_connection() matches Some(c) && old(self).connect_gives(Ok(c)))
                &&& match r {
                    Ok(x) => final(self).spec_capabilities() == Some(*x) && (final(self).spec_connection() matches Some(c) && describe_gives(c, Ok(*x))),
                    Err(e) => final(self).spec_capabilities() is None && (final(self).spec_connection() matches Some(c) ==> describe_gives(c, Err(e))) && (!final(self).spec_connected() ==> old(self).connect_gives(Err(e))),
                }
            },
            old(self).spec_connected() ==> final(self).spec_connection() == old(self).spec_connection(),
            final(self).spec_backend() == old(self).spec_backend(),
            final(self).spec_target() == old(self).spec_target(),
            final(self).spec_requested() == old(self).spec_requested(),
            final(self).spec_applied() == old(self).spec_applied(),
            final(self).spec_running() == old(self).spec_running(),
            final(self).spec_consistent(),
    {
        proof {
            use_type_invariant(&self.stream);
        }
        if self.capabilities.is_none() {
            match self.ensure_connection() {
                Ok(()) => {},
                Err(e) => return Err(e),
            }
            proof {
                self.calls = Ghost(self.calls@.push(SessionCall::Describe));
            }
            let described = match &self.connection {
                Some(c) => c.describe(),
                None => {
                    assert(false);
                    return Err(crate::control::control_error(ControlErrorKind::Other, ""));
                },
            };
            match described {
                Ok(c) => {
                    self.capabilities = Some(c);
                },
                Err(e) => return Err(e),
            }
        }
        match &self.capabilities {
            Some(c) => Ok(c),
            None => {
                assert(false);
                Err(crate::control::control_error(ControlErrorKind::Other, ""))
            },
        }
    }

    /// Applies a configuration. Asking again for the configuration applied last is answered
    /// with it, without the device; otherwise the device is handed the request, over a
    /// connection made first where there is none, and a stream that ran is no longer taken
    /// as running.
    pub fn configure(&mut self, requested: RequestedStreamConfiguration) -> (r: Result<
        AppliedStreamConfiguration,
        ControlError,
    >)
        ensures
            ({
                let same = old(self).spec_applied() matches Some(a) && a.stream_name
                    == requested@.stream_name && old(self).spec_requested() == requested@;
                &&& same ==> (r matches Ok(x) && Some(x@) == old(self).spec_applied()) && *final(self) == *old(self)
                &&& !same ==> {
                    &&& final(self).spec_calls() == if final(self).spec_connected() {
                        old(self).calls_after_connect().push(SessionCall::Configure(requested@))
                    } else {
                        old(self).calls_after_connect()
                    }
                    &&& !final(self).spec_connected() ==> !old(self).spec_connected() && r is Err
                    &&& match r {
                        Ok(x) => final(self).spec_requested() == requested@ && final(self).spec_applied()
                            == Some(x@) && final(self).spec_running() is None,
                        Err(_) => final(self).spec_requested() == old(self).spec_requested()
                            && final(self).spec_applied() == old(self).spec_applied() && final(self).spec_running() == old(self).spec_running(),
                    }
                }
            }),
            final(self).spec_backend() == old(self).spec_backend(),
            final(self).spec_target() == old(self).spec_target(),
            final(self).spec_capabilities() == old(self).spec_capabilities(),
            final(self).spec_consistent(),
    {
        proof {
            use_type_invariant(&self.stream);
        }
        let same = match &self.stream.applied {
            Some(applied) => str_eq(applied.stream_name.as_str(), requested.stream_name.as_str())
                && requests_equal(&self.requested, &requested),
            None => false,
        };
        if same {
            match &self.stream.applied {
                Some(applied) => {
                    return Ok(copy_applied(applied));
                },
                None => {
                    assert(false);
                },
            }
        }
        match self.ensure_connection() {
            Ok(()) => {},
            Err(e) => return Err(e),
        }
        let request_copy = copy_request(&requested);
        proof {
            self.calls = Ghost(self.calls@.push(SessionCall::Configure(request_copy@)));
        }
        let outcome = match &mut self.connection {
            Some(c) => c.configure(request_copy),
            None => {
                assert(false);
                return Err(crate::control::control_error(ControlErrorKind::Other, ""));
            },
        };
        let applied = match outcome {
            Ok(a) => a,
            Err(e) => return Err(e),
        };
        let result = copy_applied(&applied);
        self.requested = requested;
        self.stream = StreamState { applied: Some(applied), running: None };
        Ok(result)
    }

    /// Starts the stream. A stream taken as running is answered with as it is; otherwise the
    /// configuration applied (or, failing one, the one requested, applied first) is started by
    /// the device, which is handed its stream id.
    pub fn start(&mut self) -> (r: Result<RunningStream, ControlError>)
        ensures
            old(self).spec_running() matches Some(x) ==> (r matches Ok(y) && y@ == x) && *final(self) == *old(self),
            old(self).spec_running() is None ==> {
                &&& match r {
                    Ok(y) => final(self).spec_running() == Some(y@) && final(self).spec_applied() is Some,
                    Err(_) => final(self).spec_running() is None,
                }
                &&& final(self).spec_requested() == old(self).spec_requested()
                &&& !final(self).spec_connected() ==> !old(self).spec_connected() && r is Err
                &&& old(self).spec_applied() matches Some(a) ==> {
                    &&& final(self).spec_applied() == old(self).spec_applied()
                    &&& final(self).spec_calls() == if final(self).spec_connected() {
                        old(self).calls_after_connect().push(SessionCall::Start(a.stream_id))
                    } else {
                        old(self).calls_after_connect()
                    }
                }
                &&& old(self).spec_applied() is None ==> {
                    &&& final(self).spec_applied() matches Some(a) ==> final(self).spec_calls()
                        == old(self).calls_after_connect().push(
                        SessionCall::Configure(old(self).spec_requested()),
                    ).push(SessionCall::Start(a.stream_id))
                    &&& final(self).spec_applied() is None ==> r is Err && final(self).spec_calls()
                        == if final(self).spec_connected() {
                        old(self).calls_after_connect().push(
                            SessionCall::Configure(old(self).spec_requested()),
                        )
                    } else {
                        old(self).calls_after_connect()
                    }
                }
            },
            final(self).spec_backend() == old(self).spec_backend(),
            final(self).spec_target() == old(self).spec_target(),
            final(self).spec_capabilities() == old(self).spec_capabilities(),
            final(self).spec_consistent(),
    {
        proof {
            use_type_invariant(&self.stream);
        }
        match &self.stream.running {
            Some(running) => {
                return Ok(copy_running(running));
            },
            None => {},
        }
        let stream_id = match &self.stream.applied {
            Some(applied) => owned(applied.stream_id.as_str()),
            None => {
                let request = copy_request(&self.requested);
                match self.configure(request) {
                    Ok(applied) => applied.stream_id,
                    Err(e) => return Err(e),
                }
            },
        };
        match self.ensure_connection() {
            Ok(()) => {},
            Err(e) => return Err(e),
        }
        proof {
            self.calls = Ghost(self.calls@.push(SessionCall::Start(stream_id@)));
        }
        let outcome = match &mut self.connection {
            Some(c) => c.start(stream_id.as_str()),
            None => {
                assert(false);
                return Err(crate::control::control_error(ControlErrorKind::Other, ""));
            },
        };
        let running = match outcome {
            Ok(x) => x,
            Err(e) => return Err(e),
        };
        let result = copy_running(&running);
        self.stream.running = Some(running);
        Ok(result)
    }

    /// Stops the stream where one was configured and is taken as running, handing the device
    /// its stream id; otherwise does nothing.
    pub fn stop(&mut self) -> (r: Result<(), ControlError>)
        ensures
            (old(self).spec_applied() is None || old(self).spec_running() is None) ==> r is Ok
                && *final(self) == *old(self),
            old(self).spec_running() is Some ==> (old(self).spec_applied() matches Some(a) ==> {
                &&& final(self).spec_calls() == if final(self).spec_connected() {
                    old(self).calls_after_connect().push(SessionCall::Stop(a.stream_id))
                } else {
                    old(self).calls_after_connect()
                }
                &&& !final(self).spec_connected() ==> !old(self).spec_connected() && r is Err
                &&& r is Ok ==> final(self).spec_running() is None
                &&& r is Err ==> final(self).spec_running() == old(self).spec_running()
            }),
            final(self).spec_backend() == old(self).spec_backend(),
            final(self).spec_target() == old(self).spec_target(),
            final(self).spec_requested() == old(self).spec_requested(),
            final(self).spec_applied() == old(self).spec_applied(),
            final(self).spec_capabilities() == old(self).spec_capabilities(),
            final(self).spec_consistent(),
    {
        proof {
            use_type_invariant(&self.stream);
        }
        let stream_id = match &self.stream.applied {
            Some(applied) => owned(applied.stream_id.as_str()),
            None => return Ok(()),
        };
        if self.stream.running.is_none() {
            return Ok(());
        }
        match self.ensure_connection() {
            Ok(()) => {},
            Err(e) => return Err(e),
        }
        proof {
            self.calls = Ghost(self.calls@.push(SessionCall::Stop(stream_id@)));
        }
        let outcome = match &mut self.connection {
            Some(c) => c.stop(stream_id.as_str()),
            None => {
                assert(false);
                return Err(crate::control::control_error(ControlErrorKind::Other, ""));
            },
        };
        match outcome {
            Ok(()) => {},
            Err(e) => return Err(e),
        }
        self.stream.running = None;
        Ok(())
    }

    /// Drops the connection, asking the device to disconnect first where there is one; the
    /// stream is then no longer taken as running.
    pub fn disconnect(&mut self) -> (r: Result<(), ControlError>)
        ensures
            !final(self).spec_connected(),
            final(self).spec_calls() == if old(self).spec_connected() {
                old(self).spec_calls().push(SessionCall::Disconnect)
            } else {
                old(self).spec_calls()
            },
            r is Err ==> old(self).spec_connected(),
            r is Ok ==> final(self).spec_running() is None,
            r is Err ==> final(self).spec_running() == old(self).spec_running(),
            final(self).spec_backend() == old(self).spec_backend(),
            final(self).spec_target() == old(self).spec_target(),
            final(self).spec_requested() == old(self).spec_requested(),
            final(self).spec_applied() == old(self).spec_applied(),
            final(self).spec_capabilities() == old(self).spec_capabilities(),
            final(self).spec_consistent(),
    {
        proof {
            use_type_invariant(&self.stream);
        }
        let connection = self.connection.take();
        match connection {
            Some(mut c) => {
                proof {
                    self.calls = Ghost(self.calls@.push(SessionCall::Disconnect));
                }
                match c.disconnect() {
                    Ok(()) => {},
                    Err(e) => return Err(e),
                }
            },
            None => {},
        }
        self.stream.running = None;
        Ok(())
    }
}

/// A backend whose connections talk to no device: configuration is echoed back.
#[derive(Clone, Copy, Debug, Default)]
pub struct NoopControlBackend;

/// The connection of the no-op backend.
#[derive(Debug)]
pub struct NoopControlConnection {
    target: ControlTarget,
    capabilities: ControlCapabilities,
    applied: Option<AppliedStreamConfiguration>,
    disconnected: bool,
}

/// Whether two capability records say the same.
pub open spec fn same_capabilities(a: ControlCapabilities, b: ControlCapabilities) -> bool {
    &&& a.supported_profiles@ == b.supported_profiles@
    &&& a.supported_pixel_formats@ == b.supported_pixel_formats@
    &&& a.multicast_supported == b.multicast_supported
    &&& a.packet_pacing_supported == b.packet_pacing_supported
    &&& a.native_framing_supported == b.native_framing_supported
}

/// The capabilities a device states by default: the compatibility profile, no pixel format
/// listed, multicast and pacing supported, no native framing.
pub open spec fn is_default_capabilities(c: ControlCapabilities) -> bool {
    &&& c.supported_profiles@ == seq![crate::compat_profile::StreamProfileId::CompatibilityV1]
    &&& c.supported_pixel_formats@.len() == 0
    &&& c.multicast_supported
    &&& c.packet_pacing_supported
    &&& !c.native_framing_supported
}

/// The error of a call on a connection that was disconnected.
pub open spec fn is_disconnected_error(e: ControlError) -> bool {
    e.spec_kind() == ControlErrorKind::Disconnected && e.spec_message()
        == "control connection is disconnected"@
}

fn copy_capabilities(c: &ControlCapabilities) -> (r: ControlCapabilities)
    ensures
        same_capabilities(r, *c),
{
    let mut profiles: Vec<crate::compat_profile::StreamProfileId> = Vec::new();
    let mut i: usize = 0;
    while i < c.supported_profiles.len()
        invariant
            i <= c.supported_profiles@.len(),
            profiles@ == c.supported_profiles@.subrange(0, i as int),
        decreases c.supported_profiles@.len() - i,
    {
        profiles.push(c.supported_profiles[i]);
        i = i + 1;
        assert(profiles@ =~= c.supported_profiles@.subrange(0, i as int));
    }
    let mut formats: Vec<crate::pixel_format::PixelFormat> = Vec::new();
    let mut j: usize = 0;
    while j < c.supported_pixel_formats.len()
        invariant
            j <= c.supported_pixel_formats@.len(),
            formats@ == c.supported_pixel_formats@.subrange(0, j as int),
        decreases c.supported_pixel_formats@.len() - j,
    {
        formats.push(c.supported_pixel_formats[j]);
        j = j + 1;
        assert(formats@ =~= c.supported_pixel_formats@.subrange(0, j as int));
    }
    assert(profiles@ =~= c.supported_profiles@);
    assert(formats@ =~= c.supported_pixel_formats@);
    ControlCapabilities {
        supported_profiles: profiles,
        supported_pixel_formats: formats,
        multicast_supported: c.multicast_supported,
        packet_pacing_supported: c.packet_pacing_supported,
        native_framing_supported: c.native_framing_supported,
    }
}

impl NoopControlConnection {
    pub closed spec fn spec_target(&self) -> ControlTarget {
        self.target
    }

    pub closed spec fn spec_capabilities(&self) -> ControlCapabilities {
        self.capabilities
    }

    pub closed spec fn spec_applied(&self) -> Option<AppliedStreamConfiguration> {
        self.applied
    }

    pub closed spec fn spec_disconnected(&self) -> bool {
        self.disconnected
    }

    fn ensure_connected(&self) -> (r: Result<(), ControlError>)
        ensures
            self.disconnected ==> (r matches Err(e) && e.spec_kind()
                == ControlErrorKind::Disconnected && e.spec_message()
                == "control connection is disconnected"@),
            !self.disconnected ==> r is Ok,
    {
        if self.disconnected {
            Err(
                crate::control::control_error(
                    ControlErrorKind::Disconnected,
                    "control connection is disconnected",
                ),
            )
        } else {
            Ok(())
        }
    }
}

impl ControlConnection for NoopControlConnection {
    fn describe(&self) -> (r: Result<ControlCapabilities, ControlError>)
        ensures
            !self.spec_disconnected() ==> (r matches Ok(c) && same_capabilities(
                c,
                self.spec_capabilities(),
            )),
            self.spec_disconnected() ==> (r matches Err(e) && is_disconnected_error(e)),
    {
        match self.ensure_connected() {
            Ok(()) => {},
            Err(e) => return Err(e),
        }
        Ok(copy_capabilities(&self.capabilities))
    }

    fn configure(&mut self, request: RequestedStreamConfiguration) -> (r: Result<
        AppliedStreamConfiguration,
        ControlError,
    >)
        ensures
            old(self).spec_disconnected() ==> (r matches Err(e) && is_disconnected_error(e))
                && *final(self) == *old(self),
            final(self).spec_target() == old(self).spec_target(),
            final(self).spec_capabilities() == old(self).spec_capabilities(),
            final(self).spec_disconnected() == old(self).spec_disconnected(),
            !old(self).spec_disconnected() ==> (r matches Ok(a) && a.stream_id@ == old(self).spec_target().device_uri@ + "#"@ + request.stream_name@ && a.stream_name@
                == request.stream_name@ && a.profile == request.profile && a.destination_host@
                == request.destination_host@ && a.port == request.port && a.bind_address@
                == request.bind_address@ && a.packet_delay_ns == request.packet_delay_ns
                && a.max_packet_size == request.max_packet_size && a.format == request.format
                && !a.normalized && applied_view(final(self).spec_applied()) == Some(a@)),
    {
        match self.ensure_connected() {
            Ok(()) => {},
            Err(e) => return Err(e),
        }
        let mut stream_id = owned(self.target.device_uri.as_str());
        push_str(&mut stream_id, "#");
        push_str(&mut stream_id, request.stream_name.as_str());
        let applied = AppliedStreamConfiguration {
            stream_id,
            stream_name: request.stream_name,
            profile: request.profile,
            destination_host: request.destination_host,
            port: request.port,
            bind_address: request.bind_address,
            packet_delay_ns: request.packet_delay_ns,
            max_packet_size: request.max_packet_size,
            format: request.format,
            normalized: false,
        };
        self.applied = Some(copy_applied(&applied));
        Ok(applied)
    }

    fn start(&mut self, stream_id: &str) -> (r: Result<RunningStream, ControlError>)
        ensures
            *final(self) == *old(self),
            old(self).spec_disconnected() ==> (r matches Err(e) && is_disconnected_error(e)),
            !old(self).spec_disconnected() ==> match old(self).spec_applied() {
                None => r matches Err(e) && e.spec_kind() == ControlErrorKind::InvalidConfiguration
                    && e.spec_message() == "stream must be configured before start"@,
                Some(a) => if a.stream_id@ == stream_id@ {
                    r matches Ok(s) && s.stream_id@ == stream_id@ && s.profile == a.profile
                        && s.running
                } else {
                    r matches Err(e) && e.spec_kind() == ControlErrorKind::AppliedValueMismatch
                        && e.spec_message() == "start requested for stream "@ + stream_id@
                        + ", but configured stream is "@ + a.stream_id@
                },
            },
    {
        match self.ensure_connected() {
            Ok(()) => {},
            Err(e) => return Err(e),
        }
        match &self.applied {
            None => Err(
                crate::control::control_error(
                    ControlErrorKind::InvalidConfiguration,
                    "stream must be configured before start",
                ),
            ),
            Some(applied) => {
                if !str_eq(applied.stream_id.as_str(), stream_id) {
                    let mut m = String::new();
                    push_str(&mut m, "start requested for stream ");
                    push_str(&mut m, stream_id);
                    push_str(&mut m, ", but configured stream is ");
                    push_str(&mut m, applied.stream_id.as_str());
                    return Err(ControlError::new(ControlErrorKind::AppliedValueMismatch, m));
                }
                Ok(RunningStream { stream_id: owned(stream_id), profile: applied.profile, running: true })
            },
        }
    }

    fn stop(&mut self, stream_id: &str) -> (r: Result<(), ControlError>)
        ensures
            *final(self) == *old(self),
            old(self).spec_disconnected() ==> (r matches Err(e) && is_disconnected_error(e)),
            !old(self).spec_disconnected() ==> match old(self).spec_applied() {
                None => r is Ok,
                Some(a) => if a.stream_id@ == stream_id@ {
                    r is Ok
                } else {
                    r matches Err(e) && e.spec_kind() == ControlErrorKind::AppliedValueMismatch
                        && e.spec_message() == "stop requested for stream "@ + stream_id@
                        + ", but configured stream is "@ + a.stream_id@
                },
            },
    {
        match self.ensure_connected() {
            Ok(()) => {},
            Err(e) => return Err(e),
        }
        match &self.applied {
            Some(applied) => {
                if !str_eq(applied.stream_id.as_str(), stream_id) {
                    let mut m = String::new();
                    push_str(&mut m, "stop requested for stream ");
                    push_str(&mut m, stream_id);
                    push_str(&mut m, ", but configured stream is ");
                    push_str(&mut m, applied.stream_id.as_str());
                    return Err(ControlError::new(ControlErrorKind::AppliedValueMismatch, m));
                }
            },
            None => {},
        }
        Ok(())
    }

    fn disconnect(&mut self) -> (r: Result<(), ControlError>)
        ensures
            r is Ok,
            final(self).spec_disconnected(),
    {
        self.disconnected = true;
        Ok(())
    }
}

fn copy_target(t: &ControlTarget) -> (r: ControlTarget)
    ensures
        r.device_uri@ == t.device_uri@,
        r.transport_kind == t.transport_kind,
{
    let auth_scope = match &t.auth_scope {
        Some(s) => Some(owned(s.as_str())),
        None => None,
    };
    ControlTarget {
        device_uri: owned(t.device_uri.as_str()),
        transport_kind: t.transport_kind,
        auth_scope,
    }
}

impl ControlBackend for NoopControlBackend {
    type Connection = NoopControlConnection;

    fn connect(&self, target: &ControlTarget) -> (r: Result<NoopControlConnection, ControlError>)
        ensures
            r matches Ok(c) && c.spec_target().device_uri@ == target.device_uri@
                && c.spec_applied() is None && !c.spec_disconnected() && is_default_capabilities(
                c.spec_capabilities(),
            ),
    {
        Ok(
            NoopControlConnection {
                target: copy_target(target),
                capabilities: ControlCapabilities::default(),
                applied: None,
                disconnected: false,
            },
        )
    }
}

/// The backend used where none is chosen: the no-op backend.
pub fn default_control_backend() -> (r: Arc<NoopControlBackend>)
    ensures
        *r == NoopControlBackend,
{
    Arc::new(NoopControlBackend)
}

} // verus!
