//! The daemon's request handling: which packets answer a request, which settings
//! change, which clients are subscribed, and when a connection is closed.  The
//! caller performs the socket and device operations that the handler returns.
use crate::common::{
    request_try_from, BatteryProtection, BatteryStatus, Get, KeyboardBacklight, Message, Packet,
    Percentage, PlatformProfile, PlatformProfileChoices, ProtocolError, Request, SetRequest, Signal,
};
use vstd::prelude::*;

verus! {

/// How many subscribed clients the server takes before it turns new connections away.
pub const MAX_CLIENTS: usize = 10;

/// A client connection, known by its file descriptor.
#[derive(Debug, Clone, Copy, PartialEq, Eq, Structural)]
pub struct Connection {
    pub fd: i32,
}

impl Connection {
    pub fn new(fd: i32) -> (c: Connection)
        ensures
            c.fd == fd,
    {
        Connection { fd }
    }

    pub fn get_fd(&self) -> (fd: i32)
        ensures
            fd == self.fd,
    {
        self.fd
    }
}

/// The device's current values; `None` where the device lacks the feature.
#[derive(Debug, Clone, Copy, PartialEq, Eq, Structural)]
pub struct DeviceInfo {
    pub battery_charge: Option<Percentage>,
    pub battery_status: Option<BatteryStatus>,
    pub battery_protection: Option<BatteryProtection>,
    pub display_brightness: Option<Percentage>,
    pub keyboard_backlight: Option<KeyboardBacklight>,
    pub platform_profile: Option<PlatformProfile>,
    pub platform_profile_choices: Option<PlatformProfileChoices>,
}

/// Something the server asks of the system.
#[derive(Debug, Clone, Copy, PartialEq, Eq)]
pub enum ServerAction {
    /// Start waiting for messages from this connection.
    Listen(Connection),
    /// Stop waiting for messages from this connection.
    Unlisten(Connection),
    /// Send a packet on this connection.
    Send(Connection, Packet),
    /// Close this connection.
    Close(Connection),
    /// Change a device setting.
    Apply(SetRequest),
    /// Report a request that could not be decoded.
    ReportError(ProtocolError),
}

/// The message that answers a get request: the value, or `Unavailable`.
pub open spec fn get_response(device: DeviceInfo, g: Get) -> Message {
    let value = match g {
        Get::BatteryCharge => match device.battery_charge {
            Some(v) => Some(Message::BatteryCharge(v)),
            None => None,
        },
        Get::BatteryStatus => match device.battery_status {
            Some(v) => Some(Message::BatteryStatus(v)),
            None => None,
        },
        Get::BatteryProtection => match device.battery_protection {
            Some(v) => Some(Message::BatteryProtection(v)),
            None => None,
        },
        Get::DisplayBrightness => match device.display_brightness {
            Some(v) => Some(Message::DisplayBrightness(v)),
            None => None,
        },
        Get::KeyboardBacklight => match device.keyboard_backlight {
            Some(v) => Some(Message::KeyboardBacklight(v)),
            None => None,
        },
        Get::PlatformProfile => match device.platform_profile {
            Some(v) => Some(Message::PlatformProfile(v)),
            None => None,
        },
        Get::PlatformProfileChoices => match device.platform_profile_choices {
            Some(v) => Some(Message::PlatformProfileChoices(v)),
            None => None,
        },
    };
    match value {
        Some(m) => m,
        None => Message::Signal(Signal::Unavailable),
    }
}

/// The values sent to a new subscriber, in order: battery charge and status (and
/// protection, when available), display brightness, keyboard backlight, platform
/// profile and its choices, each group only when the device has the feature.
pub open spec fn subscribe_gets(device: DeviceInfo) -> Seq<Get> {
    let battery: Seq<Get> = if device.battery_charge is Some {
        if device.battery_protection is Some {
            seq![Get::BatteryCharge, Get::BatteryStatus, Get::BatteryProtection]
        } else {
            seq![Get::BatteryCharge, Get::BatteryStatus]
        }
    } else {
        Seq::empty()
    };
    let display: Seq<Get> = if device.display_brightness is Some {
        seq![Get::DisplayBrightness]
    } else {
        Seq::empty()
    };
    let keyboard: Seq<Get> = if device.keyboard_backlight is Some {
        seq![Get::KeyboardBacklight]
    } else {
        Seq::empty()
    };
    let profile: Seq<Get> = if device.platform_profile is Some {
        seq![Get::PlatformProfile, Get::PlatformProfileChoices]
    } else {
        Seq::empty()
    };
    battery + display + keyboard + profile
}

/// Sending `m` to every connection in `endpoints`, in order.
pub open spec fn broadcast_actions(endpoints: Seq<Connection>, m: Message) -> Seq<ServerAction> {
    endpoints.map_values(|c: Connection| ServerAction::Send(c, packet_of(m)))
}

/// The packet of a message, as an array.
pub open spec fn packet_of(m: Message) -> Packet {
    choose|p: Packet| p@ == m.spec_packet()
}

/// Answers to the given get requests on `endpoint`, in order.
pub open spec fn answers(endpoint: Connection, device: DeviceInfo, gets: Seq<Get>) -> Seq<
    ServerAction,
> {
    gets.map_values(|g: Get| ServerAction::Send(endpoint, packet_of(get_response(device, g))))
}

/// Holds for every connection but `endpoint`.
pub open spec fn other_than(endpoint: Connection) -> spec_fn(Connection) -> bool {
    |e: Connection| e != endpoint
}

/// Closing a channel: stop listening, forget the subscriber, close.
pub open spec fn close_channel_spec(endpoints: Seq<Connection>, endpoint: Connection) -> (
    Seq<Connection>,
    Seq<ServerAction>,
) {
    (
        endpoints.filter(other_than(endpoint)),
        seq![ServerAction::Unlisten(endpoint), ServerAction::Close(endpoint)],
    )
}

/// Handling one message (or a closed connection, `None`) from `endpoint`.
pub open spec fn on_message_spec(
    endpoints: Seq<Connection>,
    endpoint: Connection,
    packet: Option<Packet>,
    device: DeviceInfo,
) -> (Seq<Connection>, Seq<ServerAction>) {
    match packet {
        None => close_channel_spec(endpoints, endpoint),
        Some(p) => match request_try_from(p) {
            Err(e) => {
                let (rest, actions) = close_channel_spec(endpoints, endpoint);
                (rest, seq![ServerAction::ReportError(e)] + actions)
            },
            Ok(Request::Get(g)) => (endpoints, answers(endpoint, device, seq![g])),
            Ok(Request::SetValue(s)) => match s {
                SetRequest::BatteryProtection { protection } => if device.battery_protection is Some {
                    (
                        endpoints,
                        seq![ServerAction::Apply(s)] + broadcast_actions(
                            endpoints,
                            Message::BatteryProtection(protection),
                        ),
                    )
                } else {
                    (endpoints, Seq::empty())
                },
                _ => (endpoints, seq![ServerAction::Apply(s)]),
            },
            Ok(Request::Subscribe) => {
                let subscribed = if endpoints.contains(endpoint) {
                    endpoints
                } else {
                    endpoints.push(endpoint)
                };
                (
                    subscribed,
                    answers(endpoint, device, subscribe_gets(device)).push(
                        ServerAction::Send(endpoint, packet_of(Message::Signal(Signal::Synced))),
                    ),
                )
            },
        },
    }
}

/// The server's subscribers.
pub struct Server {
    endpoints: Vec<Connection>,
}

impl View for Server {
    type V = Seq<Connection>;

    closed spec fn view(&self) -> Seq<Connection> {
        self.endpoints@
    }
}

/// No connection is subscribed twice.
pub open spec fn no_duplicates(endpoints: Seq<Connection>) -> bool {
    forall|i: int, j: int| 0 <= i < j < endpoints.len() ==> endpoints[i] != endpoints[j]
}

/// A message's packet, built by the message itself.
fn packet(m: Message) -> (p: Packet)
    ensures
        p == packet_of(m),
{
    let p = m.to_packet();
    proof {
        lemma_packet_unique(p, m);
    }
    p
}

/// The packet of a message is the one array whose bytes are its encoding.
pub proof fn lemma_packet_unique(p: Packet, m: Message)
    requires
        p@ == m.spec_packet(),
    ensures
        packet_of(m) == p,
{
    let q = packet_of(m);
    assert(q@ == m.spec_packet());
    assert(q =~= p);
}

impl Server {
    /// No connection is subscribed twice.
    #[verifier::type_invariant]
    spec fn subscribed_once(self) -> bool {
        no_duplicates(self.endpoints@)
    }

    /// A server with no subscribers.
    pub fn init() -> (s: Server)
        ensures
            s@ == Seq::<Connection>::empty(),
            no_duplicates(s@),
    {
        Server { endpoints: Vec::with_capacity(MAX_CLIENTS) }
    }

    /// A new connection is listened to while fewer than `MAX_CLIENTS` clients are
    /// subscribed; otherwise it is told so and closed.
    pub fn on_connection(&mut self, endpoint: Connection) -> (actions: Vec<ServerAction>)
        ensures
            final(self)@ == old(self)@,
            old(self)@.len() < MAX_CLIENTS ==> actions@ == seq![ServerAction::Listen(endpoint)],
            old(self)@.len() >= MAX_CLIENTS ==> actions@ == seq![
                ServerAction::Send(endpoint, packet_of(Message::Signal(Signal::MaxClients))),
                ServerAction::Close(endpoint),
            ],
            no_duplicates(final(self)@),
    {
        proof {
            use_type_invariant(&*self);
        }
        let mut actions: Vec<ServerAction> = Vec::new();
        if self.endpoints.len() < MAX_CLIENTS {
            actions.push(ServerAction::Listen(endpoint));
        } else {
            actions.push(ServerAction::Send(endpoint, packet(Message::Signal(Signal::MaxClients))));
            actions.push(ServerAction::Close(endpoint));
        }
        proof {
            if old(self)@.len() < MAX_CLIENTS {
                assert(actions@ =~= seq![ServerAction::Listen(endpoint)]);
            } else {
                assert(actions@ =~= seq![
                    ServerAction::Send(endpoint, packet_of(Message::Signal(Signal::MaxClients))),
                    ServerAction::Close(endpoint),
                ]);
            }
        }
        actions
    }

    /// Handles what arrived from `endpoint`: a packet, or `None` when the
    /// connection closed; see `on_message_spec`.
    pub fn on_message(&mut self, endpoint: Connection, packet: Option<Packet>, device: &DeviceInfo) -> (actions: Vec<ServerAction>)
        ensures
            (final(self)@, actions@) == on_message_spec(old(self)@, endpoint, packet, *device),
            no_duplicates(final(self)@),
    {
        let actions = match packet {
            None => self.close_channel(endpoint),
            Some(p) => match Request::try_from(p) {
                Err(e) => {
                    let mut actions: Vec<ServerAction> = Vec::new();
                    actions.push(ServerAction::ReportError(e));
                    let mut closing = self.close_channel(endpoint);
                    let ghost c = closing@;
                    actions.append(&mut closing);
                    proof {
                        assert(actions@ =~= seq![ServerAction::ReportError(e)] + c);
                    }
                    actions
                },
                Ok(Request::Get(g)) => {
                    let mut actions: Vec<ServerAction> = Vec::new();
                    self.get_request(&mut actions, endpoint, device, g);
                    proof {
                        assert(actions@ =~= answers(endpoint, *device, seq![g]));
                    }
                    actions
                },
                Ok(Request::SetValue(s)) => self.set_request(device, s),
                Ok(Request::Subscribe) => self.subscribe(endpoint, device),
            },
        };
        proof {
            use_type_invariant(&*self);
        }
        actions
    }

    fn subscribe(&mut self, endpoint: Connection, device: &DeviceInfo) -> (actions: Vec<ServerAction>)
        ensures
            (final(self)@, actions@) == on_message_spec(old(self)@, endpoint, Some([255u8, 255u8]), *device),
    {
        let mut actions: Vec<ServerAction> = Vec::new();
        let ghost gets: Seq<Get> = Seq::empty();
        if device.battery_charge.is_some() {
            self.get_request(&mut actions, endpoint, device, Get::BatteryCharge);
            self.get_request(&mut actions, endpoint, device, Get::BatteryStatus);
            if device.battery_protection.is_some() {
                self.get_request(&mut actions, endpoint, device, Get::BatteryProtection);
            }
        }
        let ghost a1 = actions@;
        if device.display_brightness.is_some() {
            self.get_request(&mut actions, endpoint, device, Get::DisplayBrightness);
        }
        let ghost a2 = actions@;
        if device.keyboard_backlight.is_some() {
            self.get_request(&mut actions, endpoint, device, Get::KeyboardBacklight);
        }
        let ghost a3 = actions@;
        if device.platform_profile.is_some() {
            self.get_request(&mut actions, endpoint, device, Get::PlatformProfile);
            self.get_request(&mut actions, endpoint, device, Get::PlatformProfileChoices);
        }
        let ghost a4 = actions@;
        proof {
            let d = *device;
            let battery: Seq<Get> = if d.battery_charge is Some {
                if d.battery_protection is Some {
                    seq![Get::BatteryCharge, Get::BatteryStatus, Get::BatteryProtection]
                } else {
                    seq![Get::BatteryCharge, Get::BatteryStatus]
                }
            } else {
                Seq::empty()
            };
            let display: Seq<Get> = if d.display_brightness is Some {
                seq![Get::DisplayBrightness]
            } else {
                Seq::empty()
            };
            let keyboard: Seq<Get> = if d.keyboard_backlight is Some {
                seq![Get::KeyboardBacklight]
            } else {
                Seq::empty()
            };
            let profile: Seq<Get> = if d.platform_profile is Some {
                seq![Get::PlatformProfile, Get::PlatformProfileChoices]
            } else {
                Seq::empty()
            };
            assert(a1 =~= answers(endpoint, d, battery));
            assert(a2 =~= answers(endpoint, d, battery + display));
            assert(a3 =~= answers(endpoint, d, battery + display + keyboard));
            assert(a4 =~= answers(endpoint, d, battery + display + keyboard + profile));
        }
        if !self.contains(endpoint) {
            proof {
                use_type_invariant(&*self);
                let s = self.endpoints@;
                assert forall|i: int, j: int| 0 <= i < j < s.len() + 1 implies s.push(endpoint)[i]
                    != s.push(endpoint)[j] by {
                    if j == s.len() {
                        assert(s[i] != endpoint);
                    }
                }
            }
            let mut endpoints: Vec<Connection> = Vec::new();
            std::mem::swap(&mut endpoints, &mut self.endpoints);
            endpoints.push(endpoint);
            self.endpoints = endpoints;
        }
        actions.push(ServerAction::Send(endpoint, packet(Message::Signal(Signal::Synced))));
        proof {
            let p: Packet = [255u8, 255u8];
            assert(request_try_from(p) == Ok::<Request, ProtocolError>(Request::Subscribe));
        }
        actions
    }

    fn contains(&self, endpoint: Connection) -> (b: bool)
        ensures
            b == self@.contains(endpoint),
    {
        let mut i: usize = 0;
        while i < self.endpoints.len()
            invariant
                i <= self.endpoints@.len(),
                forall|j: int| 0 <= j < i ==> self.endpoints@[j] != endpoint,
            decreases self.endpoints@.len() - i,
        {
            if self.endpoints[i] == endpoint {
                return true;
            }
            i += 1;
        }
        false
    }

    /// Appends the answer to `request` on `endpoint`.
    fn get_request(&self, actions: &mut Vec<ServerAction>, endpoint: Connection, device: &DeviceInfo, request: Get)
        ensures
            final(actions)@ == old(actions)@.push(
                ServerAction::Send(endpoint, packet_of(get_response(*device, request))),
            ),
    {
        let response = match request {
            Get::BatteryCharge => match device.battery_charge {
                Some(v) => Some(Message::BatteryCharge(v)),
                None => None,
            },
            Get::BatteryStatus => match device.battery_status {
                Some(v) => Some(Message::BatteryStatus(v)),
                None => None,
            },
            Get::BatteryProtection => match device.battery_protection {
                Some(v) => Some(Message::BatteryProtection(v)),
                None => None,
            },
            Get::DisplayBrightness => match device.display_brightness {
                Some(v) => Some(Message::DisplayBrightness(v)),
                None => None,
            },
            Get::KeyboardBacklight => match device.keyboard_backlight {
                Some(v) => Some(Message::KeyboardBacklight(v)),
                None => None,
            },
            Get::PlatformProfileChoices => match device.platform_profile_choices {
                Some(v) => Some(Message::PlatformProfileChoices(v)),
                None => None,
            },
            Get::PlatformProfile => match device.platform_profile {
                Some(v) => Some(Message::PlatformProfile(v)),
                None => None,
            },
        };
        let message = match response {
            Some(message) => message,
            None => Message::Signal(Signal::Unavailable),
        };
        actions.push(ServerAction::Send(endpoint, packet(message)));
    }

    fn set_request(&mut self, device: &DeviceInfo, request: SetRequest) -> (actions: Vec<ServerAction>)
        ensures
            final(self)@ == old(self)@,
            actions@ == (match request {
                SetRequest::BatteryProtection { protection } => if device.battery_protection is Some {
                    seq![ServerAction::Apply(request)] + broadcast_actions(
                        old(self)@,
                        Message::BatteryProtection(protection),
                    )
                } else {
                    Seq::empty()
                },
                _ => seq![ServerAction::Apply(request)],
            }),
    {
        let mut actions: Vec<ServerAction> = Vec::new();
        match request {
            SetRequest::BatteryProtection { protection } => {
                if device.battery_protection.is_some() {
                    actions.push(ServerAction::Apply(request));
                    let mut sends = self.broadcast(Message::BatteryProtection(protection));
                    actions.append(&mut sends);
                    proof {
                        assert(actions@ =~= seq![ServerAction::Apply(request)] + broadcast_actions(
                            old(self)@,
                            Message::BatteryProtection(protection),
                        ));
                    }
                }
            },
            _ => {
                actions.push(ServerAction::Apply(request));
                proof {
                    assert(actions@ =~= seq![ServerAction::Apply(request)]);
                }
            },
        }
        actions
    }

    fn close_channel(&mut self, endpoint: Connection) -> (actions: Vec<ServerAction>)
        ensures
            (final(self)@, actions@) == close_channel_spec(old(self)@, endpoint),
    {
        let mut kept: Vec<Connection> = Vec::new();
        let mut i: usize = 0;
        while i < self.endpoints.len()
            invariant
                i <= self.endpoints@.len(),
                kept@ == self.endpoints@.take(i as int).filter(other_than(endpoint)),
            decreases self.endpoints@.len() - i,
        {
            let e = self.endpoints[i];
            proof {
                let s = self.endpoints@;
                assert(s.take(i + 1).drop_last() =~= s.take(i as int));
                assert(s.take(i + 1).last() == e);
            }
            if e != endpoint {
                kept.push(e);
            }
            proof {
                let s = self.endpoints@;
                let pred = other_than(endpoint);
                reveal(Seq::filter);
                assert(pred(e) == (e != endpoint));
                assert(s.take(i + 1).filter(pred) == if pred(e) {
                    s.take(i as int).filter(pred).push(e)
                } else {
                    s.take(i as int).filter(pred)
                });
            }
            i += 1;
        }
        proof {
            assert(self.endpoints@.take(i as int) =~= self.endpoints@);
            use_type_invariant(&*self);
            lemma_filter_no_duplicates(self.endpoints@, other_than(endpoint));
        }
        self.endpoints = kept;
        let mut actions: Vec<ServerAction> = Vec::new();
        actions.push(ServerAction::Unlisten(endpoint));
        actions.push(ServerAction::Close(endpoint));
        proof {
            assert(actions@ =~= seq![ServerAction::Unlisten(endpoint), ServerAction::Close(endpoint)]);
        }
        actions
    }

    /// Sends `message` to every subscriber.
    pub fn broadcast(&self, message: Message) -> (actions: Vec<ServerAction>)
        ensures
            actions@ == broadcast_actions(self@, message),
            no_duplicates(self@),
    {
        proof {
            use_type_invariant(self);
        }
        let p = packet(message);
        let mut actions: Vec<ServerAction> = Vec::new();
        let mut i: usize = 0;
        while i < self.endpoints.len()
            invariant
                i <= self.endpoints@.len(),
                p == packet_of(message),
                actions@ == broadcast_actions(self.endpoints@.take(i as int), message),
            decreases self.endpoints@.len() - i,
        {
            actions.push(ServerAction::Send(self.endpoints[i], p));
            proof {
                let s = self.endpoints@;
                assert(s.take(i + 1) =~= s.take(i as int).push(s[i as int]));
                assert(broadcast_actions(s.take(i + 1), message) =~= broadcast_actions(
                    s.take(i as int),
                    message,
                ).push(ServerAction::Send(s[i as int], p)));
            }
            i += 1;
        }
        proof {
            assert(self.endpoints@.take(i as int) =~= self.endpoints@);
        }
        actions
    }
}

/// Handling a message never subscribes a connection twice.
pub proof fn lemma_on_message_no_duplicates(
    endpoints: Seq<Connection>,
    endpoint: Connection,
    packet: Option<Packet>,
    device: DeviceInfo,
)
    requires
        no_duplicates(endpoints),
    ensures
        no_duplicates(on_message_spec(endpoints, endpoint, packet, device).0),
{
    let after = on_message_spec(endpoints, endpoint, packet, device).0;
    let pred = other_than(endpoint);
    broadcast use vstd::seq_lib::group_filter_ensures;

    if after == endpoints.filter(pred) {
        lemma_filter_no_duplicates(endpoints, pred);
    }
}

proof fn lemma_filter_no_duplicates(s: Seq<Connection>, pred: spec_fn(Connection) -> bool)
    requires
        no_duplicates(s),
    ensures
        no_duplicates(s.filter(pred)),
    decreases s.len(),
{
    reveal(Seq::filter);
    if s.len() > 0 {
        let rest = s.drop_last();
        assert(no_duplicates(rest));
        lemma_filter_no_duplicates(rest, pred);
        if pred(s.last()) {
            let f = rest.filter(pred);
            assert forall|i: int| 0 <= i < f.len() implies f[i] != s.last() by {
                rest.lemma_filter_contains_rev(pred, f[i]);
                assert(f.contains(f[i]));
                assert(rest.contains(f[i])) by {
                    broadcast use vstd::seq_lib::group_filter_ensures;
                }
            }
        }
    }
}

/// A connection that closes, or sends a packet that is no request, is forgotten,
/// and the last thing done with it is closing it.
pub proof fn lemma_bad_or_closed_connection_is_dropped(
    endpoints: Seq<Connection>,
    endpoint: Connection,
    packet: Option<Packet>,
    device: DeviceInfo,
)
    requires
        packet is None || request_try_from(packet->0) is Err,
    ensures
        ({
            let (after, actions) = on_message_spec(endpoints, endpoint, packet, device);
            &&& !after.contains(endpoint)
            &&& actions.last() == ServerAction::Close(endpoint)
            &&& forall|c: Connection| c != endpoint ==> (after.contains(c) <==> endpoints.contains(c))
        }),
{
    broadcast use vstd::seq_lib::group_filter_ensures;

    let (after, actions) = on_message_spec(endpoints, endpoint, packet, device);
    let pred = other_than(endpoint);
    assert(after == endpoints.filter(pred));
    assert forall|c: Connection| c != endpoint implies (after.contains(c) <==> endpoints.contains(c)) by {
        if endpoints.contains(c) {
            let i = choose|i: int| 0 <= i < endpoints.len() && endpoints[i] == c;
            assert(pred(endpoints[i]));
            endpoints.lemma_filter_contains(pred, i);
        }
        if after.contains(c) {
            endpoints.lemma_filter_contains_rev(pred, c);
        }
    }
    if after.contains(endpoint) {
        let i = choose|i: int| 0 <= i < after.len() && after[i] == endpoint;
        endpoints.lemma_filter_pred(pred, i);
    }
}

/// A subscriber is kept as a subscriber, is sent the values the device has, and
/// hears `Synced` last.
pub proof fn lemma_subscribe(endpoints: Seq<Connection>, endpoint: Connection, device: DeviceInfo)
    ensures
        ({
            let p: Packet = [255u8, 255u8];
            let (after, actions) = on_message_spec(endpoints, endpoint, Some(p), device);
            &&& after.contains(endpoint)
            &&& forall|c: Connection| endpoints.contains(c) ==> after.contains(c)
            &&& actions.last() == ServerAction::Send(endpoint, packet_of(Message::Signal(Signal::Synced)))
            &&& actions.drop_last() == answers(endpoint, device, subscribe_gets(device))
        }),
{
    let p: Packet = [255u8, 255u8];
    assert(request_try_from(p) == Ok::<Request, ProtocolError>(Request::Subscribe));
    let (after, actions) = on_message_spec(endpoints, endpoint, Some(p), device);
    if !endpoints.contains(endpoint) {
        assert(endpoints.push(endpoint)[endpoints.len() as int] == endpoint);
        assert forall|c: Connection| endpoints.contains(c) implies after.contains(c) by {
            let i = choose|i: int| 0 <= i < endpoints.len() && endpoints[i] == c;
            assert(after[i] == c);
        }
    }
    assert(actions.drop_last() =~= answers(endpoint, device, subscribe_gets(device)));
}

/// A get request is answered with exactly one packet, sent to the client that asked.
pub proof fn lemma_get_answered_once(
    endpoints: Seq<Connection>,
    endpoint: Connection,
    p: Packet,
    device: DeviceInfo,
    g: Get,
)
    requires
        request_try_from(p) == Ok::<Request, ProtocolError>(Request::Get(g)),
    ensures
        on_message_spec(endpoints, endpoint, Some(p), device) == (
            endpoints,
            seq![ServerAction::Send(endpoint, packet_of(get_response(device, g)))],
        ),
{
    assert(answers(endpoint, device, seq![g]) =~= seq![
        ServerAction::Send(endpoint, packet_of(get_response(device, g))),
    ]);
}


/// A get request is answered with the value the device has for it, or with
/// `Unavailable` exactly when the device lacks that value.
pub proof fn lemma_get_response(device: DeviceInfo, g: Get)
    ensures
        (get_response(device, g) == Message::Signal(Signal::Unavailable)) <==> match g {
            Get::BatteryCharge => device.battery_charge is None,
            Get::BatteryStatus => device.battery_status is None,
            Get::BatteryProtection => device.battery_protection is None,
            Get::DisplayBrightness => device.display_brightness is None,
            Get::KeyboardBacklight => device.keyboard_backlight is None,
            Get::PlatformProfile => device.platform_profile is None,
            Get::PlatformProfileChoices => device.platform_profile_choices is None,
        },
        g == Get::BatteryCharge && device.battery_charge is Some ==> get_response(device, g)
            == Message::BatteryCharge(device.battery_charge->0),
        g == Get::BatteryStatus && device.battery_status is Some ==> get_response(device, g)
            == Message::BatteryStatus(device.battery_status->0),
        g == Get::BatteryProtection && device.battery_protection is Some ==> get_response(device, g)
            == Message::BatteryProtection(device.battery_protection->0),
        g == Get::DisplayBrightness && device.display_brightness is Some ==> get_response(device, g)
            == Message::DisplayBrightness(device.display_brightness->0),
        g == Get::KeyboardBacklight && device.keyboard_backlight is Some ==> get_response(device, g)
            == Message::KeyboardBacklight(device.keyboard_backlight->0),
        g == Get::PlatformProfile && device.platform_profile is Some ==> get_response(device, g)
            == Message::PlatformProfile(device.platform_profile->0),
        g == Get::PlatformProfileChoices && device.platform_profile_choices is Some ==> get_response(
            device,
            g,
        ) == Message::PlatformProfileChoices(device.platform_profile_choices->0),
{
}

/// The groups of values a subscriber is sent, in order.
spec fn battery_gets(device: DeviceInfo) -> Seq<Get> {
    if device.battery_charge is Some {
        if device.battery_protection is Some {
            seq![Get::BatteryCharge, Get::BatteryStatus, Get::BatteryProtection]
        } else {
            seq![Get::BatteryCharge, Get::BatteryStatus]
        }
    } else {
        Seq::empty()
    }
}

spec fn display_gets(device: DeviceInfo) -> Seq<Get> {
    if device.display_brightness is Some {
        seq![Get::DisplayBrightness]
    } else {
        Seq::empty()
    }
}

spec fn keyboard_gets(device: DeviceInfo) -> Seq<Get> {
    if device.keyboard_backlight is Some {
        seq![Get::KeyboardBacklight]
    } else {
        Seq::empty()
    }
}

spec fn profile_gets(device: DeviceInfo) -> Seq<Get> {
    if device.platform_profile is Some {
        seq![Get::PlatformProfile, Get::PlatformProfileChoices]
    } else {
        Seq::empty()
    }
}

proof fn lemma_subscribe_gets_groups(device: DeviceInfo, g: Get)
    ensures
        subscribe_gets(device) == battery_gets(device) + display_gets(device) + keyboard_gets(device)
            + profile_gets(device),
        subscribe_gets(device).contains(g) <==> (battery_gets(device).contains(g) || display_gets(
            device,
        ).contains(g) || keyboard_gets(device).contains(g) || profile_gets(device).contains(g)),
{
    broadcast use vstd::seq_lib::lemma_seq_concat_contains_all_elements;

    let b = battery_gets(device);
    let d = display_gets(device);
    let k = keyboard_gets(device);
    let p = profile_gets(device);
    assert((b + d + k + p).contains(g) <==> (b + d + k).contains(g) || p.contains(g));
    assert((b + d + k).contains(g) <==> (b + d).contains(g) || k.contains(g));
    assert((b + d).contains(g) <==> b.contains(g) || d.contains(g));
}

proof fn lemma_literal_contains(s: Seq<Get>, g: Get)
    requires
        s.len() <= 3,
    ensures
        s.contains(g) <==> ((s.len() > 0 && s[0] == g) || (s.len() > 1 && s[1] == g) || (s.len() > 2
            && s[2] == g)),
{
}

/// What a new subscriber is sent: with a battery, its charge and then its status
/// come first, followed by the protection mode exactly when the device has one;
/// every other value is sent exactly when the device has it.
pub proof fn lemma_subscribe_gets(device: DeviceInfo)
    ensures
        ({
            let gets = subscribe_gets(device);
            &&& device.battery_charge is Some ==> gets.len() >= 2 && gets[0] == Get::BatteryCharge
                && gets[1] == Get::BatteryStatus
            &&& device.battery_charge is Some ==> (gets.len() >= 3 && gets[2] == Get::BatteryProtection
                <==> device.battery_protection is Some)
            &&& gets.contains(Get::BatteryCharge) <==> device.battery_charge is Some
            &&& gets.contains(Get::BatteryStatus) <==> device.battery_charge is Some
            &&& gets.contains(Get::BatteryProtection) <==> (device.battery_charge is Some
                && device.battery_protection is Some)
            &&& gets.contains(Get::DisplayBrightness) <==> device.display_brightness is Some
            &&& gets.contains(Get::KeyboardBacklight) <==> device.keyboard_backlight is Some
            &&& gets.contains(Get::PlatformProfile) <==> device.platform_profile is Some
            &&& gets.contains(Get::PlatformProfileChoices) <==> device.platform_profile is Some
        }),
{
    let gets = subscribe_gets(device);
    let b = battery_gets(device);
    let d = display_gets(device);
    let k = keyboard_gets(device);
    let p = profile_gets(device);
    assert forall|g: Get| #[trigger] gets.contains(g) <==> (b.contains(g) || d.contains(g) || k.contains(g)
        || p.contains(g)) by {
        lemma_subscribe_gets_groups(device, g);
        lemma_literal_contains(b, g);
        lemma_literal_contains(d, g);
        lemma_literal_contains(k, g);
        lemma_literal_contains(p, g);
    }
    assert forall|g: Get| b.contains(g) <==> ((b.len() > 0 && b[0] == g) || (b.len() > 1 && b[1] == g)
        || (b.len() > 2 && b[2] == g)) by {
        lemma_literal_contains(b, g);
    }
    assert forall|g: Get| d.contains(g) <==> (d.len() > 0 && d[0] == g) by {
        lemma_literal_contains(d, g);
    }
    assert forall|g: Get| k.contains(g) <==> (k.len() > 0 && k[0] == g) by {
        lemma_literal_contains(k, g);
    }
    assert forall|g: Get| p.contains(g) <==> ((p.len() > 0 && p[0] == g) || (p.len() > 1 && p[1] == g)) by {
        lemma_literal_contains(p, g);
    }
    lemma_subscribe_gets_groups(device, Get::BatteryCharge);
    if device.battery_charge is Some {
        assert(gets[0] == b[0] && gets[1] == b[1]);
        if device.battery_protection is Some {
            assert(gets[2] == b[2]);
        } else if gets.len() >= 3 {
            assert(gets[2] != Get::BatteryProtection) by {
                if d.len() > 0 {
                    assert(gets[2] == d[0]);
                } else if k.len() > 0 {
                    assert(gets[2] == k[0]);
                } else {
                    assert(gets[2] == p[0]);
                }
            }
        }
    }
}

} // verus!
