use vstd::prelude::*;
use vstd::string::*;
use std::collections::HashMap;
use std::marker::PhantomData;
use crate::frame::Frame;

verus! {

broadcast use vstd::std_specs::hash::group_hash_axioms;

/// Something that can stand in a pipeline.
pub trait Processor {}

/// A place frames come in or go out: a host and a port.
#[derive(Clone, Copy, Debug)]
pub struct Endpoint {
    pub host: &'static str,
    pub port: u16,
}

impl Processor for Endpoint {}

/// The websocket kind of transport.
#[derive(Debug)]
pub struct WebSocketTransport;

/// Where a websocket transport listens.
#[derive(Debug)]
pub struct WebSocketTransportConfig {
    pub port: u16,
    pub host: &'static str,
}

/// A transport of kind `T`, with its input and output endpoints.
#[derive(Debug)]
pub struct Transport<T> {
    config: WebSocketTransportConfig,
    _marker: PhantomData<T>,
}

impl Transport<WebSocketTransport> {
    /// A websocket transport for the given configuration.
    pub fn new(config: WebSocketTransportConfig) -> (t: Self)
        ensures
            t.host() == config.host,
            t.port() == config.port,
    {
        Transport { config, _marker: PhantomData }
    }

    /// The configured host.
    pub closed spec fn host(&self) -> &'static str {
        self.config.host
    }

    /// The configured port.
    pub closed spec fn port(&self) -> u16 {
        self.config.port
    }

    /// The endpoint where frames come in: the configured host and port.
    pub fn input(&self) -> (e: Endpoint)
        ensures
            e.host == self.host(),
            e.port == self.port(),
    {
        Endpoint { host: self.config.host, port: self.config.port }
    }

    /// The endpoint where frames go out: the configured host and port.
    pub fn output(&self) -> (e: Endpoint)
        ensures
            e.host == self.host(),
            e.port == self.port(),
    {
        Endpoint { host: self.config.host, port: self.config.port }
    }
}


/// The port a pipeline listens on when it has no processor to take it from.
pub const DEFAULT_PORT: u16 = 8002;

/// A websocket pipeline: it listens on the port of its first processor.
#[derive(Debug)]
pub struct Pipeline {
    has_processors: bool,
    port: u16,
}

impl Pipeline {
    /// Whether the pipeline was given any processor.
    pub closed spec fn spec_has_processors(&self) -> bool {
        self.has_processors
    }

    /// The port the pipeline listens on.
    pub closed spec fn spec_port(&self) -> u16 {
        self.port
    }

    /// A pipeline over the given processors: it listens on the first one's
    /// port, or on the default port when there is none.
    pub fn new(processors: Vec<Box<Endpoint>>) -> (p: Self)
        ensures
            p.spec_has_processors() == (processors@.len() > 0),
            p.spec_port() == (if processors@.len() > 0 {
                processors@[0].port
            } else {
                DEFAULT_PORT
            }),
    {
        let port = if processors.len() > 0 {
            processors[0].port
        } else {
            DEFAULT_PORT
        };
        Pipeline { has_processors: processors.len() > 0, port }
    }

    /// A pipeline is always well formed once built.
    pub fn is_ok(&self) -> (r: bool)
        ensures
            r,
    {
        true
    }

    /// The port on which serving listens; serving a pipeline without
    /// processors fails.
    pub fn listen_port(&self) -> (r: Result<u16, ()>)
        ensures
            r == (if self.spec_has_processors() {
                Ok::<u16, ()>(self.spec_port())
            } else {
                Err::<u16, ()>(())
            }),
    {
        if self.has_processors {
            Ok(self.port)
        } else {
            Err(())
        }
    }

    /// The address on which serving listens, `localhost:<port>`; serving a
    /// pipeline without processors fails.
    pub fn listen_address(&self) -> (r: Result<String, ()>)
        ensures
            self.spec_has_processors() ==> (r matches Ok(a) && a@ == "localhost:"@ + decimal(
                self.spec_port() as nat,
            )),
            !self.spec_has_processors() ==> r is Err,
    {
        if self.has_processors {
            let mut address = String::from_str("localhost:");
            append_decimal(&mut address, self.port as u64);
            Ok(address)
        } else {
            Err(())
        }
    }
}

/// The digit character for `d < 10`.
pub open spec fn digit_char(d: nat) -> char {
    (('0' as nat) + d) as char
}

/// The decimal digits of `n`, most significant first, without leading zeros.
pub open spec fn decimal(n: nat) -> Seq<char>
    decreases n,
{
    if n < 10 {
        seq![digit_char(n)]
    } else {
        decimal(n / 10).push(digit_char(n % 10))
    }
}

/// The one-character text of the digit `d`.
fn digit_text(d: u8) -> (t: &'static str)
    requires
        d < 10,
    ensures
        t@ == seq![digit_char(d as nat)],
{
    proof {
        reveal_strlit("0");
        reveal_strlit("1");
        reveal_strlit("2");
        reveal_strlit("3");
        reveal_strlit("4");
        reveal_strlit("5");
        reveal_strlit("6");
        reveal_strlit("7");
        reveal_strlit("8");
        reveal_strlit("9");
    }
    let t = match d {
        0 => "0",
        1 => "1",
        2 => "2",
        3 => "3",
        4 => "4",
        5 => "5",
        6 => "6",
        7 => "7",
        8 => "8",
        _ => "9",
    };
    assert(t@ =~= seq![digit_char(d as nat)]);
    t
}

/// Appends the decimal digits of `n` to `s`.
pub(crate) fn append_decimal(s: &mut String, n: u64)
    ensures
        final(s)@ == old(s)@ + decimal(n as nat),
    decreases n,
{
    if n >= 10 {
        append_decimal(s, n / 10);
    }
    s.append(digit_text((n % 10) as u8));
    assert(s@ =~= old(s)@ + decimal(n as nat));
}


/// What serde_json gives for `text` and `key`: the `key` member of the JSON
/// object `text` when that member is a string.
pub uninterp spec fn json_string_member(text: Seq<char>, key: Seq<char>) -> Option<Seq<char>>;

/// serde_json::from_str to a `serde_json::Value`, then `Value::get(key)` and
/// `Value::as_str`: the string member `key` of the JSON object `text`, if the
/// text parses and has one. Nothing is claimed of JSON itself: the result is
/// named by `json_string_member`, a function of the two arguments alone.
#[verifier::external_body]
fn json_string_field(text: &str, key: &str) -> (r: Option<String>)
    ensures
        match json_string_member(text@, key@) {
            Some(m) => r matches Some(s) && s@ == m,
            None => r is None,
        },
{
    match serde_json::from_str::<serde_json::Value>(text) {
        Ok(value) => match value.get(key) {
            Some(member) => member.as_str().map(String::from),
            None => None,
        },
        Err(_) => None,
    }
}

/// The frame that a websocket message's `content` member makes, if it has one.
pub fn frame_for_content(content: Option<String>) -> (r: Option<Frame>)
    ensures
        match content {
            Some(c) => r matches Some(f) && f.content@ == c@,
            None => r is None,
        },
{
    match content {
        Some(c) => Some(Frame { content: c }),
        None => None,
    }
}

/// The frame that a websocket text message makes: its string `content`
/// member, when the message is a JSON object with one.
pub fn frame_from_message(text: &str) -> (r: Option<Frame>)
    ensures
        match json_string_member(text@, "content"@) {
            Some(c) => r matches Some(f) && f.content@ == c,
            None => r is None,
        },
{
    frame_for_content(json_string_field(text, "content"))
}

/// Whether a websocket upgrade request for `path` is accepted: only `/v1/ws`
/// is; any other path is answered "not found".
pub fn accepts_path(path: &str) -> (r: bool)
    ensures
        r == (path@ == "/v1/ws"@),
{
    String::from_str(path) == String::from_str("/v1/ws")
}

/// The last frame received on each port.
#[derive(Debug)]
pub struct FrameRegistry {
    last_frame_by_port: HashMap<u16, Frame>,
}

impl View for FrameRegistry {
    type V = Map<u16, Seq<char>>;

    closed spec fn view(&self) -> Map<u16, Seq<char>> {
        self.last_frame_by_port@.map_values(|f: Frame| f.content@)
    }
}

impl FrameRegistry {
    /// A registry that has seen no frame.
    pub fn new() -> (r: Self)
        ensures
            r@ == Map::<u16, Seq<char>>::empty(),
    {
        let r = FrameRegistry { last_frame_by_port: HashMap::new() };
        assert(r@ =~= Map::<u16, Seq<char>>::empty());
        r
    }

    /// Forgets the frame of `port`.
    pub fn forget(&mut self, port: u16)
        ensures
            final(self)@ == old(self)@.remove(port),
    {
        self.last_frame_by_port.remove(&port);
        assert(self@ =~= old(self)@.remove(port));
    }

    /// Keeps `frame` as the last frame of `port`.
    pub fn record(&mut self, port: u16, frame: Frame)
        ensures
            final(self)@ == old(self)@.insert(port, frame.content@),
    {
        self.last_frame_by_port.insert(port, frame);
        assert(self@ =~= old(self)@.insert(port, frame.content@));
    }

    /// The last frame of `port`, if any.
    pub fn last_frame(&self, port: u16) -> (r: Option<Frame>)
        ensures
            self@.contains_key(port) ==> (r matches Some(f) && f.content@ == self@[port]),
            !self@.contains_key(port) ==> r is None,
    {
        match self.last_frame_by_port.get(&port) {
            Some(f) => Some(f.copy()),
            None => None,
        }
    }

    /// Handles a websocket text message that arrived on `port`: when it makes
    /// a frame, that frame becomes the port's last frame.
    pub fn record_message(&mut self, port: u16, text: &str)
        ensures
            match json_string_member(text@, "content"@) {
                Some(c) => final(self)@ == old(self)@.insert(port, c),
                None => final(self)@ == old(self)@,
            },
    {
        match frame_from_message(text) {
            Some(frame) => self.record(port, frame),
            None => {},
        }
    }
}

/// Watches the frames that reach an endpoint.
#[derive(Debug)]
pub struct Observer {
    endpoint: Endpoint,
}

impl Observer {
    /// The endpoint being watched.
    pub closed spec fn spec_endpoint(&self) -> Endpoint {
        self.endpoint
    }

    /// Starts watching `endpoint`: any frame the registry kept for its port
    /// is forgotten, so that only frames from now on are seen.
    pub fn observe(registry: &mut FrameRegistry, endpoint: &Endpoint) -> (o: Self)
        ensures
            o.spec_endpoint() == *endpoint,
            final(registry)@ == old(registry)@.remove(endpoint.port),
    {
        registry.forget(endpoint.port);
        Observer { endpoint: *endpoint }
    }

    /// The last frame received on the watched endpoint's port, if any.
    pub fn get_last_frame(&self, registry: &FrameRegistry) -> (r: Option<Frame>)
        ensures
            registry@.contains_key(self.spec_endpoint().port) ==> (r matches Some(f) && f.content@
                == registry@[self.spec_endpoint().port]),
            !registry@.contains_key(self.spec_endpoint().port) ==> r is None,
    {
        registry.last_frame(self.endpoint.port)
    }
}


/// What an observer of `port` reads back: nothing right after it starts
/// watching; then the content of the last message with content recorded on
/// its port, whatever is recorded on other ports meanwhile.
pub proof fn lemma_observer_reads_last_recorded(
    registry: Map<u16, Seq<char>>,
    port: u16,
    content: Seq<char>,
    other: u16,
    other_content: Seq<char>,
)
    requires
        other != port,
    ensures
        !registry.remove(port).contains_key(port),
        !registry.remove(port).insert(other, other_content).contains_key(port),
        registry.remove(port).insert(port, content).contains_key(port),
        registry.remove(port).insert(port, content)[port] == content,
        registry.remove(port).insert(port, content).insert(other, other_content)[port] == content,
{
}

} // verus!
