//! The messages exchanged between the compositor and its control tool, and
//! the framing and tabulation the tool applies to them.
use vstd::prelude::*;

verus! {

/// Where the control socket is, unless configured otherwise.
pub const FUSION_CTL_SOCKET_DEFAULT: &'static str = "/tmp/fusion-ctl.sock";

/// A loaded plugin as the compositor reports it.
pub struct Plugin {
    pub id: String,
    pub name: String,
    pub status: String,
    pub version: String,
}

pub struct GetPluginListRequest;

pub enum GetPluginListResponse {
    /// The plugins, on success.
    Listed(Vec<Plugin>),
    Error(String),
}

pub struct RestartPluginRequest {
    pub plugin_id: String,
}

pub enum RestartPluginResponse {
    /// The plugin was restarted.
    Restarted,
    Error(String),
}

pub struct PingRequest;

pub struct PingResponse;

pub struct ExitRequest;

pub struct ExitResponse;

/// A request to the compositor.
pub enum CompositorRequest {
    Exit(ExitRequest),
    Ping(PingRequest),
    GetPluginList(GetPluginListRequest),
    RestartPlugin(RestartPluginRequest),
}

impl From<ExitRequest> for CompositorRequest {
    fn from(r: ExitRequest) -> (out: CompositorRequest) {
        CompositorRequest::Exit(r)
    }
}

impl vstd::std_specs::convert::FromSpecImpl<ExitRequest> for CompositorRequest {
    open spec fn obeys_from_spec() -> bool {
        true
    }

    open spec fn from_spec(r: ExitRequest) -> CompositorRequest {
        CompositorRequest::Exit(r)
    }
}

impl From<PingRequest> for CompositorRequest {
    fn from(r: PingRequest) -> (out: CompositorRequest) {
        CompositorRequest::Ping(r)
    }
}

impl vstd::std_specs::convert::FromSpecImpl<PingRequest> for CompositorRequest {
    open spec fn obeys_from_spec() -> bool {
        true
    }

    open spec fn from_spec(r: PingRequest) -> CompositorRequest {
        CompositorRequest::Ping(r)
    }
}

impl From<GetPluginListRequest> for CompositorRequest {
    fn from(r: GetPluginListRequest) -> (out: CompositorRequest) {
        CompositorRequest::GetPluginList(r)
    }
}

impl vstd::std_specs::convert::FromSpecImpl<GetPluginListRequest> for CompositorRequest {
    open spec fn obeys_from_spec() -> bool {
        true
    }

    open spec fn from_spec(r: GetPluginListRequest) -> CompositorRequest {
        CompositorRequest::GetPluginList(r)
    }
}

impl From<RestartPluginRequest> for CompositorRequest {
    fn from(r: RestartPluginRequest) -> (out: CompositorRequest) {
        CompositorRequest::RestartPlugin(r)
    }
}

impl vstd::std_specs::convert::FromSpecImpl<RestartPluginRequest> for CompositorRequest {
    open spec fn obeys_from_spec() -> bool {
        true
    }

    open spec fn from_spec(r: RestartPluginRequest) -> CompositorRequest {
        CompositorRequest::RestartPlugin(r)
    }
}

/// The column titles of the plugin table.
pub fn plugin_table_header() -> (r: Vec<&'static str>)
    ensures
        r@.len() == 4,
        r@[0]@ == "Name"@,
        r@[1]@ == "Id"@,
        r@[2]@ == "Status"@,
        r@[3]@ == "Version"@,
{
    let mut r: Vec<&'static str> = Vec::new();
    r.push("Name");
    r.push("Id");
    r.push("Status");
    r.push("Version");
    r
}

/// The cells of a plugin's row, in the order of the header: name, id,
/// status, version.
pub fn plugin_table_row(plugin: &Plugin) -> (r: Vec<String>)
    ensures
        r@.len() == 4,
        r@[0]@ == plugin.name@,
        r@[1]@ == plugin.id@,
        r@[2]@ == plugin.status@,
        r@[3]@ == plugin.version@,
{
    let mut r: Vec<String> = Vec::new();
    r.push(plugin.name.clone());
    r.push(plugin.id.clone());
    r.push(plugin.status.clone());
    r.push(plugin.version.clone());
    r
}

/// A reply frame being read byte by byte: frames end at a zero byte.
pub struct FrameReader {
    buf: Vec<u8>,
}

impl FrameReader {
    pub closed spec fn bytes(&self) -> Seq<u8> {
        self.buf@
    }

    pub fn new() -> (r: FrameReader)
        ensures
            r.bytes() == Seq::<u8>::empty(),
    {
        FrameReader { buf: Vec::new() }
    }

    /// Takes the next byte read. Returns whether the frame is complete: the
    /// zero byte ends it and is not kept; any other byte is kept.
    pub fn push_byte(&mut self, byte: u8) -> (done: bool)
        ensures
            done == (byte == 0),
            done ==> final(self).bytes() == old(self).bytes(),
            !done ==> final(self).bytes() == old(self).bytes().push(byte),
    {
        if byte == 0 {
            true
        } else {
            self.buf.push(byte);
            false
        }
    }

    /// The bytes of the frame, without its terminator.
    pub fn into_bytes(self) -> (r: Vec<u8>)
        ensures
            r@ == self.bytes(),
    {
        self.buf
    }
}

} // verus!
