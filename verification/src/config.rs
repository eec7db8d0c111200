//! The server's configuration and its defaults.
use vstd::prelude::*;
use crate::auth_provider::pam::PAMAuthProviderConfig;
use crate::auth_provider::windows_logon::WinLogonAuthProviderConfig;
use crate::capture::FrameDelay;
use crate::protocol::handshake::security::SecurityType;
use crate::protocol::pixel_format::PixelFormat;

verus! {

/// Everything the server is configured with.
pub struct Config {
    pub server: ServerConfig,
    pub capture: CaptureConfig,
    pub auth_provider: AuthProviderConfig,
    pub management: Option<ManagmentServerConfig>,
}

/// Where users come from.
pub enum AuthProviderConfig {
    /// Users listed in the file at `path`.
    File { path: String },
    /// One password, and optionally a login, given here.
    NoneProvider { login: Option<String>, password: String },
    /// Users of the system, checked through PAM.
    PAM(PAMAuthProviderConfig),
    /// Windows accounts.
    WinLogon(WinLogonAuthProviderConfig),
}

/// The server's network side and the picture it sends.
pub struct ServerConfig {
    pub bind_address: String,
    pub channel_size: usize,
    pub auth_protocols: Vec<SecurityType>,
    pub pixel_format: PixelFormat,
}

/// How often the screen is captured.
pub struct CaptureConfig {
    pub time_between_frame: FrameDelay,
}

/// Where the management interface listens.
pub struct ManagmentServerConfig {
    pub bind_address: String,
}

/// The management interface listens on the loopback interface, port 5899.
pub fn default_mgmt_bind_address() -> (s: String)
    ensures
        s@ == "127.0.0.1:5899"@,
{
    String::from_str("127.0.0.1:5899")
}

/// The server listens on every interface, port 5900.
pub fn default_bind_address() -> (s: String)
    ensures
        s@ == "0.0.0.0:5900"@,
{
    String::from_str("0.0.0.0:5900")
}

/// Channels between the connections and the input controller hold 128 events.
pub fn default_channel_size() -> (n: usize)
    ensures
        n == 128,
{
    128
}

/// VNC authentication alone is offered.
pub fn default_auth_protocols() -> (v: Vec<SecurityType>)
    ensures
        v@ == seq![SecurityType::VNCAuthentication],
{
    let mut v: Vec<SecurityType> = Vec::new();
    v.push(SecurityType::VNCAuthentication);
    v
}

/// The screen is captured every 15 milliseconds.
pub fn default_delay_between_frames() -> (d: FrameDelay)
    ensures
        d.well_formed(),
        d.total_nanos() == 15_000_000,
{
    FrameDelay::from_millis(15)
}

impl Default for AuthProviderConfig {
    /// The login `admin` with the password `password`.
    fn default() -> (c: Self)
        ensures
            c matches AuthProviderConfig::NoneProvider { login: Some(l), password } && l@ == "admin"@
                && password@ == "password"@,
    {
        AuthProviderConfig::NoneProvider {
            login: Some(String::from_str("admin")),
            password: String::from_str("password"),
        }
    }
}

impl Default for ServerConfig {
    /// The default address, channel size and protocols, and the capture format.
    fn default() -> (c: Self)
        ensures
            c.bind_address@ == "0.0.0.0:5900"@,
            c.channel_size == 128,
            c.auth_protocols@ == seq![SecurityType::VNCAuthentication],
            c.pixel_format == PixelFormat::capture_format(),
    {
        ServerConfig {
            bind_address: default_bind_address(),
            channel_size: default_channel_size(),
            auth_protocols: default_auth_protocols(),
            pixel_format: PixelFormat::default(),
        }
    }
}

impl Default for CaptureConfig {
    /// A frame every 15 milliseconds.
    fn default() -> (c: Self)
        ensures
            c.time_between_frame.well_formed(),
            c.time_between_frame.total_nanos() == 15_000_000,
    {
        CaptureConfig { time_between_frame: FrameDelay::from_millis(15) }
    }
}

impl Default for ManagmentServerConfig {
    /// The default management address.
    fn default() -> (c: Self)
        ensures
            c.bind_address@ == "127.0.0.1:5899"@,
    {
        ManagmentServerConfig { bind_address: default_mgmt_bind_address() }
    }
}

impl Config {
    /// Every part is at its default, and there is no management interface.
    pub open spec fn is_default(self) -> bool {
        &&& self.server.bind_address@ == "0.0.0.0:5900"@
        &&& self.server.channel_size == 128
        &&& self.server.auth_protocols@ == seq![SecurityType::VNCAuthentication]
        &&& self.server.pixel_format == PixelFormat::capture_format()
        &&& self.capture.time_between_frame.well_formed()
        &&& self.capture.time_between_frame.total_nanos() == 15_000_000
        &&& self.auth_provider matches AuthProviderConfig::NoneProvider { login: Some(l), password }
            && l@ == "admin"@ && password@ == "password"@
        &&& self.management is None
    }
}

impl Default for Config {
    /// Every part at its default, and no management interface.
    fn default() -> (c: Self)
        ensures
            c.is_default(),
    {
        Config {
            server: ServerConfig::default(),
            capture: CaptureConfig::default(),
            auth_provider: AuthProviderConfig::default(),
            management: None,
        }
    }
}

} // verus!
