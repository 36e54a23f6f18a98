//! The settings page's model of the desktop configuration: what each field
//! shows and how the text or switch the user enters is written back.
use vstd::prelude::*;
use vstd::string::StringSliceAdditionalSpecFns;
use crate::text::{dec, lemma_parse_dec, parse_unsigned, parse_unsigned_str, push_decimal, to_string};

verus! {

/// A timeout: whole seconds and the nanoseconds beyond them.
#[derive(Clone, Copy, Debug, PartialEq, Eq, Structural)]
pub struct Timeout {
    pub secs: u64,
    pub nanos: u32,
}

/// The configuration fields the settings page edits.
///
/// Paths are held as their text. Rate limits are `None` (unlimited) or a
/// positive number of bytes per second.
#[derive(Clone, Debug)]
pub struct DesktopConfig {
    pub default_download_location: String,
    pub dht_disable: bool,
    pub dht_disable_persistence: bool,
    pub dht_persistence_filename: String,
    pub persistence_disable: bool,
    pub persistence_folder: String,
    pub persistence_fastresume: bool,
    pub download_bps: Option<u32>,
    pub upload_bps: Option<u32>,
    pub enable_tcp_listen: bool,
    pub enable_utp: bool,
    pub enable_upnp_port_forward: bool,
    pub listen_port: u16,
    pub enable_tcp_outgoing: bool,
    pub socks_proxy: String,
    pub peer_connect_timeout: Timeout,
    pub peer_read_write_timeout: Timeout,
    pub http_api_disable: bool,
    pub http_api_read_only: bool,
    pub upnp_enable_server: bool,
    pub upnp_server_friendly_name: Option<String>,
}

/// The configuration with its strings taken as character sequences.
#[verifier::ext_equal]
pub struct ConfigView {
    pub default_download_location: Seq<char>,
    pub dht_disable: bool,
    pub dht_disable_persistence: bool,
    pub dht_persistence_filename: Seq<char>,
    pub persistence_disable: bool,
    pub persistence_folder: Seq<char>,
    pub persistence_fastresume: bool,
    pub download_bps: Option<u32>,
    pub upload_bps: Option<u32>,
    pub enable_tcp_listen: bool,
    pub enable_utp: bool,
    pub enable_upnp_port_forward: bool,
    pub listen_port: u16,
    pub enable_tcp_outgoing: bool,
    pub socks_proxy: Seq<char>,
    pub peer_connect_timeout: Timeout,
    pub peer_read_write_timeout: Timeout,
    pub http_api_disable: bool,
    pub http_api_read_only: bool,
    pub upnp_enable_server: bool,
    pub upnp_server_friendly_name: Option<Seq<char>>,
}

impl ConfigView {
    /// Rate limits are never zero: zero is written as "unlimited".
    pub open spec fn wf(self) -> bool {
        self.download_bps != Some(0u32) && self.upload_bps != Some(0u32)
    }
}

impl View for DesktopConfig {
    type V = ConfigView;

    open spec fn view(&self) -> ConfigView {
        ConfigView {
            default_download_location: self.default_download_location@,
            dht_disable: self.dht_disable,
            dht_disable_persistence: self.dht_disable_persistence,
            dht_persistence_filename: self.dht_persistence_filename@,
            persistence_disable: self.persistence_disable,
            persistence_folder: self.persistence_folder@,
            persistence_fastresume: self.persistence_fastresume,
            download_bps: self.download_bps,
            upload_bps: self.upload_bps,
            enable_tcp_listen: self.enable_tcp_listen,
            enable_utp: self.enable_utp,
            enable_upnp_port_forward: self.enable_upnp_port_forward,
            listen_port: self.listen_port,
            enable_tcp_outgoing: self.enable_tcp_outgoing,
            socks_proxy: self.socks_proxy@,
            peer_connect_timeout: self.peer_connect_timeout,
            peer_read_write_timeout: self.peer_read_write_timeout,
            http_api_disable: self.http_api_disable,
            http_api_read_only: self.http_api_read_only,
            upnp_enable_server: self.upnp_enable_server,
            upnp_server_friendly_name: match self.upnp_server_friendly_name {
                Some(s) => Some(s@),
                None => None,
            },
        }
    }
}

// ---------------------------------------------------------------------------
// How text fields are shown and read.
// ---------------------------------------------------------------------------

/// The number `str::parse` reads from `s` for an unsigned type whose largest
/// value is `max`.
pub open spec fn parsed(s: Seq<char>, max: nat) -> Option<nat> {
    parse_unsigned(vstd::utf8::encode_utf8(s), max)
}

/// A rate limit as shown: its decimal value, or nothing when unlimited.
pub open spec fn rate_text(r: Option<u32>) -> Seq<char> {
    match r {
        Some(v) => dec(v as nat),
        None => Seq::empty(),
    }
}

/// A rate limit as read from text: a positive `u32`, anything else (zero,
/// empty or not a number) meaning unlimited.
pub open spec fn rate_from_text(s: Seq<char>) -> Option<u32> {
    match parsed(s, u32::MAX as nat) {
        Some(v) => if v > 0 {
            Some(v as u32)
        } else {
            None
        },
        None => None,
    }
}

/// The listen port after the user typed `s`: kept unless `s` is a `u16`.
pub open spec fn port_from_text(old: u16, s: Seq<char>) -> u16 {
    match parsed(s, u16::MAX as nat) {
        Some(v) => v as u16,
        None => old,
    }
}

/// A timeout after the user typed `s` seconds: kept unless `s` is a `u64`.
pub open spec fn timeout_from_text(old: Timeout, s: Seq<char>) -> Timeout {
    match parsed(s, u64::MAX as nat) {
        Some(v) => Timeout { secs: v as u64, nanos: 0 },
        None => old,
    }
}

/// The UPnP friendly name as shown: empty when unset.
pub open spec fn name_text(n: Option<Seq<char>>) -> Seq<char> {
    match n {
        Some(s) => s,
        None => Seq::empty(),
    }
}

/// The UPnP friendly name as read: empty text unsets it.
pub open spec fn name_from_text(s: Seq<char>) -> Option<Seq<char>> {
    if s.len() == 0 {
        None
    } else {
        Some(s)
    }
}

fn decimal_string(n: u64) -> (r: String)
    ensures
        r@ == dec(n as nat),
{
    let mut s = String::new();
    push_decimal(&mut s, n as u128);
    s
}

fn rate_string(r: Option<u32>) -> (s: String)
    ensures
        s@ == rate_text(r),
{
    match r {
        Some(v) => decimal_string(v as u64),
        None => String::new(),
    }
}

fn rate_from_str(v: &str) -> (r: Option<u32>)
    ensures
        r == rate_from_text(v@),
{
    match parse_unsigned_str(v, 0xffff_ffff) {
        Some(n) => if n > 0 {
            Some(n as u32)
        } else {
            None
        },
        None => None,
    }
}

// ---------------------------------------------------------------------------
// The fields of the settings page.
// ---------------------------------------------------------------------------

impl DesktopConfig {
    /// Default download folder.
    pub fn get_dl_location(&self) -> (r: String)
        ensures
            r@ == self@.default_download_location,
    {
        to_string(self.default_download_location.as_str())
    }

    pub fn set_dl_location(&mut self, v: &str)
        ensures
            final(self)@ == (ConfigView { default_download_location: v@, ..old(self)@ }),
    {
        self.default_download_location = to_string(v);
    }

    /// "Enable DHT": the negation of `dht.disable`.
    pub fn get_dht_disable(&self) -> (r: bool)
        ensures
            r == !self@.dht_disable,
    {
        !self.dht_disable
    }

    pub fn set_dht_disable(&mut self, v: bool)
        ensures
            final(self)@ == (ConfigView { dht_disable: !v, ..old(self)@ }),
    {
        self.dht_disable = !v;
    }

    /// "Enable DHT persistence": the negation of `dht.disable_persistence`.
    pub fn get_dht_persist(&self) -> (r: bool)
        ensures
            r == !self@.dht_disable_persistence,
    {
        !self.dht_disable_persistence
    }

    pub fn set_dht_persist(&mut self, v: bool)
        ensures
            final(self)@ == (ConfigView { dht_disable_persistence: !v, ..old(self)@ }),
    {
        self.dht_disable_persistence = !v;
    }

    /// DHT persistence filename.
    pub fn get_dht_filename(&self) -> (r: String)
        ensures
            r@ == self@.dht_persistence_filename,
    {
        to_string(self.dht_persistence_filename.as_str())
    }

    pub fn set_dht_filename(&mut self, v: &str)
        ensures
            final(self)@ == (ConfigView { dht_persistence_filename: v@, ..old(self)@ }),
    {
        self.dht_persistence_filename = to_string(v);
    }

    /// "Enable session persistence": the negation of `persistence.disable`.
    pub fn get_persist_disable(&self) -> (r: bool)
        ensures
            r == !self@.persistence_disable,
    {
        !self.persistence_disable
    }

    pub fn set_persist_disable(&mut self, v: bool)
        ensures
            final(self)@ == (ConfigView { persistence_disable: !v, ..old(self)@ }),
    {
        self.persistence_disable = !v;
    }

    /// Persistence folder.
    pub fn get_persist_folder(&self) -> (r: String)
        ensures
            r@ == self@.persistence_folder,
    {
        to_string(self.persistence_folder.as_str())
    }

    pub fn set_persist_folder(&mut self, v: &str)
        ensures
            final(self)@ == (ConfigView { persistence_folder: v@, ..old(self)@ }),
    {
        self.persistence_folder = to_string(v);
    }

    /// "Enable fast resume".
    pub fn get_fastresume(&self) -> (r: bool)
        ensures
            r == self@.persistence_fastresume,
    {
        self.persistence_fastresume
    }

    pub fn set_fastresume(&mut self, v: bool)
        ensures
            final(self)@ == (ConfigView { persistence_fastresume: v, ..old(self)@ }),
    {
        self.persistence_fastresume = v;
    }

    /// Download rate limit in bytes per second; empty when unlimited.
    pub fn get_dl_rate(&self) -> (r: String)
        ensures
            r@ == rate_text(self@.download_bps),
    {
        rate_string(self.download_bps)
    }

    pub fn set_dl_rate(&mut self, v: &str)
        ensures
            final(self)@ == (ConfigView { download_bps: rate_from_text(v@), ..old(self)@ }),
    {
        self.download_bps = rate_from_str(v);
    }

    /// Upload rate limit in bytes per second; empty when unlimited.
    pub fn get_ul_rate(&self) -> (r: String)
        ensures
            r@ == rate_text(self@.upload_bps),
    {
        rate_string(self.upload_bps)
    }

    pub fn set_ul_rate(&mut self, v: &str)
        ensures
            final(self)@ == (ConfigView { upload_bps: rate_from_text(v@), ..old(self)@ }),
    {
        self.upload_bps = rate_from_str(v);
    }

    /// "Listen on TCP".
    pub fn get_tcp_listen(&self) -> (r: bool)
        ensures
            r == self@.enable_tcp_listen,
    {
        self.enable_tcp_listen
    }

    pub fn set_tcp_listen(&mut self, v: bool)
        ensures
            final(self)@ == (ConfigView { enable_tcp_listen: v, ..old(self)@ }),
    {
        self.enable_tcp_listen = v;
    }

    /// "Listen on uTP".
    pub fn get_utp(&self) -> (r: bool)
        ensures
            r == self@.enable_utp,
    {
        self.enable_utp
    }

    pub fn set_utp(&mut self, v: bool)
        ensures
            final(self)@ == (ConfigView { enable_utp: v, ..old(self)@ }),
    {
        self.enable_utp = v;
    }

    /// "Advertise port over UPnP".
    pub fn get_upnp_fwd(&self) -> (r: bool)
        ensures
            r == self@.enable_upnp_port_forward,
    {
        self.enable_upnp_port_forward
    }

    pub fn set_upnp_fwd(&mut self, v: bool)
        ensures
            final(self)@ == (ConfigView { enable_upnp_port_forward: v, ..old(self)@ }),
    {
        self.enable_upnp_port_forward = v;
    }

    /// Listen port, in decimal.
    pub fn get_listen_port(&self) -> (r: String)
        ensures
            r@ == dec(self@.listen_port as nat),
    {
        decimal_string(self.listen_port as u64)
    }

    /// Takes the port when the text is a `u16`; otherwise keeps the old one.
    pub fn set_listen_port(&mut self, v: &str)
        ensures
            final(self)@ == (ConfigView {
                listen_port: port_from_text(old(self)@.listen_port, v@),
                ..old(self)@
            }),
    {
        match parse_unsigned_str(v, 0xffff) {
            Some(p) => {
                self.listen_port = p as u16;
            },
            None => {},
        }
    }

    /// "Enable outgoing TCP".
    pub fn get_tcp_outgoing(&self) -> (r: bool)
        ensures
            r == self@.enable_tcp_outgoing,
    {
        self.enable_tcp_outgoing
    }

    pub fn set_tcp_outgoing(&mut self, v: bool)
        ensures
            final(self)@ == (ConfigView { enable_tcp_outgoing: v, ..old(self)@ }),
    {
        self.enable_tcp_outgoing = v;
    }

    /// SOCKS proxy URL.
    pub fn get_socks(&self) -> (r: String)
        ensures
            r@ == self@.socks_proxy,
    {
        to_string(self.socks_proxy.as_str())
    }

    pub fn set_socks(&mut self, v: &str)
        ensures
            final(self)@ == (ConfigView { socks_proxy: v@, ..old(self)@ }),
    {
        self.socks_proxy = to_string(v);
    }

    /// Peer connect timeout in whole seconds.
    pub fn get_peer_ct(&self) -> (r: String)
        ensures
            r@ == dec(self@.peer_connect_timeout.secs as nat),
    {
        decimal_string(self.peer_connect_timeout.secs)
    }

    /// Takes the seconds when the text is a `u64`; otherwise keeps the old
    /// timeout.
    pub fn set_peer_ct(&mut self, v: &str)
        ensures
            final(self)@ == (ConfigView {
                peer_connect_timeout: timeout_from_text(old(self)@.peer_connect_timeout, v@),
                ..old(self)@
            }),
    {
        match parse_unsigned_str(v, 0xffff_ffff_ffff_ffff) {
            Some(secs) => {
                self.peer_connect_timeout = Timeout { secs, nanos: 0 };
            },
            None => {},
        }
    }

    /// Peer read/write timeout in whole seconds.
    pub fn get_peer_rw(&self) -> (r: String)
        ensures
            r@ == dec(self@.peer_read_write_timeout.secs as nat),
    {
        decimal_string(self.peer_read_write_timeout.secs)
    }

    /// Takes the seconds when the text is a `u64`; otherwise keeps the old
    /// timeout.
    pub fn set_peer_rw(&mut self, v: &str)
        ensures
            final(self)@ == (ConfigView {
                peer_read_write_timeout: timeout_from_text(old(self)@.peer_read_write_timeout, v@),
                ..old(self)@
            }),
    {
        match parse_unsigned_str(v, 0xffff_ffff_ffff_ffff) {
            Some(secs) => {
                self.peer_read_write_timeout = Timeout { secs, nanos: 0 };
            },
            None => {},
        }
    }

    /// "Enable HTTP API": the negation of `http_api.disable`.
    pub fn get_http_disable(&self) -> (r: bool)
        ensures
            r == !self@.http_api_disable,
    {
        !self.http_api_disable
    }

    pub fn set_http_disable(&mut self, v: bool)
        ensures
            final(self)@ == (ConfigView { http_api_disable: !v, ..old(self)@ }),
    {
        self.http_api_disable = !v;
    }

    /// "Read only".
    pub fn get_http_ro(&self) -> (r: bool)
        ensures
            r == self@.http_api_read_only,
    {
        self.http_api_read_only
    }

    pub fn set_http_ro(&mut self, v: bool)
        ensures
            final(self)@ == (ConfigView { http_api_read_only: v, ..old(self)@ }),
    {
        self.http_api_read_only = v;
    }

    /// "Enable UPnP media server".
    pub fn get_upnp_server(&self) -> (r: bool)
        ensures
            r == self@.upnp_enable_server,
    {
        self.upnp_enable_server
    }

    pub fn set_upnp_server(&mut self, v: bool)
        ensures
            final(self)@ == (ConfigView { upnp_enable_server: v, ..old(self)@ }),
    {
        self.upnp_enable_server = v;
    }

    /// UPnP friendly name; empty when unset.
    pub fn get_upnp_name(&self) -> (r: String)
        ensures
            r@ == name_text(self@.upnp_server_friendly_name),
    {
        match &self.upnp_server_friendly_name {
            Some(s) => to_string(s.as_str()),
            None => String::new(),
        }
    }

    pub fn set_upnp_name(&mut self, v: &str)
        ensures
            final(self)@ == (ConfigView {
                upnp_server_friendly_name: name_from_text(v@),
                ..old(self)@
            }),
    {
        self.upnp_server_friendly_name = if v.is_empty() {
            None
        } else {
            Some(to_string(v))
        };
    }
}

// ---------------------------------------------------------------------------
// What the page promises of its text fields.
// ---------------------------------------------------------------------------

/// A rate limit shown on the page reads back as itself: a positive limit
/// from its decimal text, "unlimited" from the empty text.
pub proof fn law_rate_text_round_trip(r: Option<u32>)
    requires
        r != Some(0u32),
    ensures
        rate_from_text(rate_text(r)) == r,
{
    match r {
        Some(v) => {
            lemma_parse_dec(v as nat, u32::MAX as nat);
        },
        None => {
            assert(vstd::utf8::encode_utf8(Seq::<char>::empty()) =~= Seq::<u8>::empty());
        },
    }
}

/// Typing `0` as a rate limit means unlimited.
pub proof fn law_zero_rate_is_unlimited()
    ensures
        rate_from_text(dec(0)) == None::<u32>,
{
    lemma_parse_dec(0, u32::MAX as nat);
}

/// No text sets a rate limit of zero, so the setters keep the configuration
/// well formed.
pub proof fn law_rate_from_text_never_zero(s: Seq<char>)
    ensures
        rate_from_text(s) != Some(0u32),
{
}

/// Writing back the port the page shows leaves the port unchanged.
pub proof fn law_port_text_round_trip(old: u16, p: u16)
    ensures
        port_from_text(old, dec(p as nat)) == p,
{
    lemma_parse_dec(p as nat, u16::MAX as nat);
}

/// Writing back the seconds the page shows leaves a whole-second timeout
/// unchanged.
pub proof fn law_timeout_text_round_trip(t: Timeout)
    requires
        t.nanos == 0,
    ensures
        timeout_from_text(t, dec(t.secs as nat)) == t,
{
    lemma_parse_dec(t.secs as nat, u64::MAX as nat);
}

/// Writing back the friendly name the page shows leaves it unchanged.
pub proof fn law_name_text_round_trip(n: Option<Seq<char>>)
    requires
        n != Some(Seq::<char>::empty()),
    ensures
        name_from_text(name_text(n)) == n,
{
    if let Some(s) = n {
        if s.len() == 0 {
            assert(s =~= Seq::<char>::empty());
        }
    }
}

} // verus!
