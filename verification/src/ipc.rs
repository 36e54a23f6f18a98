//! Rules of the local IPC endpoint: the shared secret, request signing with
//! HMAC-SHA256 over the JSON payload, command routing and the answers to the
//! torrent service's replies.
use vstd::prelude::*;
use vstd::string::StringSliceAdditionalSpecFns;
use crate::text::{dec, push_decimal, push_str, str_eq, to_string};

verus! {

// ---------------------------------------------------------------------------
// Hex text.
// ---------------------------------------------------------------------------

/// The lowercase hex digit of a value below 16.
pub open spec fn hex_digit(v: int) -> char {
    if v < 10 {
        (('0' as int) + v) as char
    } else {
        (('a' as int) + v - 10) as char
    }
}

/// Lowercase hex rendering of bytes: two digits per byte, high nibble first.
pub open spec fn hex_text(b: Seq<u8>) -> Seq<char> {
    Seq::new(
        2 * b.len(),
        |j: int|
            if j % 2 == 0 {
                hex_digit((b[j / 2] / 16) as int)
            } else {
                hex_digit((b[j / 2] % 16) as int)
            },
    )
}

/// A hex digit in either case.
pub open spec fn is_hex_byte(c: u8) -> bool {
    (48 <= c <= 57) || (65 <= c <= 70) || (97 <= c <= 102)
}

/// The value of a hex digit.
pub open spec fn hex_value(c: u8) -> int {
    if c <= 57 {
        c - 48
    } else if c <= 70 {
        c - 55
    } else {
        c - 87
    }
}

/// The bytes that hex text stands for: `None` unless the text has an even
/// number of characters, all of them hex digits.
pub open spec fn hex_decoded(s: Seq<u8>) -> Option<Seq<u8>> {
    if s.len() % 2 == 0 && (forall|i: int| 0 <= i < s.len() ==> is_hex_byte(#[trigger] s[i])) {
        Some(
            Seq::new(
                s.len() / 2,
                |i: int| (hex_value(s[2 * i]) * 16 + hex_value(s[2 * i + 1])) as u8,
            ),
        )
    } else {
        None
    }
}

#[verifier::external_type_specification]
#[verifier::external_body]
pub struct ExFromHexError(hex::FromHexError);

/// `hex::encode`: two lowercase digits per byte, in order.
#[verifier::external_body]
fn hex_encode(data: &[u8]) -> (r: String)
    ensures
        r@ == hex_text(data@),
{
    hex::encode(data)
}

/// `hex::decode`: succeeds exactly on text of even length made of hex digits
/// of either case, and then gives one byte per pair of digits.
#[verifier::external_body]
fn hex_decode(s: &str) -> (r: Result<Vec<u8>, hex::FromHexError>)
    ensures
        match r {
            Ok(v) => hex_decoded(s.spec_bytes()) == Some(v@),
            Err(_) => hex_decoded(s.spec_bytes()) is None,
        },
{
    hex::decode(s)
}

// ---------------------------------------------------------------------------
// HMAC-SHA256.
// ---------------------------------------------------------------------------

/// Inputs to SHA-256 are limited to 2^64 bits; keys and messages stay well
/// below that bound.
pub const HMAC_INPUT_LIMIT: u64 = 0x1000_0000_0000_0000;

/// The HMAC-SHA256 tag of `msg` under `key`.
pub uninterp spec fn hmac_sha256(key: Seq<u8>, msg: Seq<u8>) -> Seq<u8>;

/// `ring::hmac::sign` under the key that `ring::hmac::Key::new(HMAC_SHA256,
/// key)` makes of the key bytes: the 32-byte tag, a function of the key and
/// the message alone, named rather than stated. Inputs near the 2^64-bit
/// SHA-256 limit make `ring` panic and are excluded.
#[verifier::external_body]
fn hmac_sha256_tag(key: &[u8], msg: &[u8]) -> (tag: Vec<u8>)
    requires
        key@.len() < HMAC_INPUT_LIMIT,
        msg@.len() < HMAC_INPUT_LIMIT,
    ensures
        tag@ == hmac_sha256(key@, msg@),
        tag@.len() == 32,
{
    let k = ring::hmac::Key::new(ring::hmac::HMAC_SHA256, key);
    ring::hmac::sign(&k, msg).as_ref().to_vec()
}

// ---------------------------------------------------------------------------
// Errors of the endpoint.
// ---------------------------------------------------------------------------

/// Why a request or a command failed.
#[derive(Clone, Copy, Debug, PartialEq, Eq, Structural)]
pub enum IpcError {
    /// The request carried no `auth_token` string.
    MissingAuthToken,
    /// The token is not the signature of the payload.
    Unauthenticated,
    /// The command name is not known.
    UnknownCommand,
    /// The session holds no torrent with the given id.
    TorrentNotFound,
    /// The torrent is not running.
    TorrentNotLive,
    /// Adding a magnet link gave no new torrent.
    AddFailed,
    /// Seeding a magnet link gave no new torrent.
    SeedFailed,
}

impl IpcError {
    /// The text sent back to the client.
    pub fn message(&self) -> (r: &'static str)
        ensures
            r@ == ipc_error_text(*self),
    {
        match self {
            IpcError::MissingAuthToken => "missing auth_token",
            IpcError::Unauthenticated => "unauthenticated",
            IpcError::UnknownCommand => "unknown cmd",
            IpcError::TorrentNotFound => "Torrent not found",
            IpcError::TorrentNotLive => "Torrent is not live",
            IpcError::AddFailed => "Failed to add torrent",
            IpcError::SeedFailed => "Failed to seed torrent",
        }
    }
}

/// The message of each error.
pub open spec fn ipc_error_text(e: IpcError) -> Seq<char> {
    match e {
        IpcError::MissingAuthToken => "missing auth_token"@,
        IpcError::Unauthenticated => "unauthenticated"@,
        IpcError::UnknownCommand => "unknown cmd"@,
        IpcError::TorrentNotFound => "Torrent not found"@,
        IpcError::TorrentNotLive => "Torrent is not live"@,
        IpcError::AddFailed => "Failed to add torrent"@,
        IpcError::SeedFailed => "Failed to seed torrent"@,
    }
}

// ---------------------------------------------------------------------------
// The shared secret.
// ---------------------------------------------------------------------------

/// Why the shared secret could not be had.
#[derive(Clone, Copy, Debug, PartialEq, Eq, Structural)]
pub enum SecretError {
    /// The secrets file is not TOML.
    NotToml,
    /// The secrets file nests brackets or dotted keys too deeply to be parsed.
    TooNested,
    /// The secrets file has no `secret` string.
    Missing,
    /// The `secret` value is not hex text.
    NotHex,
}

/// The secret from the `secret` entry of the secrets file, given as hex text.
pub fn decode_secret(secret_hex: Option<&str>) -> (r: Result<Vec<u8>, SecretError>)
    ensures
        match secret_hex {
            None => r == Err::<Vec<u8>, SecretError>(SecretError::Missing),
            Some(h) => match hex_decoded(h.spec_bytes()) {
                Some(b) => r is Ok && r->Ok_0@ == b,
                None => r == Err::<Vec<u8>, SecretError>(SecretError::NotHex),
            },
        },
{
    match secret_hex {
        None => Err(SecretError::Missing),
        Some(h) => match hex_decode(h) {
            Ok(v) => Ok(v),
            Err(_) => Err(SecretError::NotHex),
        },
    }
}

/// What `toml::from_slice` reads from `doc` as a `toml::Value`, followed by
/// the top-level `key` and taken as a string: `None` when `doc` is not TOML,
/// `Some(None)` when there is no such string member.
pub uninterp spec fn toml_text(doc: Seq<u8>, key: Seq<char>) -> Option<Option<Seq<char>>>;

/// `toml::from_slice` into a `toml::Value`, then `Value::get(key)` and
/// `Value::as_str`. The parse is named, not stated. The `toml` parser
/// recurses once per nested array, inline table and dotted-key part with no
/// depth limit, so documents with many of them would overflow the stack;
/// they are excluded.
#[verifier::external_body]
fn toml_member_text(doc: &[u8], key: &str) -> (r: Option<Option<String>>)
    requires
        nesting_marks(doc@) <= TOML_NESTING_LIMIT,
    ensures
        match r {
            None => toml_text(doc@, key@) is None,
            Some(None) => toml_text(doc@, key@) == Some(None::<Seq<char>>),
            Some(Some(t)) => toml_text(doc@, key@) == Some(Some(t@)),
        },
{
    let root: toml::Value = match toml::from_slice(doc) {
        Ok(v) => v,
        Err(_) => return None,
    };
    Some(root.get(key).and_then(|v| v.as_str()).map(|t| t.to_string()))
}

/// Most bytes `[`, `{` and `.` a secrets file may hold: each can open one
/// more level of the `toml` parser's recursion.
pub const TOML_NESTING_LIMIT: usize = 1000;

/// Whether a byte can open a nesting level in TOML: `[`, `{` or `.`.
pub open spec fn is_nesting_mark(b: u8) -> bool {
    b == 91u8 || b == 123u8 || b == 46u8
}

/// How many bytes of `doc` can open a nesting level.
pub open spec fn nesting_marks(doc: Seq<u8>) -> nat
    decreases doc.len(),
{
    if doc.len() == 0 {
        0
    } else {
        nesting_marks(doc.drop_last()) + if is_nesting_mark(doc.last()) {
            1nat
        } else {
            0nat
        }
    }
}

/// Counts the bytes of `doc` that can open a nesting level.
fn count_nesting_marks(doc: &[u8]) -> (r: usize)
    ensures
        r == nesting_marks(doc@),
{
    let mut count: usize = 0;
    let mut i: usize = 0;
    while i < doc.len()
        invariant
            i <= doc@.len(),
            count <= i,
            count == nesting_marks(doc@.take(i as int)),
        decreases doc@.len() - i,
    {
        assert(doc@.take(i + 1).drop_last() =~= doc@.take(i as int));
        if doc[i] == 91u8 || doc[i] == 123u8 || doc[i] == 46u8 {
            count = count + 1;
        }
        i = i + 1;
    }
    assert(doc@.take(i as int) =~= doc@);
    count
}

/// The secret from the bytes of the secrets file: the hex text of its
/// `secret` entry, decoded. A file with more than `TOML_NESTING_LIMIT`
/// brackets and dots is refused before it is parsed.
pub fn secret_from_toml(bytes: &[u8]) -> (r: Result<Vec<u8>, SecretError>)
    ensures
        nesting_marks(bytes@) > TOML_NESTING_LIMIT ==> r == Err::<Vec<u8>, SecretError>(
            SecretError::TooNested,
        ),
        nesting_marks(bytes@) <= TOML_NESTING_LIMIT ==> match toml_text(bytes@, "secret"@) {
            None => r == Err::<Vec<u8>, SecretError>(SecretError::NotToml),
            Some(None) => r == Err::<Vec<u8>, SecretError>(SecretError::Missing),
            Some(Some(h)) => match hex_decoded(vstd::utf8::encode_utf8(h)) {
                Some(b) => r is Ok && r->Ok_0@ == b,
                None => r == Err::<Vec<u8>, SecretError>(SecretError::NotHex),
            },
        },
{
    if count_nesting_marks(bytes) > TOML_NESTING_LIMIT {
        return Err(SecretError::TooNested);
    }
    match toml_member_text(bytes, "secret") {
        None => Err(SecretError::NotToml),
        Some(None) => decode_secret(None),
        Some(Some(h)) => decode_secret(Some(h.as_str())),
    }
}

// ---------------------------------------------------------------------------
// Request authentication.
// ---------------------------------------------------------------------------

/// The token that signs `payload`: the lowercase hex of its HMAC-SHA256 tag
/// under the secret.
pub open spec fn signature_text(secret: Seq<u8>, payload: Seq<u8>) -> Seq<char> {
    hex_text(hmac_sha256(secret, payload))
}

/// The token a client must send with `payload` (the serialized JSON payload).
pub fn expected_token(secret: &[u8], payload: &[u8]) -> (r: String)
    requires
        secret@.len() < HMAC_INPUT_LIMIT,
        payload@.len() < HMAC_INPUT_LIMIT,
    ensures
        r@ == signature_text(secret@, payload@),
{
    let tag = hmac_sha256_tag(secret, payload);
    hex_encode(tag.as_slice())
}

/// Compares the token a request carries with the one its payload needs.
pub fn check_token(token: Option<&str>, expected: &str) -> (r: Result<(), IpcError>)
    ensures
        match token {
            None => r == Err::<(), IpcError>(IpcError::MissingAuthToken),
            Some(t) => if t@ == expected@ {
                r == Ok::<(), IpcError>(())
            } else {
                r == Err::<(), IpcError>(IpcError::Unauthenticated)
            },
        },
{
    match token {
        None => Err(IpcError::MissingAuthToken),
        Some(t) => if str_eq(t, expected) {
            Ok(())
        } else {
            Err(IpcError::Unauthenticated)
        },
    }
}

/// Authenticates a request: it is accepted exactly when it carries a token
/// equal to the signature of its payload.
pub fn authenticate(secret: &[u8], token: Option<&str>, payload: &[u8]) -> (r: Result<(), IpcError>)
    requires
        secret@.len() < HMAC_INPUT_LIMIT,
        payload@.len() < HMAC_INPUT_LIMIT,
    ensures
        match token {
            None => r == Err::<(), IpcError>(IpcError::MissingAuthToken),
            Some(t) => if t@ == signature_text(secret@, payload@) {
                r == Ok::<(), IpcError>(())
            } else {
                r == Err::<(), IpcError>(IpcError::Unauthenticated)
            },
        },
{
    match token {
        None => Err(IpcError::MissingAuthToken),
        Some(t) => {
            let expected = expected_token(secret, payload);
            check_token(Some(t), expected.as_str())
        },
    }
}

// ---------------------------------------------------------------------------
// Commands.
// ---------------------------------------------------------------------------

/// What a request read off the socket holds, as the endpoint reads it.
#[derive(Clone, Debug)]
pub struct IpcRequest {
    /// The `cmd` member, when it is a string.
    pub cmd: Option<String>,
    /// The `auth_token` member, when it is a string.
    pub auth_token: Option<String>,
    /// The `payload` member serialized to JSON (`null` when absent).
    pub payload_json: Vec<u8>,
    /// The `magnet` member of the payload, when it is a string.
    pub payload_magnet: Option<String>,
    /// The `tid` member of the payload, when it is an unsigned integer.
    pub payload_tid: Option<u64>,
}

/// The texts of a list of member names.
pub open spec fn names(path: Seq<&str>) -> Seq<Seq<char>> {
    path.map_values(|k: &str| k@)
}

/// What `serde_json::from_slice` reads from `doc` as a `serde_json::Value`,
/// followed through the object members named by `path` and taken as a
/// string; `None` when `doc` is not JSON, a member is missing or the value
/// is not a string.
pub uninterp spec fn json_text(doc: Seq<u8>, path: Seq<Seq<char>>) -> Option<Seq<char>>;

/// As `json_text`, with the value taken as an unsigned 64-bit integer.
pub uninterp spec fn json_unsigned(doc: Seq<u8>, path: Seq<Seq<char>>) -> Option<u64>;

/// As `json_text`, with the value written back by `serde_json::to_vec`.
pub uninterp spec fn json_serialized(doc: Seq<u8>, path: Seq<Seq<char>>) -> Option<Seq<u8>>;

/// `serde_json::from_slice` into a `serde_json::Value`, then `Value::get`
/// along `path` and `Value::as_str`. The parse is named, not stated.
#[verifier::external_body]
fn json_text_at(doc: &[u8], path: &[&str]) -> (r: Option<String>)
    ensures
        match r {
            Some(t) => json_text(doc@, names(path@)) == Some(t@),
            None => json_text(doc@, names(path@)) is None,
        },
{
    let root: serde_json::Value = match serde_json::from_slice(doc) {
        Ok(v) => v,
        Err(_) => return None,
    };
    let mut v = &root;
    for k in path {
        v = v.get(*k)?;
    }
    v.as_str().map(|t| t.to_string())
}

/// `serde_json::from_slice` into a `serde_json::Value`, then `Value::get`
/// along `path` and `Value::as_u64`. The parse is named, not stated.
#[verifier::external_body]
fn json_unsigned_at(doc: &[u8], path: &[&str]) -> (r: Option<u64>)
    ensures
        r == json_unsigned(doc@, names(path@)),
{
    let root: serde_json::Value = match serde_json::from_slice(doc) {
        Ok(v) => v,
        Err(_) => return None,
    };
    let mut v = &root;
    for k in path {
        v = v.get(*k)?;
    }
    v.as_u64()
}

/// `serde_json::from_slice` into a `serde_json::Value`, then `Value::get`
/// along `path` and `serde_json::to_vec` of what is found. Both are named,
/// not stated.
#[verifier::external_body]
fn json_serialized_at(doc: &[u8], path: &[&str]) -> (r: Option<Vec<u8>>)
    ensures
        match r {
            Some(b) => json_serialized(doc@, names(path@)) == Some(b@),
            None => json_serialized(doc@, names(path@)) is None,
        },
{
    let root: serde_json::Value = match serde_json::from_slice(doc) {
        Ok(v) => v,
        Err(_) => return None,
    };
    let mut v = &root;
    for k in path {
        v = v.get(*k)?;
    }
    serde_json::to_vec(v).ok()
}

/// An optional string taken by its text.
pub open spec fn opt_text(s: Option<String>) -> Option<Seq<char>> {
    match s {
        Some(t) => Some(t@),
        None => None,
    }
}

/// The JSON text `null`.
pub open spec fn null_json() -> Seq<u8> {
    seq![110u8, 117u8, 108u8, 108u8]
}

/// Reads a request off the bytes of a connection: its `cmd` and
/// `auth_token` strings, its `payload` as serialized JSON (`null` when there
/// is none, or when the bytes are not JSON), and the payload's `magnet`
/// string and `tid` number.
pub fn parse_request(bytes: &[u8]) -> (r: IpcRequest)
    ensures
        opt_text(r.cmd) == json_text(bytes@, seq!["cmd"@]),
        opt_text(r.auth_token) == json_text(bytes@, seq!["auth_token"@]),
        r.payload_json@ == (match json_serialized(bytes@, seq!["payload"@]) {
            Some(b) => b,
            None => null_json(),
        }),
        opt_text(r.payload_magnet) == json_text(bytes@, seq!["payload"@, "magnet"@]),
        r.payload_tid == json_unsigned(bytes@, seq!["payload"@, "tid"@]),
{
    let cmd_path: Vec<&str> = vec!["cmd"];
    let token_path: Vec<&str> = vec!["auth_token"];
    let payload_path: Vec<&str> = vec!["payload"];
    let magnet_path: Vec<&str> = vec!["payload", "magnet"];
    let tid_path: Vec<&str> = vec!["payload", "tid"];
    proof {
        assert(names(cmd_path@) =~= seq!["cmd"@]);
        assert(names(token_path@) =~= seq!["auth_token"@]);
        assert(names(payload_path@) =~= seq!["payload"@]);
        assert(names(magnet_path@) =~= seq!["payload"@, "magnet"@]);
        assert(names(tid_path@) =~= seq!["payload"@, "tid"@]);
    }
    let payload_json = match json_serialized_at(bytes, payload_path.as_slice()) {
        Some(b) => b,
        None => {
            let v: Vec<u8> = vec![110u8, 117u8, 108u8, 108u8];
            assert(v@ =~= null_json());
            v
        },
    };
    IpcRequest {
        cmd: json_text_at(bytes, cmd_path.as_slice()),
        auth_token: json_text_at(bytes, token_path.as_slice()),
        payload_json,
        payload_magnet: json_text_at(bytes, magnet_path.as_slice()),
        payload_tid: json_unsigned_at(bytes, tid_path.as_slice()),
    }
}

/// A command the endpoint runs against the torrent service.
#[derive(Clone, Debug)]
pub enum IpcCommand {
    /// Add a torrent from a magnet link.
    CreateMagnet(String),
    /// Report the state of a torrent.
    GetState(u64),
}

/// The text of an optional string, empty when absent.
pub open spec fn text_or_empty(s: Option<String>) -> Seq<char> {
    match s {
        Some(t) => t@,
        None => Seq::empty(),
    }
}

/// Whether `r` is the command that `cmd` names with the given payload.
pub open spec fn routes_to(
    cmd: Seq<char>,
    magnet: Seq<char>,
    tid: Option<u64>,
    r: Result<IpcCommand, IpcError>,
) -> bool {
    if cmd == "create_magnet"@ {
        r is Ok && (r->Ok_0 matches IpcCommand::CreateMagnet(m) && m@ == magnet)
    } else if cmd == "get_state"@ {
        r is Ok && (r->Ok_0 matches IpcCommand::GetState(id) && id == match tid {
            Some(n) => n,
            None => 0u64,
        })
    } else {
        r == Err::<IpcCommand, IpcError>(IpcError::UnknownCommand)
    }
}

/// Picks the command: `create_magnet` takes the payload's `magnet` member as
/// its link (empty when there is no such string), `get_state` the payload's
/// `tid` member as the torrent id (0 when there is no such number); any
/// other name is refused.
pub fn route_command(cmd: &str, magnet: Option<&str>, tid: Option<u64>) -> (r:
    Result<IpcCommand, IpcError>)
    ensures
        routes_to(
            cmd@,
            match magnet {
                Some(t) => t@,
                None => Seq::empty(),
            },
            tid,
            r,
        ),
{
    if str_eq(cmd, "create_magnet") {
        let link = match magnet {
            Some(t) => to_string(t),
            None => String::new(),
        };
        Ok(IpcCommand::CreateMagnet(link))
    } else if str_eq(cmd, "get_state") {
        let id: u64 = match tid {
            Some(n) => n,
            None => 0,
        };
        Ok(IpcCommand::GetState(id))
    } else {
        Err(IpcError::UnknownCommand)
    }
}

/// Authenticates a request and picks its command. A request without a
/// string `cmd` names the empty command, which is unknown.
pub fn decide_request(req: &IpcRequest, secret: &[u8]) -> (r: Result<IpcCommand, IpcError>)
    requires
        secret@.len() < HMAC_INPUT_LIMIT,
        req.payload_json@.len() < HMAC_INPUT_LIMIT,
    ensures
        match req.auth_token {
            None => r == Err::<IpcCommand, IpcError>(IpcError::MissingAuthToken),
            Some(t) => if t@ != signature_text(secret@, req.payload_json@) {
                r == Err::<IpcCommand, IpcError>(IpcError::Unauthenticated)
            } else {
                routes_to(
                    text_or_empty(req.cmd),
                    text_or_empty(req.payload_magnet),
                    req.payload_tid,
                    r,
                )
            },
        },
{
    let token: Option<&str> = match &req.auth_token {
        Some(t) => Some(t.as_str()),
        None => None,
    };
    match authenticate(secret, token, req.payload_json.as_slice()) {
        Err(e) => Err(e),
        Ok(()) => {
            let text: Option<&str> = match &req.payload_magnet {
                Some(t) => Some(t.as_str()),
                None => None,
            };
            match &req.cmd {
                Some(c) => route_command(c.as_str(), text, req.payload_tid),
                None => {
                    proof {
                        reveal_strlit("create_magnet");
                        reveal_strlit("get_state");
                        reveal_strlit("");
                        assert(""@.len() != "create_magnet"@.len());
                        assert(""@.len() != "get_state"@.len());
                    }
                    route_command("", text, req.payload_tid)
                },
            }
        },
    }
}

// ---------------------------------------------------------------------------
// Replies of the torrent service.
// ---------------------------------------------------------------------------

/// The outcome of adding a torrent to the session.
#[derive(Clone, Copy, Debug, PartialEq, Eq, Structural)]
pub enum AddTorrentReply {
    /// A new torrent with this id.
    Added(u64),
    /// The torrent was already in the session under this id.
    AlreadyManaged(u64),
    /// Only the file list was read.
    ListOnly,
}

/// The answer to `create_magnet`: the id of a newly added torrent.
pub fn create_magnet_outcome(reply: AddTorrentReply) -> (r: Result<u64, IpcError>)
    ensures
        match reply {
            AddTorrentReply::Added(id) => r == Ok::<u64, IpcError>(id),
            _ => r == Err::<u64, IpcError>(IpcError::AddFailed),
        },
{
    match reply {
        AddTorrentReply::Added(id) => Ok(id),
        _ => Err(IpcError::AddFailed),
    }
}

/// The answer to `seed_magnet`: the id of a newly added torrent.
pub fn seed_magnet_outcome(reply: AddTorrentReply) -> (r: Result<u64, IpcError>)
    ensures
        match reply {
            AddTorrentReply::Added(id) => r == Ok::<u64, IpcError>(id),
            _ => r == Err::<u64, IpcError>(IpcError::SeedFailed),
        },
{
    match reply {
        AddTorrentReply::Added(id) => Ok(id),
        _ => Err(IpcError::SeedFailed),
    }
}

// ---------------------------------------------------------------------------
// Replies written back to the client.
// ---------------------------------------------------------------------------

/// The reply to a refused request or a failed command: `{"error":"<message>"}`.
pub open spec fn error_reply_text(e: IpcError) -> Seq<char> {
    "{\"error\":\""@ + ipc_error_text(e) + "\"}"@
}

/// The reply to a refused request or a failed command. The messages hold no
/// character that JSON escapes.
pub fn error_reply(e: IpcError) -> (r: String)
    ensures
        r@ == error_reply_text(e),
{
    let mut s = to_string("{\"error\":\"");
    push_str(&mut s, e.message());
    push_str(&mut s, "\"}");
    s
}

/// The reply to `create_magnet`: `{"tid":<id>}`.
pub fn tid_reply(id: u64) -> (r: String)
    ensures
        r@ == "{\"tid\":"@ + dec(id as nat) + "}"@,
{
    let mut s = to_string("{\"tid\":");
    push_decimal(&mut s, id as u128);
    push_str(&mut s, "}");
    s
}

} // verus!
