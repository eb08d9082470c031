//! Server configuration: the recognized options, their defaults,
//! the environment overrides, and the validation rules.
//!
//! Reading a configuration file or the process environment is the
//! caller's business; it hands the raw strings in and receives a
//! checked configuration back.

use vstd::prelude::*;

use crate::text::{digits_val, is_digits, spec_split_commas, spec_trim, parse_u64, split_commas, str_eq, trim};

verus! {

/// One ICE (STUN or TURN) server entry.
#[derive(Debug, PartialEq, Eq)]
pub struct IceServerConfig {
    /// Server URLs, such as `stun:stun.l.google.com:19302`.
    pub urls: Vec<String>,
    /// The TURN user name, if the server needs one.
    pub username: Option<String>,
    /// The TURN credential; its presence selects password
    /// authentication.
    pub credential: Option<String>,
}

impl Clone for IceServerConfig {
    fn clone(&self) -> (r: Self)
        ensures
            r.urls@ == self.urls@,
            r.username == self.username,
            r.credential == self.credential,
    {
        IceServerConfig {
            urls: crate::text::clone_strings(&self.urls),
            username: match &self.username {
                Some(u) => Some(u.clone()),
                None => None,
            },
            credential: match &self.credential {
                Some(c) => Some(c.clone()),
                None => None,
            },
        }
    }
}

/// The server's configuration.
#[derive(Debug, PartialEq, Eq)]
pub struct ServerConfig {
    /// WebSocket signaling port.
    pub signaling_port: u16,
    /// Bind address.
    pub listen_address: String,
    /// The ICE servers handed to each peer connection.
    pub ice_servers: Vec<IceServerConfig>,
    /// The most participants one room admits.
    pub max_participants_per_room: usize,
    /// Idle-connection timeout, in seconds.
    pub connection_timeout_secs: u64,
    /// Whether to log verbosely.
    pub verbose_logging: bool,
    /// How often empty rooms are swept, in seconds.
    pub cleanup_interval_secs: u64,
    /// Whether TLS terminates at this server.
    pub tls_enabled: bool,
    /// The TLS certificate path, when TLS is on.
    pub tls_cert_path: Option<String>,
    /// The TLS key path, when TLS is on.
    pub tls_key_path: Option<String>,
}

/// The default signaling port.
pub fn default_signaling_port() -> (r: u16)
    ensures
        r == 8080,
{
    8080
}

/// The default bind address.
pub fn default_listen_address() -> (r: String)
    ensures
        r@ == "0.0.0.0"@,
{
    "0.0.0.0".to_owned()
}

/// The default ICE servers: two public STUN servers and a TURN
/// relay for NAT traversal.
pub fn default_ice_servers() -> (r: Vec<IceServerConfig>)
    ensures
        r@.len() == 3,
        r@[0].urls@.len() == 1 && r@[0].urls@[0]@ == "stun:stun.l.google.com:19302"@
            && r@[0].username is None && r@[0].credential is None,
        r@[1].urls@.len() == 1 && r@[1].urls@[0]@ == "stun:stun1.l.google.com:19302"@
            && r@[1].username is None && r@[1].credential is None,
        r@[2].urls@.len() == 2 && r@[2].urls@[0]@ == "turn:coturn:3478?transport=udp"@
            && r@[2].urls@[1]@ == "turn:coturn:3478?transport=tcp"@
            && (r@[2].username matches Some(u) && u@ == "webrtc"@)
            && (r@[2].credential matches Some(c) && c@ == "secure_password_123"@),
{
    let mut first_urls: Vec<String> = Vec::new();
    first_urls.push("stun:stun.l.google.com:19302".to_owned());
    let mut second_urls: Vec<String> = Vec::new();
    second_urls.push("stun:stun1.l.google.com:19302".to_owned());
    let mut turn_urls: Vec<String> = Vec::new();
    turn_urls.push("turn:coturn:3478?transport=udp".to_owned());
    turn_urls.push("turn:coturn:3478?transport=tcp".to_owned());
    let mut r: Vec<IceServerConfig> = Vec::new();
    r.push(IceServerConfig { urls: first_urls, username: None, credential: None });
    r.push(IceServerConfig { urls: second_urls, username: None, credential: None });
    r.push(IceServerConfig {
        urls: turn_urls,
        username: Some("webrtc".to_owned()),
        credential: Some("secure_password_123".to_owned()),
    });
    r
}

/// The default cap on participants per room.
pub fn default_max_participants() -> (r: usize)
    ensures
        r == 50,
{
    50
}

/// The default idle-connection timeout.
pub fn default_connection_timeout() -> (r: u64)
    ensures
        r == 300,
{
    300
}

/// Verbose logging is off by default.
pub fn default_verbose_logging() -> (r: bool)
    ensures
        !r,
{
    false
}

/// The default empty-room sweep interval.
pub fn default_cleanup_interval() -> (r: u64)
    ensures
        r == 60,
{
    60
}

/// What a default configuration holds.
pub open spec fn is_default_config(c: ServerConfig) -> bool {
    c.signaling_port == 8080 && c.listen_address@ == "0.0.0.0"@ && c.ice_servers@.len() == 3
        && c.max_participants_per_room == 50 && c.connection_timeout_secs == 300
        && !c.verbose_logging && c.cleanup_interval_secs == 60 && !c.tls_enabled
        && c.tls_cert_path is None && c.tls_key_path is None
}

impl Default for ServerConfig {
    /// The configuration used when nothing overrides it.
    fn default() -> (r: Self)
        ensures
            is_default_config(r),
    {
        ServerConfig {
            signaling_port: default_signaling_port(),
            listen_address: default_listen_address(),
            ice_servers: default_ice_servers(),
            max_participants_per_room: default_max_participants(),
            connection_timeout_secs: default_connection_timeout(),
            verbose_logging: default_verbose_logging(),
            cleanup_interval_secs: default_cleanup_interval(),
            tls_enabled: false,
            tls_cert_path: None,
            tls_key_path: None,
        }
    }
}

/// Why a configuration is rejected.
#[derive(Debug, Clone, Copy, PartialEq, Eq, Structural)]
pub enum ConfigError {
    /// The signaling port is zero.
    ZeroPort,
    /// The per-room participant cap is zero.
    ZeroMaxParticipants,
    /// No ICE server is configured.
    NoIceServers,
    /// TLS is enabled but a certificate or key path is missing.
    TlsWithoutCertOrKey,
    /// A numeric override from the environment does not parse.
    BadNumber,
}

impl ConfigError {
    /// The message each rejection prints as.
    pub fn as_str(&self) -> (r: &'static str)
        ensures
            r@ == spec_config_error_text(*self),
    {
        match self {
            ConfigError::ZeroPort => "Signaling port cannot be 0",
            ConfigError::ZeroMaxParticipants => "Max participants per room must be greater than 0",
            ConfigError::NoIceServers => "At least one ICE server must be configured",
            ConfigError::TlsWithoutCertOrKey => "TLS enabled but cert/key paths not provided",
            ConfigError::BadNumber => "Invalid numeric value",
        }
    }
}

/// The message each rejection prints as.
pub open spec fn spec_config_error_text(e: ConfigError) -> Seq<char> {
    match e {
        ConfigError::ZeroPort => "Signaling port cannot be 0"@,
        ConfigError::ZeroMaxParticipants => "Max participants per room must be greater than 0"@,
        ConfigError::NoIceServers => "At least one ICE server must be configured"@,
        ConfigError::TlsWithoutCertOrKey => "TLS enabled but cert/key paths not provided"@,
        ConfigError::BadNumber => "Invalid numeric value"@,
    }
}

impl ServerConfig {
    /// Accepts the configuration exactly when the port and the
    /// participant cap are non-zero, at least one ICE server is
    /// named, and TLS, if enabled, has both a certificate and a key;
    /// the checks run in that order.
    pub fn validate(&self) -> (r: Result<(), ConfigError>)
        ensures
            r == if self.signaling_port == 0 {
                Err::<(), ConfigError>(ConfigError::ZeroPort)
            } else if self.max_participants_per_room == 0 {
                Err::<(), ConfigError>(ConfigError::ZeroMaxParticipants)
            } else if self.ice_servers@.len() == 0 {
                Err::<(), ConfigError>(ConfigError::NoIceServers)
            } else if self.tls_enabled && (self.tls_cert_path is None || self.tls_key_path is None) {
                Err::<(), ConfigError>(ConfigError::TlsWithoutCertOrKey)
            } else {
                Ok::<(), ConfigError>(())
            },
    {
        if self.signaling_port == 0 {
            Err(ConfigError::ZeroPort)
        } else if self.max_participants_per_room == 0 {
            Err(ConfigError::ZeroMaxParticipants)
        } else if self.ice_servers.len() == 0 {
            Err(ConfigError::NoIceServers)
        } else if self.tls_enabled && (self.tls_cert_path.is_none() || self.tls_key_path.is_none()) {
            Err(ConfigError::TlsWithoutCertOrKey)
        } else {
            Ok(())
        }
    }
}

/// The raw environment values the configuration recognizes; the
/// caller reads each variable and passes what it found.
#[derive(Debug, Default)]
pub struct EnvOverrides {
    pub signaling_port: Option<String>,
    pub listen_address: Option<String>,
    pub max_participants: Option<String>,
    pub verbose_logging: Option<String>,
    pub turn_url: Option<String>,
    pub turn_urls: Option<String>,
    pub turn_username: Option<String>,
    pub turn_credential: Option<String>,
    pub tls_enabled: Option<String>,
    pub tls_cert_path: Option<String>,
    pub tls_key_path: Option<String>,
}

/// True when the string reads as a decimal number with the value.
pub open spec fn parses_to(s: Seq<char>, v: int) -> bool {
    is_digits(s) && digits_val(s) == v
}

/// The boolean a string override means: `"true"` turns the flag on,
/// everything else leaves it off.
pub open spec fn spec_flag(s: Seq<char>) -> bool {
    s == "true"@
}

fn flag_of(s: &str) -> (r: bool)
    ensures
        r == spec_flag(s@),
{
    str_eq(s, "true")
}

/// The trimmed, non-empty pieces of a comma-separated list.
pub open spec fn spec_url_list(s: Seq<char>) -> Seq<Seq<char>> {
    spec_split_commas(s, 0, Seq::empty(), Seq::empty()).map_values(|p: Seq<char>| spec_trim(p))
        .filter(|p: Seq<char>| p.len() != 0)
}

/// Splits a comma-separated URL list, trimming each piece and
/// dropping the empty ones.
pub fn parse_url_list(s: &str) -> (r: Vec<String>)
    ensures
        r@.map_values(|p: String| p@) == spec_url_list(s@),
{
    let pieces = split_commas(s);
    let ghost trimmed = spec_split_commas(s@, 0, Seq::empty(), Seq::empty()).map_values(
        |p: Seq<char>| spec_trim(p),
    );
    let ghost pred = |p: Seq<char>| p.len() != 0;
    let mut r: Vec<String> = Vec::new();
    let mut i: usize = 0;
    proof {
        reveal(Seq::filter);
    }
    while i < pieces.len()
        invariant
            i <= pieces.len(),
            trimmed.len() == pieces@.len(),
            forall|k: int| 0 <= k < pieces@.len() ==> trimmed[k] == spec_trim(
                (#[trigger] pieces@[k])@,
            ),
            pred == (|p: Seq<char>| p.len() != 0),
            r@.map_values(|p: String| p@) =~= trimmed.take(i as int).filter(pred),
        decreases pieces.len() - i,
    {
        proof {
            reveal(Seq::filter);
            assert(trimmed.take(i + 1).drop_last() =~= trimmed.take(i as int));
            assert(trimmed.take(i + 1).last() == trimmed[i as int]);
        }
        let piece = trim(pieces[i].as_str());
        if piece.unicode_len() != 0 {
            let ghost rv = r@.map_values(|p: String| p@);
            let ghost pv = piece@;
            r.push(piece);
            proof {
                assert(r@.map_values(|p: String| p@) =~= rv.push(pv));
            }
        }
        i = i + 1;
    }
    proof {
        assert(trimmed.take(pieces@.len() as int) =~= trimmed);
    }
    r
}

/// Builds the configuration from environment overrides: defaults
/// first, each recognized value on top, a TURN server appended when
/// one is named.  A port or participant cap that does not read as a
/// number is refused; a malformed boolean simply counts as off.
pub fn from_env(env: &EnvOverrides) -> (r: Result<ServerConfig, ConfigError>)
    ensures
        ({
            let port_bad = env.signaling_port matches Some(p) && !(is_digits(p@) && digits_val(p@)
                <= u16::MAX);
            let cap_bad = env.max_participants matches Some(m) && !(is_digits(m@) && digits_val(m@)
                <= usize::MAX);
            if port_bad || cap_bad {
                r is Err
            } else {
                r matches Ok(c) && {
                    &&& (match env.signaling_port {
                        Some(p) => parses_to(p@, c.signaling_port as int),
                        None => c.signaling_port == 8080,
                    })
                    &&& (match env.listen_address {
                        Some(a) => c.listen_address@ == a@,
                        None => c.listen_address@ == "0.0.0.0"@,
                    })
                    &&& (match env.max_participants {
                        Some(m) => parses_to(m@, c.max_participants_per_room as int),
                        None => c.max_participants_per_room == 50,
                    })
                    &&& (match env.verbose_logging {
                        Some(v) => c.verbose_logging == spec_flag(v@),
                        None => !c.verbose_logging,
                    })
                    &&& (match env.tls_enabled {
                        Some(v) => c.tls_enabled == spec_flag(v@),
                        None => !c.tls_enabled,
                    })
                    &&& c.tls_cert_path == env.tls_cert_path
                    &&& c.tls_key_path == env.tls_key_path
                    &&& c.connection_timeout_secs == 300
                    &&& c.cleanup_interval_secs == 60
                    &&& ({
                        let base: int = 3;
                        let with_one = base + (if env.turn_url is Some { 1int } else { 0int });
                        let urls = (match env.turn_urls {
                            Some(u) => spec_url_list(u@),
                            None => Seq::empty(),
                        });
                        let with_many = with_one + (if urls.len() > 0 { 1int } else { 0int });
                        &&& c.ice_servers@.len() == with_many
                        &&& (env.turn_url matches Some(u) ==> c.ice_servers@[base].urls@.len() == 1
                            && c.ice_servers@[base].urls@[0]@ == u@
                            && c.ice_servers@[base].username == env.turn_username
                            && c.ice_servers@[base].credential == env.turn_credential)
                        &&& (urls.len() > 0 ==> c.ice_servers@[with_many - 1].urls@.map_values(
                            |p: String| p@,
                        ) == urls
                            && c.ice_servers@[with_many - 1].username == env.turn_username
                            && c.ice_servers@[with_many - 1].credential == env.turn_credential)
                    })
                }
            }
        }),
{
    let mut config = ServerConfig::default();
    match &env.signaling_port {
        Some(p) => {
            match parse_u64(p.as_str()) {
                Some(v) if v <= u16::MAX as u64 => {
                    config.signaling_port = v as u16;
                },
                _ => {
                    return Err(ConfigError::BadNumber);
                },
            }
        },
        None => {},
    }
    match &env.listen_address {
        Some(a) => {
            config.listen_address = a.clone();
        },
        None => {},
    }
    match &env.max_participants {
        Some(m) => {
            match parse_u64(m.as_str()) {
                Some(v) if v <= usize::MAX as u64 => {
                    config.max_participants_per_room = v as usize;
                },
                _ => {
                    return Err(ConfigError::BadNumber);
                },
            }
        },
        None => {},
    }
    match &env.verbose_logging {
        Some(v) => {
            config.verbose_logging = flag_of(v.as_str());
        },
        None => {},
    }
    match &env.turn_url {
        Some(u) => {
            let mut urls: Vec<String> = Vec::new();
            urls.push(u.clone());
            config.ice_servers.push(IceServerConfig {
                urls,
                username: match &env.turn_username {
                    Some(n) => Some(n.clone()),
                    None => None,
                },
                credential: match &env.turn_credential {
                    Some(c) => Some(c.clone()),
                    None => None,
                },
            });
        },
        None => {},
    }
    match &env.turn_urls {
        Some(u) => {
            let urls = parse_url_list(u.as_str());
            if urls.len() > 0 {
                config.ice_servers.push(IceServerConfig {
                    urls,
                    username: match &env.turn_username {
                        Some(n) => Some(n.clone()),
                        None => None,
                    },
                    credential: match &env.turn_credential {
                        Some(c) => Some(c.clone()),
                        None => None,
                    },
                });
            }
        },
        None => {},
    }
    match &env.tls_enabled {
        Some(v) => {
            config.tls_enabled = flag_of(v.as_str());
        },
        None => {},
    }
    config.tls_cert_path = match &env.tls_cert_path {
        Some(p) => Some(p.clone()),
        None => None,
    };
    config.tls_key_path = match &env.tls_key_path {
        Some(p) => Some(p.clone()),
        None => None,
    };
    Ok(config)
}

/// Per-room options layered over the server configuration.
#[derive(Debug, PartialEq, Eq)]
pub struct RoomConfig {
    pub id: String,
    /// A cap for this room alone, if tighter than the server's.
    pub max_participants: Option<usize>,
    /// A password the room demands, if any.
    pub password: Option<String>,
    /// Whether screen sharing is allowed here.
    pub screen_sharing_enabled: bool,
    /// Whether recording is on.
    pub recording_enabled: bool,
}

/// Screen sharing defaults to allowed.
pub fn default_true() -> (r: bool)
    ensures
        r,
{
    true
}

impl Default for RoomConfig {
    /// An unnamed room: no cap of its own, no password, screen
    /// sharing allowed, recording off.
    fn default() -> (r: Self)
        ensures
            r.id@ == Seq::<char>::empty(),
            r.max_participants is None,
            r.password is None,
            r.screen_sharing_enabled,
            !r.recording_enabled,
    {
        RoomConfig {
            id: String::new(),
            max_participants: None,
            password: None,
            screen_sharing_enabled: true,
            recording_enabled: false,
        }
    }
}

} // verus!
