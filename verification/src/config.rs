//! Configuration: validation of the raw environment values and the
//! wall-clock schedule arithmetic of the rotation scheduler.

use vstd::prelude::*;

pub use crate::manager::IpRotationConfig;
use crate::manager::RotationConfigV;
use crate::clock::now_local_hms;
use crate::text::{dec_value, is_dec_numeral, parse_u32, str_eq};

verus! {

/// Why a configuration was rejected at startup. Fatal: the service does not
/// come up on a rejected configuration.
#[derive(Clone, Copy, Debug, PartialEq, Eq, Structural)]
pub enum ConfigError {
    MissingUsername,
    MissingPassword,
    InvalidSessionCount,
    SessionCountTooLarge,
    MissingDiscordToken,
    MissingRotationTime,
    MissingWaitSeconds,
    InvalidRotationTime,
    InvalidWaitSeconds,
    MissingGateway,
}

/// The validated application configuration.
pub struct AppConfig {
    pub username: String,
    pub password: String,
    pub session_count: u16,
    pub ip_rotation: IpRotationConfig,
    pub logger_level: String,
    pub discord_token: String,
    pub discord_guild_id: Option<u64>,
    pub gateway: String,
}

/// Mathematical image of an `AppConfig`.
pub ghost struct AppConfigV {
    pub username: Seq<char>,
    pub password: Seq<char>,
    pub session_count: int,
    pub ip_rotation: RotationConfigV,
    pub logger_level: Seq<char>,
    pub discord_token: Seq<char>,
    pub discord_guild_id: Option<int>,
    pub gateway: Seq<char>,
}

impl View for AppConfig {
    type V = AppConfigV;

    open spec fn view(&self) -> AppConfigV {
        AppConfigV {
            username: self.username@,
            password: self.password@,
            session_count: self.session_count as int,
            ip_rotation: self.ip_rotation@,
            logger_level: self.logger_level@,
            discord_token: self.discord_token@,
            discord_guild_id: match self.discord_guild_id {
                Some(g) => Some(g as int),
                None => None,
            },
            gateway: self.gateway@,
        }
    }
}

/// The raw environment values the configuration is built from; `None` is an
/// unset variable.
pub struct ConfigSource {
    pub username: Option<String>,
    pub password: Option<String>,
    pub session_count: Option<String>,
    pub discord_token: Option<String>,
    pub discord_guild_id: Option<String>,
    pub logger_level: Option<String>,
    pub rotation_time: Option<String>,
    pub wait_seconds: Option<String>,
    pub health_check_enabled: Option<String>,
    pub health_check_interval: Option<String>,
    pub health_check_threshold: Option<String>,
    pub health_check_target: Option<String>,
    pub gateway: Option<String>,
}

/// Mathematical image of a `ConfigSource`.
pub ghost struct ConfigSourceV {
    pub username: Option<Seq<char>>,
    pub password: Option<Seq<char>>,
    pub session_count: Option<Seq<char>>,
    pub discord_token: Option<Seq<char>>,
    pub discord_guild_id: Option<Seq<char>>,
    pub logger_level: Option<Seq<char>>,
    pub rotation_time: Option<Seq<char>>,
    pub wait_seconds: Option<Seq<char>>,
    pub health_check_enabled: Option<Seq<char>>,
    pub health_check_interval: Option<Seq<char>>,
    pub health_check_threshold: Option<Seq<char>>,
    pub health_check_target: Option<Seq<char>>,
    pub gateway: Option<Seq<char>>,
}

/// View of an optional string.
pub open spec fn os_view(o: Option<String>) -> Option<Seq<char>> {
    match o {
        Some(s) => Some(s@),
        None => None,
    }
}

impl View for ConfigSource {
    type V = ConfigSourceV;

    open spec fn view(&self) -> ConfigSourceV {
        ConfigSourceV {
            username: os_view(self.username),
            password: os_view(self.password),
            session_count: os_view(self.session_count),
            discord_token: os_view(self.discord_token),
            discord_guild_id: os_view(self.discord_guild_id),
            logger_level: os_view(self.logger_level),
            rotation_time: os_view(self.rotation_time),
            wait_seconds: os_view(self.wait_seconds),
            health_check_enabled: os_view(self.health_check_enabled),
            health_check_interval: os_view(self.health_check_interval),
            health_check_threshold: os_view(self.health_check_threshold),
            health_check_target: os_view(self.health_check_target),
            gateway: os_view(self.gateway),
        }
    }
}

/// Position `i` holds the only colon of `s`.
pub open spec fn colon_at(s: Seq<char>, i: int) -> bool {
    &&& 0 <= i < s.len()
    &&& s[i] == ':'
    &&& forall|j: int| 0 <= j < s.len() && j != i ==> s[j] != ':'
}

/// `s` is a wall-clock time `HH:MM`: one colon, a numeric hour below 24
/// before it, a numeric minute below 60 after it.
pub open spec fn is_hhmm(s: Seq<char>) -> bool {
    exists|i: int|
        {
            &&& #[trigger] colon_at(s, i)
            &&& is_dec_numeral(s.take(i), u32::MAX as int)
            &&& is_dec_numeral(s.skip(i + 1), u32::MAX as int)
            &&& dec_value(s.take(i)) < 24
            &&& dec_value(s.skip(i + 1)) < 60
        }
}

/// Splits a wall-clock time `HH:MM` into hour and minute.
pub fn parse_hhmm(s: &str) -> (r: Option<(u32, u32)>)
    ensures
        match r {
            Some((h, m)) => is_hhmm(s@) && h < 24 && m < 60 && exists|i: int|
                #[trigger] colon_at(s@, i) && h as int == dec_value(s@.take(i)) && m as int
                    == dec_value(s@.skip(i + 1)),
            None => !is_hhmm(s@),
        },
{
    let len = s.unicode_len();
    let mut i: usize = 0;
    let mut colon: usize = 0;
    let mut count: usize = 0;
    let ghost mut c1: int = 0;
    let ghost mut c2: int = 0;
    while i < len
        invariant
            len == s@.len(),
            0 <= i <= len,
            count == 0 ==> forall|j: int| 0 <= j < i ==> s@[j] != ':',
            count == 1 ==> 0 <= colon < i && s@[colon as int] == ':' && forall|j: int|
                0 <= j < i && j != colon ==> s@[j] != ':',
            count >= 2 ==> 0 <= c1 < c2 < i && s@[c1] == ':' && s@[c2] == ':',
        decreases len - i,
    {
        if s.get_char(i) == ':' {
            if count == 0 {
                colon = i;
            } else if count == 1 {
                proof {
                    c1 = colon as int;
                    c2 = i as int;
                }
            }
            if count < 2 {
                count += 1;
            }
        }
        i += 1;
    }
    if count != 1 {
        proof {
            if count >= 2 {
                assert forall|k: int| !(#[trigger] colon_at(s@, k)) by {
                    if colon_at(s@, k) {
                        if k != c1 {
                            assert(s@[c1] != ':');
                        } else {
                            assert(s@[c2] != ':');
                        }
                    }
                }
            }
        }
        return None;
    }
    let hour_part = s.substring_char(0, colon);
    let minute_part = s.substring_char(colon + 1, len);
    proof {
        assert(hour_part@ =~= s@.take(colon as int));
        assert(minute_part@ =~= s@.skip(colon as int + 1));
        assert(colon_at(s@, colon as int));
        assert forall|k: int| #[trigger] colon_at(s@, k) implies k == colon as int by {
            if k != colon as int {
                assert(s@[colon as int] != ':');
            }
        }
    }
    let h = match parse_u32(hour_part) {
        Some(h) => h,
        None => {
            return None;
        },
    };
    let m = match parse_u32(minute_part) {
        Some(m) => m,
        None => {
            return None;
        },
    };
    if h < 24 && m < 60 {
        Some((h, m))
    } else {
        None
    }
}

/// Whether `time` is a valid `HH:MM` wall-clock rotation time.
pub fn is_valid_time_format(time: &str) -> (r: bool)
    ensures
        r == is_hhmm(time@),
{
    parse_hhmm(time).is_some()
}

/// Seconds from the time of day `(now_h, now_m, now_s)` until the next
/// occurrence of the wall-clock time `h:m` — rolling to tomorrow when that
/// time of day has already passed.
pub open spec fn seconds_until_spec(h: int, m: int, now_h: int, now_m: int, now_s: int) -> int {
    let target = h * 3600 + m * 60;
    let now = now_h * 3600 + now_m * 60 + now_s;
    if target < now {
        target + 86400 - now
    } else {
        target - now
    }
}

/// Computes the wait until the next occurrence of the wall-clock time `h:m`.
pub fn seconds_until_hhmm(h: u32, m: u32, now_h: u32, now_m: u32, now_s: u32) -> (r: u32)
    requires
        h < 24,
        m < 60,
        now_h < 24,
        now_m < 60,
        now_s < 60,
    ensures
        r as int == seconds_until_spec(h as int, m as int, now_h as int, now_m as int, now_s as int),
        r < 86400,
{
    let target: u32 = h * 3600 + m * 60;
    let now: u32 = now_h * 3600 + now_m * 60 + now_s;
    if target < now {
        target + 86400 - now
    } else {
        target - now
    }
}

/// Seconds until the next occurrence of the wall-clock time `time_str`
/// (`HH:MM`), read against the local clock; rejects anything else.
pub fn time_string_to_sec(time_str: &str) -> (r: Result<u32, ConfigError>)
    ensures
        match r {
            Ok(v) => is_hhmm(time_str@) && v < 86400,
            Err(e) => !is_hhmm(time_str@) && e == ConfigError::InvalidRotationTime,
        },
{
    match parse_hhmm(time_str) {
        Some((h, m)) => {
            let (now_h, now_m, now_s) = now_local_hms();
            Ok(seconds_until_hhmm(h, m, now_h, now_m, now_s))
        },
        None => Err(ConfigError::InvalidRotationTime),
    }
}

/// A numeral read with a fallback: an absent or unparseable value becomes
/// `default`.
pub open spec fn parsed_or(o: Option<Seq<char>>, bound: int, default: int) -> int {
    match o {
        None => default,
        Some(t) => if is_dec_numeral(t, bound) {
            dec_value(t)
        } else {
            default
        },
    }
}

/// A boolean read with a fallback: only the literal words count.
pub open spec fn bool_or(o: Option<Seq<char>>, default: bool) -> bool {
    match o {
        None => default,
        Some(t) => if t == "true"@ {
            true
        } else if t == "false"@ {
            false
        } else {
            default
        },
    }
}

/// A value read with a textual fallback.
pub open spec fn text_or(o: Option<Seq<char>>, default: Seq<char>) -> Seq<char> {
    match o {
        None => default,
        Some(t) => t,
    }
}

/// The session count a source asks for (the sanity bound comes separately).
pub open spec fn session_count_of(s: ConfigSourceV) -> int {
    match s.session_count {
        None => 1,
        Some(t) => dec_value(t),
    }
}

/// The first reason to reject a source, in the order the checks run;
/// `None` when the configuration is acceptable. A session count above
/// seven is rejected so that the session policy tables `101 + i` never
/// collide with the uplink table `100`'s block.
pub open spec fn config_error_of(s: ConfigSourceV) -> Option<ConfigError> {
    if s.username is None {
        Some(ConfigError::MissingUsername)
    } else if s.password is None {
        Some(ConfigError::MissingPassword)
    } else if !(match s.session_count {
        None => true,
        Some(t) => is_dec_numeral(t, u16::MAX as int),
    }) {
        Some(ConfigError::InvalidSessionCount)
    } else if session_count_of(s) > 7 {
        Some(ConfigError::SessionCountTooLarge)
    } else if s.discord_token is None {
        Some(ConfigError::MissingDiscordToken)
    } else if s.rotation_time is None {
        Some(ConfigError::MissingRotationTime)
    } else if s.wait_seconds is None {
        Some(ConfigError::MissingWaitSeconds)
    } else if !(is_hhmm(s.rotation_time->0) || is_dec_numeral(s.rotation_time->0, u32::MAX as int)) {
        Some(ConfigError::InvalidRotationTime)
    } else if !is_dec_numeral(s.wait_seconds->0, u32::MAX as int) {
        Some(ConfigError::InvalidWaitSeconds)
    } else if s.gateway is None {
        Some(ConfigError::MissingGateway)
    } else {
        None
    }
}

/// The configuration an acceptable source denotes.
pub open spec fn config_of(s: ConfigSourceV) -> AppConfigV {
    AppConfigV {
        username: s.username->0,
        password: s.password->0,
        session_count: session_count_of(s),
        ip_rotation: RotationConfigV {
            rotation_time: s.rotation_time->0,
            wait_seconds: dec_value(s.wait_seconds->0),
            health_check_enabled: bool_or(s.health_check_enabled, true),
            health_check_interval_secs: parsed_or(s.health_check_interval, u32::MAX as int, 30),
            health_check_failure_threshold: parsed_or(s.health_check_threshold, u32::MAX as int, 3),
            health_check_target: text_or(s.health_check_target, "8.8.8.8"@),
        },
        logger_level: text_or(s.logger_level, "warn"@),
        discord_token: s.discord_token->0,
        discord_guild_id: match s.discord_guild_id {
            None => None,
            Some(t) => if is_dec_numeral(t, u64::MAX as int) {
                Some(dec_value(t))
            } else {
                None
            },
        },
        gateway: s.gateway->0,
    }
}

impl AppConfig {
    /// Validates raw environment values into a configuration, or says
    /// exactly why they are rejected. In particular a session count above
    /// seven is rejected.
    pub fn build(src: ConfigSource) -> (r: Result<AppConfig, ConfigError>)
        ensures
            match r {
                Ok(c) => config_error_of(src@) is None && c@ == config_of(src@),
                Err(e) => config_error_of(src@) == Some(e),
            },
    {
        let ghost sv = src@;
        let username = match src.username {
            Some(u) => u,
            None => {
                return Err(ConfigError::MissingUsername);
            },
        };
        let password = match src.password {
            Some(p) => p,
            None => {
                return Err(ConfigError::MissingPassword);
            },
        };
        let session_count: u16 = match src.session_count {
            None => 1,
            Some(t) => {
                match parse_u32(t.as_str()) {
                    Some(v) => {
                        if v <= 65535 {
                            v as u16
                        } else {
                            return Err(ConfigError::InvalidSessionCount);
                        }
                    },
                    None => {
                        return Err(ConfigError::InvalidSessionCount);
                    },
                }
            },
        };
        if session_count > 7 {
            return Err(ConfigError::SessionCountTooLarge);
        }
        let discord_token = match src.discord_token {
            Some(t) => t,
            None => {
                return Err(ConfigError::MissingDiscordToken);
            },
        };
        let rotation_time = match src.rotation_time {
            Some(t) => t,
            None => {
                return Err(ConfigError::MissingRotationTime);
            },
        };
        let wait_seconds_str = match src.wait_seconds {
            Some(t) => t,
            None => {
                return Err(ConfigError::MissingWaitSeconds);
            },
        };
        let rotation_is_hhmm = is_valid_time_format(rotation_time.as_str());
        let rotation_is_minutes = parse_u32(rotation_time.as_str()).is_some();
        if !rotation_is_hhmm && !rotation_is_minutes {
            return Err(ConfigError::InvalidRotationTime);
        }
        let wait_seconds = match parse_u32(wait_seconds_str.as_str()) {
            Some(v) => v,
            None => {
                return Err(ConfigError::InvalidWaitSeconds);
            },
        };
        let gateway = match src.gateway {
            Some(g) => g,
            None => {
                return Err(ConfigError::MissingGateway);
            },
        };
        let health_check_enabled: bool = match &src.health_check_enabled {
            None => true,
            Some(t) => {
                if str_eq(t.as_str(), "true") {
                    true
                } else if str_eq(t.as_str(), "false") {
                    false
                } else {
                    true
                }
            },
        };
        let health_check_interval_secs: u64 = match &src.health_check_interval {
            None => 30,
            Some(t) => {
                match parse_u32(t.as_str()) {
                    Some(v) => v as u64,
                    None => 30,
                }
            },
        };
        let health_check_failure_threshold: u32 = match &src.health_check_threshold {
            None => 3,
            Some(t) => {
                match parse_u32(t.as_str()) {
                    Some(v) => v,
                    None => 3,
                }
            },
        };
        let health_check_target: String = match src.health_check_target {
            Some(t) => t,
            None => "8.8.8.8".to_owned(),
        };
        let logger_level: String = match src.logger_level {
            Some(t) => t,
            None => "warn".to_owned(),
        };
        let discord_guild_id: Option<u64> = match &src.discord_guild_id {
            None => None,
            Some(t) => parse_guild_id(t.as_str()),
        };
        let ip_rotation = IpRotationConfig {
            rotation_time,
            wait_seconds,
            health_check_enabled,
            health_check_interval_secs,
            health_check_failure_threshold,
            health_check_target,
        };
        let c = AppConfig {
            username,
            password,
            session_count,
            ip_rotation,
            logger_level,
            discord_token,
            discord_guild_id,
            gateway,
        };
        proof {
            // A numeral's value is non-negative, so the guild id survives
            // the round trip through `u64` unchanged.
            match sv.discord_guild_id {
                Some(t) => {
                    if is_dec_numeral(t, u64::MAX as int) {
                        crate::text::lemma_dec_value_nonneg(t);
                    }
                },
                None => {},
            }
        }
        Ok(c)
    }
}

/// Parses the optional guild id; anything unparseable is simply absent.
fn parse_guild_id(t: &str) -> (r: Option<u64>)
    ensures
        r == (if is_dec_numeral(t@, u64::MAX as int) {
            Some(dec_value(t@) as u64)
        } else {
            None::<u64>
        }),
{
    match crate::text::parse_u64(t) {
        Some(v) => Some(v),
        None => None,
    }
}

} // verus!
