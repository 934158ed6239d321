//! Handling of a client's requests: authentication, channels, environment variables.
//!
//! Each function decides what a request is answered and what becomes of the state.
//! Where state changes only once the answer was sent, the caller sends the answer and
//! then calls the function that takes note of it.
//!
//! While `first_login` is set the device accepts any client, which may then set
//! `SSH_STAMP_PUBKEY`. From then on that key is asked for.

pub mod answers;
pub mod env_parser;
pub mod laws;
pub mod session;
pub mod values;
pub mod variables;

use vstd::prelude::*;

use crate::config;
use crate::config::SSHStampConfig;
use crate::errors::StampError;
use crate::hal;
use crate::hal::UartParams;
use crate::outside;
use crate::text;

verus! {

/// What is kept for a connection; `H` is the handle of a channel.
pub struct EventContext<H> {
    /// The channel that a session was opened on.
    pub session: Option<H>,
    /// The client has authenticated.
    pub auth_checked: bool,
    /// The configuration was changed and is not saved yet.
    pub config_changed: bool,
    /// A change takes effect after a reset.
    pub needs_reset: bool,
    /// A CAN session was dispatched on this connection. A firmware update needs all of
    /// the bandwidth, so it is refused from then on.
    pub can_dispatched: bool,
}

/// The answer to a request.
#[derive(Clone, Copy, Debug, PartialEq, Eq, Structural)]
pub enum Answer {
    Succeed,
    Fail,
    /// No answer: the request holds something that is not text, which is an error.
    BadText,
}

/// What is to be noted once the answer was sent.
#[derive(Clone, Copy, Debug, PartialEq, Eq, Structural)]
pub enum Effect {
    Nothing,
    /// A setting was changed.
    SettingChanged,
    /// A client key was added.
    KeyAdded,
}

/// What comes of a request to set an environment variable.
#[derive(Clone, Copy, Debug, PartialEq, Eq)]
pub struct EnvOutcome {
    pub answer: Answer,
    pub effect: Effect,
    /// The error to return once the request was refused.
    pub error: Option<StampError>,
}

/// A UART line parameter, one per `SSH_STAMP_UART_*` environment variable.
#[derive(Clone, Copy, Debug, PartialEq, Eq, Structural)]
pub enum UartParam {
    Baud,
    DataBits,
    Parity,
    StopBits,
}

impl UartParam {
    /// The name of the environment variable for this parameter.
    pub open spec fn name(self) -> Seq<char> {
        match self {
            UartParam::Baud => "SSH_STAMP_UART_BAUD"@,
            UartParam::DataBits => "SSH_STAMP_UART_DATA_BITS"@,
            UartParam::Parity => "SSH_STAMP_UART_PARITY"@,
            UartParam::StopBits => "SSH_STAMP_UART_STOP_BITS"@,
        }
    }

    /// The values that this parameter accepts, in words.
    pub open spec fn range(self) -> Seq<char> {
        match self {
            UartParam::Baud => "300-5000000"@,
            UartParam::DataBits => "5-8"@,
            UartParam::Parity => "none, even or odd"@,
            UartParam::StopBits => "1 or 2"@,
        }
    }

    /// The environment variable that this parameter is set from.
    pub fn env_name(self) -> (s: &'static str)
        ensures
            s@ == self.name(),
    {
        match self {
            UartParam::Baud => "SSH_STAMP_UART_BAUD",
            UartParam::DataBits => "SSH_STAMP_UART_DATA_BITS",
            UartParam::Parity => "SSH_STAMP_UART_PARITY",
            UartParam::StopBits => "SSH_STAMP_UART_STOP_BITS",
        }
    }

    /// The values that this parameter accepts, for the log.
    pub fn accepted(self) -> (s: &'static str)
        ensures
            s@ == self.range(),
    {
        match self {
            UartParam::Baud => "300-5000000",
            UartParam::DataBits => "5-8",
            UartParam::Parity => "none, even or odd",
            UartParam::StopBits => "1 or 2",
        }
    }
}

/// An environment variable, by what it does.
#[derive(Clone, Copy, Debug, PartialEq, Eq, Structural)]
pub enum EnvVar {
    /// One that has no effect.
    Ignored,
    Pubkey,
    WifiApSsid,
    WifiApPsk,
    WifiBand,
    WifiStaSsid,
    WifiStaPsk,
    MacAddress,
    MacRandom,
    Uart(UartParam),
}

impl EnvVar {
    /// The variable with this name.
    pub open spec fn named(name: Seq<char>) -> EnvVar {
        if name == "SSH_STAMP_PUBKEY"@ {
            EnvVar::Pubkey
        } else if name == "SSH_STAMP_WIFI_AP_SSID"@ {
            EnvVar::WifiApSsid
        } else if name == "SSH_STAMP_WIFI_AP_PSK"@ {
            EnvVar::WifiApPsk
        } else if name == "SSH_STAMP_WIFI_BAND"@ {
            EnvVar::WifiBand
        } else if name == "SSH_STAMP_WIFI_STA_SSID"@ {
            EnvVar::WifiStaSsid
        } else if name == "SSH_STAMP_WIFI_STA_PSK"@ || name == "SSH_STAMP_WIFI_STA_PW"@ {
            EnvVar::WifiStaPsk
        } else if name == "SSH_STAMP_WIFI_MAC_ADDRESS"@ {
            EnvVar::MacAddress
        } else if name == "SSH_STAMP_WIFI_MAC_RANDOM"@ {
            EnvVar::MacRandom
        } else if name == UartParam::Baud.name() {
            EnvVar::Uart(UartParam::Baud)
        } else if name == UartParam::DataBits.name() {
            EnvVar::Uart(UartParam::DataBits)
        } else if name == UartParam::Parity.name() {
            EnvVar::Uart(UartParam::Parity)
        } else if name == UartParam::StopBits.name() {
            EnvVar::Uart(UartParam::StopBits)
        } else {
            EnvVar::Ignored
        }
    }

    pub fn from_name(name: &str) -> (v: EnvVar)
        ensures
            v == EnvVar::named(name@),
    {
        if text::equals(name, "SSH_STAMP_PUBKEY") {
            EnvVar::Pubkey
        } else if text::equals(name, "SSH_STAMP_WIFI_AP_SSID") {
            EnvVar::WifiApSsid
        } else if text::equals(name, "SSH_STAMP_WIFI_AP_PSK") {
            EnvVar::WifiApPsk
        } else if text::equals(name, "SSH_STAMP_WIFI_BAND") {
            EnvVar::WifiBand
        } else if text::equals(name, "SSH_STAMP_WIFI_STA_SSID") {
            EnvVar::WifiStaSsid
        } else if text::equals(name, "SSH_STAMP_WIFI_STA_PSK") || text::equals(
            name,
            "SSH_STAMP_WIFI_STA_PW",
        ) {
            EnvVar::WifiStaPsk
        } else if text::equals(name, "SSH_STAMP_WIFI_MAC_ADDRESS") {
            EnvVar::MacAddress
        } else if text::equals(name, "SSH_STAMP_WIFI_MAC_RANDOM") {
            EnvVar::MacRandom
        } else if text::equals(name, UartParam::Baud.env_name()) {
            EnvVar::Uart(UartParam::Baud)
        } else if text::equals(name, UartParam::DataBits.env_name()) {
            EnvVar::Uart(UartParam::DataBits)
        } else if text::equals(name, UartParam::Parity.env_name()) {
            EnvVar::Uart(UartParam::Parity)
        } else if text::equals(name, UartParam::StopBits.env_name()) {
            EnvVar::Uart(UartParam::StopBits)
        } else {
            EnvVar::Ignored
        }
    }
}

// ---------------------------------------------------------------------------
// What a variable sets
// ---------------------------------------------------------------------------

/// The line parameters after one was set to `value`, if that is accepted.
pub open spec fn uart_setting(param: UartParam, p: UartParams, value: Seq<char>) -> Option<
    UartParams,
> {
    match param {
        UartParam::Baud => match env_parser::number(value) {
            Some(n) if 300 <= n <= 5_000_000 => Some(UartParams { baud: n as u32, ..p }),
            _ => None,
        },
        UartParam::DataBits => match env_parser::number(value) {
            Some(n) if 5 <= n <= 8 => Some(UartParams { data_bits: n as u8, ..p }),
            _ => None,
        },
        UartParam::Parity => match hal::Parity::named(outside::trimmed(value)) {
            Some(parity) => Some(UartParams { parity, ..p }),
            None => None,
        },
        UartParam::StopBits => match env_parser::number(value) {
            Some(n) if n == 1 || n == 2 => Some(UartParams { stop_bits: n as u8, ..p }),
            _ => None,
        },
    }
}

/// The configuration after a variable was set to `value`, if that is accepted. The
/// public key is not a setting.
pub open spec fn setting(var: EnvVar, c: config::ConfigModel, value: Seq<char>) -> Option<
    config::ConfigModel,
> {
    match var {
        EnvVar::Ignored => None,
        EnvVar::Pubkey => None,
        EnvVar::WifiApSsid => if env_parser::sanitary(value) && value.len() <= 32 {
            Some(config::ConfigModel { wifi_ap_ssid: value, ..c })
        } else {
            None
        },
        EnvVar::WifiApPsk => if env_parser::sanitary(value) && 8 <= value.len() <= 63 {
            Some(config::ConfigModel { wifi_ap_pw: value, ..c })
        } else {
            None
        },
        EnvVar::WifiBand => match hal::BandMode::named(value) {
            Some(band) => Some(config::ConfigModel { wifi_ap_band: band.code(), ..c }),
            None => None,
        },
        EnvVar::WifiStaSsid => if (value.len() == 0 || env_parser::sanitary(value)) && value.len()
            <= 32 {
            Some(config::ConfigModel { wifi_sta_ssid: value, ..c })
        } else {
            None
        },
        EnvVar::WifiStaPsk => if env_parser::sanitary(value) && 8 <= value.len() <= 63 {
            Some(config::ConfigModel { wifi_sta_pw: value, ..c })
        } else {
            None
        },
        EnvVar::MacAddress => match env_parser::mac_address(value) {
            Some(mac) => Some(config::ConfigModel { mac, ..c }),
            None => None,
        },
        EnvVar::MacRandom => Some(config::ConfigModel { mac: config::mac_random_sentinel(), ..c }),
        EnvVar::Uart(param) => match uart_setting(param, c.uart_params, value) {
            Some(p) => Some(config::ConfigModel { uart_params: p, ..c }),
            None => None,
        },
    }
}

/// The text of a value, where it is text.
pub open spec fn text_of(value: Option<&str>) -> Option<Seq<char>> {
    match value {
        Some(t) => Some(t@),
        None => None,
    }
}

/// The request is refused, and `error` is returned then.
pub open spec fn refused(error: Option<StampError>) -> EnvOutcome {
    EnvOutcome { answer: Answer::Fail, effect: Effect::Nothing, error }
}

/// The error that comes with the refusal of a client that has not authenticated: there is one
/// for the random MAC address only.
pub open spec fn unauthenticated_error(var: EnvVar) -> Option<StampError> {
    if var == EnvVar::MacRandom {
        Some(StampError::Unauthenticated)
    } else {
        None
    }
}

/// The error that comes with the refusal of a value: for names, passphrases and the MAC
/// address. The band and the line parameters are refused without one.
pub open spec fn invalid_error(var: EnvVar) -> Option<StampError> {
    match var {
        EnvVar::WifiApSsid => Some(StampError::InvalidValue),
        EnvVar::WifiApPsk => Some(StampError::InvalidValue),
        EnvVar::WifiStaSsid => Some(StampError::InvalidValue),
        EnvVar::WifiStaPsk => Some(StampError::InvalidValue),
        EnvVar::MacAddress => Some(StampError::InvalidValue),
        _ => None,
    }
}

/// What becomes of the configuration, and what comes of the request, when a setting is
/// to be changed: it takes a client that has authenticated, or the first login.
pub open spec fn setting_outcome(
    var: EnvVar,
    auth_checked: bool,
    c: config::ConfigModel,
    value: Option<Seq<char>>,
) -> (config::ConfigModel, EnvOutcome) {
    if !auth_checked && !c.first_login {
        (c, refused(unauthenticated_error(var)))
    } else if value is None && var != EnvVar::MacRandom {
        (c, EnvOutcome { answer: Answer::BadText, effect: Effect::Nothing, error: None })
    } else {
        match setting(var, c, value.unwrap_or(Seq::empty())) {
            Some(changed) => (
                changed,
                EnvOutcome { answer: Answer::Succeed, effect: Effect::SettingChanged, error: None },
            ),
            None => (c, refused(invalid_error(var))),
        }
    }
}

/// The same when a public key is to be added: it takes the first login. A key that cannot be
/// added then is an error.
pub open spec fn pubkey_outcome(c: config::ConfigModel, value: Option<Seq<char>>) -> (
    config::ConfigModel,
    EnvOutcome,
) {
    if !c.first_login {
        (c, refused(None))
    } else {
        match value {
            None => (
                c,
                EnvOutcome { answer: Answer::BadText, effect: Effect::Nothing, error: None },
            ),
            Some(v) => {
                let line = outside::trimmed(v);
                if !env_parser::is_key_line(line) {
                    (c, refused(Some(StampError::KeyFormat)))
                } else {
                    match outside::openssh_key(line) {
                        None => (c, refused(Some(StampError::KeyFormat))),
                        Some(None) => (c, refused(Some(StampError::BadKey))),
                        Some(Some(key)) => (
                            config::ConfigModel { pubkeys: config::with_key(c.pubkeys, key@), ..c },
                            EnvOutcome {
                                answer: Answer::Succeed,
                                effect: Effect::KeyAdded,
                                error: None,
                            },
                        ),
                    }
                }
            },
        }
    }
}

/// What becomes of the configuration, and what comes of the request, when a variable is
/// to be set. One that has no effect is accepted.
pub open spec fn env_outcome(
    var: EnvVar,
    auth_checked: bool,
    c: config::ConfigModel,
    value: Option<Seq<char>>,
) -> (config::ConfigModel, EnvOutcome) {
    match var {
        EnvVar::Ignored => (
            c,
            EnvOutcome { answer: Answer::Succeed, effect: Effect::Nothing, error: None },
        ),
        EnvVar::Pubkey => pubkey_outcome(c, value),
        _ => setting_outcome(var, auth_checked, c, value),
    }
}

// ---------------------------------------------------------------------------
// Environment variables
// ---------------------------------------------------------------------------

fn fail(error: Option<StampError>) -> (r: EnvOutcome)
    ensures
        r == refused(error),
{
    EnvOutcome { answer: Answer::Fail, effect: Effect::Nothing, error }
}

fn bad_text() -> (r: EnvOutcome)
    ensures
        r == (EnvOutcome { answer: Answer::BadText, effect: Effect::Nothing, error: None }),
{
    EnvOutcome { answer: Answer::BadText, effect: Effect::Nothing, error: None }
}

fn changed() -> (r: EnvOutcome)
    ensures
        r == (EnvOutcome { answer: Answer::Succeed, effect: Effect::SettingChanged, error: None }),
{
    EnvOutcome { answer: Answer::Succeed, effect: Effect::SettingChanged, error: None }
}

/// What comes of a request to add a key, once that was tried.
pub fn key_tried(added: Result<(), StampError>) -> (r: EnvOutcome)
    ensures
        r == (match added {
            Ok(_) => EnvOutcome { answer: Answer::Succeed, effect: Effect::KeyAdded, error: None },
            Err(e) => refused(Some(e)),
        }),
{
    match added {
        Ok(_) => EnvOutcome { answer: Answer::Succeed, effect: Effect::KeyAdded, error: None },
        Err(e) => fail(Some(e)),
    }
}

/// `SSH_STAMP_PUBKEY`: adds a client key, on first login only.
pub fn pubkey_env(config: &mut SSHStampConfig, value: Option<&str>) -> (r: EnvOutcome)
    ensures
        (final(config)@, r) == pubkey_outcome(old(config)@, text_of(value)),
{
    if !config.first_login {
        return fail(None);
    }
    match value {
        None => bad_text(),
        Some(v) => {
            match env_parser::parse_pubkey(v) {
                None => fail(Some(StampError::KeyFormat)),
                Some(trimmed) => {
                    proof {
                        outside::lemma_trimmed_twice(v@);
                    }
                    let added = config.add_pubkey(trimmed);
                    key_tried(added)
                },
            }
        },
    }
}

/// `SSH_STAMP_WIFI_AP_SSID`: names the access point.
pub fn wifi_ap_ssid_env<H>(
    ctx: &EventContext<H>,
    config: &mut SSHStampConfig,
    value: Option<&str>,
) -> (r: EnvOutcome)
    ensures
        (final(config)@, r) == setting_outcome(
            EnvVar::WifiApSsid,
            ctx.auth_checked,
            old(config)@,
            text_of(value),
        ),
{
    if !ctx.auth_checked && !config.first_login {
        return fail(None);
    }
    match value {
        None => bad_text(),
        Some(v) => {
            match env_parser::parse_wifi_ap_ssid(v) {
                Some(s) => {
                    config.wifi_ap_ssid = s;
                    changed()
                },
                None => fail(Some(StampError::InvalidValue)),
            }
        },
    }
}

/// `SSH_STAMP_WIFI_AP_PSK`: sets the passphrase of the access point.
pub fn wifi_ap_psk_env<H>(
    ctx: &EventContext<H>,
    config: &mut SSHStampConfig,
    value: Option<&str>,
) -> (r: EnvOutcome)
    ensures
        (final(config)@, r) == setting_outcome(
            EnvVar::WifiApPsk,
            ctx.auth_checked,
            old(config)@,
            text_of(value),
        ),
{
    if !ctx.auth_checked && !config.first_login {
        return fail(None);
    }
    match value {
        None => bad_text(),
        Some(v) => {
            match env_parser::parse_wifi_psk(v) {
                Some(s) => {
                    config.wifi_ap_pw = s;
                    changed()
                },
                None => fail(Some(StampError::InvalidValue)),
            }
        },
    }
}

/// `SSH_STAMP_WIFI_BAND`: sets the radio band. Chips without 5GHz ignore it.
pub fn wifi_band_env<H>(
    ctx: &EventContext<H>,
    config: &mut SSHStampConfig,
    value: Option<&str>,
) -> (r: EnvOutcome)
    ensures
        (final(config)@, r) == setting_outcome(
            EnvVar::WifiBand,
            ctx.auth_checked,
            old(config)@,
            text_of(value),
        ),
{
    if !ctx.auth_checked && !config.first_login {
        return fail(None);
    }
    match value {
        None => bad_text(),
        Some(v) => {
            match env_parser::parse_wifi_band(v) {
                Some(s) => {
                    config.wifi_ap_band = s;
                    changed()
                },
                None => fail(None),
            }
        },
    }
}

/// `SSH_STAMP_WIFI_STA_SSID`: names the network to join.
pub fn wifi_sta_ssid_env<H>(
    ctx: &EventContext<H>,
    config: &mut SSHStampConfig,
    value: Option<&str>,
) -> (r: EnvOutcome)
    ensures
        (final(config)@, r) == setting_outcome(
            EnvVar::WifiStaSsid,
            ctx.auth_checked,
            old(config)@,
            text_of(value),
        ),
{
    if !ctx.auth_checked && !config.first_login {
        return fail(None);
    }
    match value {
        None => bad_text(),
        Some(v) => {
            match env_parser::parse_wifi_station_ssid(v) {
                Some(s) => {
                    config.wifi_sta_ssid = s;
                    changed()
                },
                None => fail(Some(StampError::InvalidValue)),
            }
        },
    }
}

/// `SSH_STAMP_WIFI_STA_PSK`, or `SSH_STAMP_WIFI_STA_PW` for short: sets the passphrase of the
/// network to join.
pub fn wifi_sta_psk_env<H>(
    ctx: &EventContext<H>,
    config: &mut SSHStampConfig,
    value: Option<&str>,
) -> (r: EnvOutcome)
    ensures
        (final(config)@, r) == setting_outcome(
            EnvVar::WifiStaPsk,
            ctx.auth_checked,
            old(config)@,
            text_of(value),
        ),
{
    if !ctx.auth_checked && !config.first_login {
        return fail(None);
    }
    match value {
        None => bad_text(),
        Some(v) => {
            match env_parser::parse_wifi_psk(v) {
                Some(s) => {
                    config.wifi_sta_pw = s;
                    changed()
                },
                None => fail(Some(StampError::InvalidValue)),
            }
        },
    }
}

/// `SSH_STAMP_WIFI_MAC_ADDRESS`: sets the MAC address.
pub fn wifi_mac_address_env<H>(
    ctx: &EventContext<H>,
    config: &mut SSHStampConfig,
    value: Option<&str>,
) -> (r: EnvOutcome)
    ensures
        (final(config)@, r) == setting_outcome(
            EnvVar::MacAddress,
            ctx.auth_checked,
            old(config)@,
            text_of(value),
        ),
{
    if !ctx.auth_checked && !config.first_login {
        return fail(None);
    }
    match value {
        None => bad_text(),
        Some(v) => {
            match env_parser::parse_mac_address(v) {
                Some(s) => {
                    config.mac = s;
                    changed()
                },
                None => fail(Some(StampError::InvalidValue)),
            }
        },
    }
}

/// `SSH_STAMP_WIFI_MAC_RANDOM`: asks for a random MAC address on each boot. The value does
/// not matter.
pub fn wifi_mac_random_env<H>(ctx: &EventContext<H>, config: &mut SSHStampConfig) -> (r: EnvOutcome)
    ensures
        forall|value: Option<Seq<char>>|
            (final(config)@, r) == #[trigger] setting_outcome(
                EnvVar::MacRandom,
                ctx.auth_checked,
                old(config)@,
                value,
            ),
        (final(config)@, r) == setting_outcome(
            EnvVar::MacRandom,
            ctx.auth_checked,
            old(config)@,
            None,
        ),
{
    if !ctx.auth_checked && !config.first_login {
        return fail(Some(StampError::Unauthenticated));
    }
    config.mac = [0xff, 0xff, 0xff, 0xff, 0xff, 0xff];
    assert(config.mac@ == config::mac_random_sentinel());
    changed()
}

/// The line parameters after `param` was set to `value`, if that is accepted.
fn parse_uart(param: UartParam, p: UartParams, value: &str) -> (r: Option<UartParams>)
    ensures
        r == uart_setting(param, p, value@),
{
    match param {
        UartParam::Baud => match env_parser::parse_uart_baud(value) {
            Some(baud) => Some(UartParams { baud, ..p }),
            None => None,
        },
        UartParam::DataBits => match env_parser::parse_uart_data_bits(value) {
            Some(data_bits) => Some(UartParams { data_bits, ..p }),
            None => None,
        },
        UartParam::Parity => match env_parser::parse_uart_parity(value) {
            Some(parity) => Some(UartParams { parity, ..p }),
            None => None,
        },
        UartParam::StopBits => match env_parser::parse_uart_stop_bits(value) {
            Some(stop_bits) => Some(UartParams { stop_bits, ..p }),
            None => None,
        },
    }
}

/// `SSH_STAMP_UART_*`: sets a line parameter of the bridged UART. The line is set up on
/// boot, so the change takes effect after the reset that the next shell brings.
pub fn uart_env<H>(
    param: UartParam,
    ctx: &EventContext<H>,
    config: &mut SSHStampConfig,
    value: Option<&str>,
) -> (r: EnvOutcome)
    ensures
        (final(config)@, r) == setting_outcome(
            EnvVar::Uart(param),
            ctx.auth_checked,
            old(config)@,
            text_of(value),
        ),
{
    if !ctx.auth_checked && !config.first_login {
        return fail(None);
    }
    match value {
        None => bad_text(),
        Some(v) => {
            match parse_uart(param, config.uart_params, v) {
                Some(p) => {
                    config.uart_params = p;
                    changed()
                },
                None => fail(None),
            }
        },
    }
}

/// A request to set the environment variable `name`. `value` is what it is to be set to,
/// if that is text.
pub fn session_env<H>(
    name: &str,
    value: Option<&str>,
    ctx: &EventContext<H>,
    config: &mut SSHStampConfig,
) -> (r: EnvOutcome)
    ensures
        (final(config)@, r) == env_outcome(
            EnvVar::named(name@),
            ctx.auth_checked,
            old(config)@,
            text_of(value),
        ),
{
    match EnvVar::from_name(name) {
        EnvVar::Ignored => EnvOutcome {
            answer: Answer::Succeed,
            effect: Effect::Nothing,
            error: None,
        },
        EnvVar::Pubkey => pubkey_env(config, value),
        EnvVar::WifiApSsid => wifi_ap_ssid_env(ctx, config, value),
        EnvVar::WifiApPsk => wifi_ap_psk_env(ctx, config, value),
        EnvVar::WifiBand => wifi_band_env(ctx, config, value),
        EnvVar::WifiStaSsid => wifi_sta_ssid_env(ctx, config, value),
        EnvVar::WifiStaPsk => wifi_sta_psk_env(ctx, config, value),
        EnvVar::MacAddress => wifi_mac_address_env(ctx, config, value),
        EnvVar::MacRandom => wifi_mac_random_env(ctx, config),
        EnvVar::Uart(param) => uart_env(param, ctx, config, value),
    }
}

/// The connection after the answer to a request was sent.
pub open spec fn noted<H>(ctx: EventContext<H>, first_login: bool, effect: Effect) -> EventContext<
    H,
> {
    match effect {
        Effect::Nothing => ctx,
        Effect::SettingChanged => EventContext { config_changed: true, needs_reset: true, ..ctx },
        Effect::KeyAdded => if first_login {
            EventContext { config_changed: true, auth_checked: true, ..ctx }
        } else {
            ctx
        },
    }
}

/// The configuration after the answer to a request was sent: the first key ends the first
/// login.
pub open spec fn settled(c: config::ConfigModel, effect: Effect) -> config::ConfigModel {
    if effect == Effect::KeyAdded {
        config::ConfigModel { first_login: false, ..c }
    } else {
        c
    }
}

/// Takes note that the answer to a request was sent.
pub fn env_answered<H>(ctx: &mut EventContext<H>, config: &mut SSHStampConfig, effect: Effect)
    ensures
        *final(ctx) == noted(*old(ctx), old(config)@.first_login, effect),
        final(config)@ == settled(old(config)@, effect),
{
    match effect {
        Effect::Nothing => {},
        Effect::SettingChanged => {
            ctx.config_changed = true;
            ctx.needs_reset = true;
        },
        Effect::KeyAdded => {
            if config.first_login {
                config.first_login = false;
                ctx.config_changed = true;
                ctx.auth_checked = true;
            }
        },
    }
}

} // verus!
