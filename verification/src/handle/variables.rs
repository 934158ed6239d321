//! What setting an environment variable comes to: which value of which variable changes what, and
//! what a request is answered.

use vstd::prelude::*;

use crate::config;
use crate::config::SSHStampConfig;
use crate::errors::StampError;
use crate::hal::{Parity, UartParams};
use crate::handle;
use crate::handle::session;
use crate::handle::session::ShellAction;
use crate::handle::values;
use crate::handle::{Answer, Effect, EnvOutcome, EnvVar, EventContext, UartParam};
use crate::outside;

verus! {

// ---------------------------------------------------------------------------
// Names
// ---------------------------------------------------------------------------

/// Each variable has its name, spelled exactly so; only the passphrase of the network to join has
/// two. Every other name has no effect.
pub proof fn lemma_names(name: &str, v: EnvVar)
    requires
        call_ensures(EnvVar::from_name, (name,), v),
    ensures
        v == EnvVar::Pubkey <==> name@ == "SSH_STAMP_PUBKEY"@,
        v == EnvVar::WifiApSsid <==> name@ == "SSH_STAMP_WIFI_AP_SSID"@,
        v == EnvVar::WifiApPsk <==> name@ == "SSH_STAMP_WIFI_AP_PSK"@,
        v == EnvVar::WifiBand <==> name@ == "SSH_STAMP_WIFI_BAND"@,
        v == EnvVar::WifiStaSsid <==> name@ == "SSH_STAMP_WIFI_STA_SSID"@,
        v == EnvVar::WifiStaPsk <==> name@ == "SSH_STAMP_WIFI_STA_PSK"@ || name@
            == "SSH_STAMP_WIFI_STA_PW"@,
        v == EnvVar::MacAddress <==> name@ == "SSH_STAMP_WIFI_MAC_ADDRESS"@,
        v == EnvVar::MacRandom <==> name@ == "SSH_STAMP_WIFI_MAC_RANDOM"@,
        v == EnvVar::Uart(UartParam::Baud) <==> name@ == "SSH_STAMP_UART_BAUD"@,
        v == EnvVar::Uart(UartParam::DataBits) <==> name@ == "SSH_STAMP_UART_DATA_BITS"@,
        v == EnvVar::Uart(UartParam::Parity) <==> name@ == "SSH_STAMP_UART_PARITY"@,
        v == EnvVar::Uart(UartParam::StopBits) <==> name@ == "SSH_STAMP_UART_STOP_BITS"@,
{
    lemma_named(name@);
}

proof fn lemma_named(name: Seq<char>)
    ensures
        ({
            let v = EnvVar::named(name);
            &&& v == EnvVar::Pubkey <==> name == "SSH_STAMP_PUBKEY"@
            &&& v == EnvVar::WifiApSsid <==> name == "SSH_STAMP_WIFI_AP_SSID"@
            &&& v == EnvVar::WifiApPsk <==> name == "SSH_STAMP_WIFI_AP_PSK"@
            &&& v == EnvVar::WifiBand <==> name == "SSH_STAMP_WIFI_BAND"@
            &&& v == EnvVar::WifiStaSsid <==> name == "SSH_STAMP_WIFI_STA_SSID"@
            &&& v == EnvVar::WifiStaPsk <==> name == "SSH_STAMP_WIFI_STA_PSK"@ || name
                == "SSH_STAMP_WIFI_STA_PW"@
            &&& v == EnvVar::MacAddress <==> name == "SSH_STAMP_WIFI_MAC_ADDRESS"@
            &&& v == EnvVar::MacRandom <==> name == "SSH_STAMP_WIFI_MAC_RANDOM"@
            &&& v == EnvVar::Uart(UartParam::Baud) <==> name == "SSH_STAMP_UART_BAUD"@
            &&& v == EnvVar::Uart(UartParam::DataBits) <==> name == "SSH_STAMP_UART_DATA_BITS"@
            &&& v == EnvVar::Uart(UartParam::Parity) <==> name == "SSH_STAMP_UART_PARITY"@
            &&& v == EnvVar::Uart(UartParam::StopBits) <==> name == "SSH_STAMP_UART_STOP_BITS"@
        }),
{
    reveal_strlit("SSH_STAMP_PUBKEY");
    reveal_strlit("SSH_STAMP_WIFI_AP_SSID");
    reveal_strlit("SSH_STAMP_WIFI_AP_PSK");
    reveal_strlit("SSH_STAMP_WIFI_BAND");
    reveal_strlit("SSH_STAMP_WIFI_STA_SSID");
    reveal_strlit("SSH_STAMP_WIFI_STA_PSK");
    reveal_strlit("SSH_STAMP_WIFI_STA_PW");
    reveal_strlit("SSH_STAMP_WIFI_MAC_ADDRESS");
    reveal_strlit("SSH_STAMP_WIFI_MAC_RANDOM");
    reveal_strlit("SSH_STAMP_UART_BAUD");
    reveal_strlit("SSH_STAMP_UART_DATA_BITS");
    reveal_strlit("SSH_STAMP_UART_PARITY");
    reveal_strlit("SSH_STAMP_UART_STOP_BITS");
    assert("SSH_STAMP_PUBKEY"@.len() == 16);
    assert("SSH_STAMP_WIFI_AP_SSID"@.len() == 22);
    assert("SSH_STAMP_WIFI_AP_PSK"@.len() == 21);
    assert("SSH_STAMP_WIFI_BAND"@.len() == 19);
    assert("SSH_STAMP_WIFI_STA_SSID"@.len() == 23);
    assert("SSH_STAMP_WIFI_STA_PSK"@.len() == 22);
    assert("SSH_STAMP_WIFI_STA_PW"@.len() == 21);
    assert("SSH_STAMP_WIFI_MAC_ADDRESS"@.len() == 26);
    assert("SSH_STAMP_WIFI_MAC_RANDOM"@.len() == 25);
    assert("SSH_STAMP_UART_BAUD"@.len() == 19);
    assert("SSH_STAMP_UART_DATA_BITS"@.len() == 24);
    assert("SSH_STAMP_UART_PARITY"@.len() == 21);
    assert("SSH_STAMP_UART_STOP_BITS"@.len() == 24);
    assert("SSH_STAMP_WIFI_AP_SSID"@[15] != "SSH_STAMP_WIFI_STA_PSK"@[15]);
    assert("SSH_STAMP_WIFI_AP_PSK"@[15] != "SSH_STAMP_WIFI_STA_PW"@[15]);
    assert("SSH_STAMP_WIFI_AP_PSK"@[10] != "SSH_STAMP_UART_PARITY"@[10]);
    assert("SSH_STAMP_WIFI_STA_PW"@[10] != "SSH_STAMP_UART_PARITY"@[10]);
    assert("SSH_STAMP_WIFI_BAND"@[10] != "SSH_STAMP_UART_BAUD"@[10]);
    assert("SSH_STAMP_UART_DATA_BITS"@[15] != "SSH_STAMP_UART_STOP_BITS"@[15]);
}

/// A variable with another name is accepted and changes nothing.
pub proof fn lemma_other_variable<H>(
    name: &str,
    value: Option<&str>,
    ctx: &EventContext<H>,
    config: &mut SSHStampConfig,
    r: EnvOutcome,
)
    requires
        call_ensures(handle::session_env::<H>, (name, value, ctx, config), r),
        name@ != "SSH_STAMP_PUBKEY"@,
        name@ != "SSH_STAMP_WIFI_AP_SSID"@,
        name@ != "SSH_STAMP_WIFI_AP_PSK"@,
        name@ != "SSH_STAMP_WIFI_BAND"@,
        name@ != "SSH_STAMP_WIFI_STA_SSID"@,
        name@ != "SSH_STAMP_WIFI_STA_PSK"@,
        name@ != "SSH_STAMP_WIFI_STA_PW"@,
        name@ != "SSH_STAMP_WIFI_MAC_ADDRESS"@,
        name@ != "SSH_STAMP_WIFI_MAC_RANDOM"@,
        name@ != "SSH_STAMP_UART_BAUD"@,
        name@ != "SSH_STAMP_UART_DATA_BITS"@,
        name@ != "SSH_STAMP_UART_PARITY"@,
        name@ != "SSH_STAMP_UART_STOP_BITS"@,
    ensures
        r.answer == Answer::Succeed,
        r.effect == Effect::Nothing,
        r.error is None,
        final(config)@ == old(config)@,
{
    lemma_named(name@);
}

/// Each line parameter says what its variable is called and what it accepts.
pub proof fn lemma_uart_texts(p: UartParam, name: &'static str, range: &'static str)
    requires
        call_ensures(UartParam::env_name, (p,), name),
        call_ensures(UartParam::accepted, (p,), range),
    ensures
        p == UartParam::Baud ==> name@ == "SSH_STAMP_UART_BAUD"@ && range@ == "300-5000000"@,
        p == UartParam::DataBits ==> name@ == "SSH_STAMP_UART_DATA_BITS"@ && range@ == "5-8"@,
        p == UartParam::Parity ==> name@ == "SSH_STAMP_UART_PARITY"@ && range@
            == "none, even or odd"@,
        p == UartParam::StopBits ==> name@ == "SSH_STAMP_UART_STOP_BITS"@ && range@ == "1 or 2"@,
{
}

// ---------------------------------------------------------------------------
// Settings
// ---------------------------------------------------------------------------

/// Whether a client may change settings: it has authenticated, or this is the first login.
pub open spec fn may_set<H>(ctx: &EventContext<H>, c: config::ConfigModel) -> bool {
    ctx.auth_checked || c.first_login
}

/// The request succeeds and a setting was changed.
pub open spec fn is_done(r: EnvOutcome) -> bool {
    r.answer == Answer::Succeed && r.effect == Effect::SettingChanged && r.error is None
}

/// The request fails with `error`, and nothing is to be noted.
pub open spec fn is_refused(r: EnvOutcome, error: Option<StampError>) -> bool {
    r.answer == Answer::Fail && r.effect == Effect::Nothing && r.error == error
}

/// A value that is not text is refused to a client that may set nothing, and gets no answer
/// otherwise; nothing changes. Only the random MAC address takes any value.
pub proof fn lemma_value_is_no_text<H>(
    name: &str,
    ctx: &EventContext<H>,
    config: &mut SSHStampConfig,
    r: EnvOutcome,
)
    requires
        call_ensures(handle::session_env::<H>, (name, None, ctx, config), r),
        name@ != "SSH_STAMP_WIFI_MAC_RANDOM"@,
    ensures
        r.effect == Effect::Nothing,
        r.error is None,
        final(config)@ == old(config)@,
        r.answer == Answer::BadText ==> may_set(ctx, old(config)@),
        name@ == "SSH_STAMP_WIFI_AP_SSID"@ ==> r.answer == (if may_set(ctx, old(config)@) {
            Answer::BadText
        } else {
            Answer::Fail
        }),
        name@ == "SSH_STAMP_WIFI_AP_PSK"@ ==> r.answer == (if may_set(ctx, old(config)@) {
            Answer::BadText
        } else {
            Answer::Fail
        }),
        name@ == "SSH_STAMP_WIFI_BAND"@ ==> r.answer == (if may_set(ctx, old(config)@) {
            Answer::BadText
        } else {
            Answer::Fail
        }),
        name@ == "SSH_STAMP_WIFI_STA_SSID"@ ==> r.answer == (if may_set(ctx, old(config)@) {
            Answer::BadText
        } else {
            Answer::Fail
        }),
        name@ == "SSH_STAMP_WIFI_STA_PSK"@ ==> r.answer == (if may_set(ctx, old(config)@) {
            Answer::BadText
        } else {
            Answer::Fail
        }),
        name@ == "SSH_STAMP_WIFI_STA_PW"@ ==> r.answer == (if may_set(ctx, old(config)@) {
            Answer::BadText
        } else {
            Answer::Fail
        }),
        name@ == "SSH_STAMP_WIFI_MAC_ADDRESS"@ ==> r.answer == (if may_set(ctx, old(config)@) {
            Answer::BadText
        } else {
            Answer::Fail
        }),
        name@ == "SSH_STAMP_UART_BAUD"@ ==> r.answer == (if may_set(ctx, old(config)@) {
            Answer::BadText
        } else {
            Answer::Fail
        }),
        name@ == "SSH_STAMP_UART_DATA_BITS"@ ==> r.answer == (if may_set(ctx, old(config)@) {
            Answer::BadText
        } else {
            Answer::Fail
        }),
        name@ == "SSH_STAMP_UART_PARITY"@ ==> r.answer == (if may_set(ctx, old(config)@) {
            Answer::BadText
        } else {
            Answer::Fail
        }),
        name@ == "SSH_STAMP_UART_STOP_BITS"@ ==> r.answer == (if may_set(ctx, old(config)@) {
            Answer::BadText
        } else {
            Answer::Fail
        }),
        name@ == "SSH_STAMP_PUBKEY"@ ==> r.answer == (if old(config)@.first_login {
            Answer::BadText
        } else {
            Answer::Fail
        }),
{
    lemma_named(name@);
}

/// The access point is named by every text of 1 to 32 visible characters, as it is, and by no
/// other; no other setting changes.
pub proof fn lemma_wifi_ap_ssid<H>(
    name: &str,
    value: &str,
    ctx: &EventContext<H>,
    config: &mut SSHStampConfig,
    r: EnvOutcome,
)
    requires
        call_ensures(handle::session_env::<H>, (name, Some(value), ctx, config), r),
        name@ == "SSH_STAMP_WIFI_AP_SSID"@,
    ensures
        is_done(r) <==> may_set(ctx, old(config)@) && 1 <= value@.len() <= 32 && values::visible(
            value@,
        ),
        is_done(r) ==> final(config)@ == (config::ConfigModel { wifi_ap_ssid: value@, ..old(config)@ }),
        !is_done(r) ==> final(config)@ == old(config)@,
        !may_set(ctx, old(config)@) ==> is_refused(r, None),
        may_set(ctx, old(config)@) && !is_done(r) ==> is_refused(r, Some(StampError::InvalidValue)),
{
    lemma_named(name@);
    values::lemma_sanitary(value@);
}

/// The passphrase of the access point is every text of 8 to 63 visible characters, as it is, and
/// no other; no other setting changes.
pub proof fn lemma_wifi_ap_psk<H>(
    name: &str,
    value: &str,
    ctx: &EventContext<H>,
    config: &mut SSHStampConfig,
    r: EnvOutcome,
)
    requires
        call_ensures(handle::session_env::<H>, (name, Some(value), ctx, config), r),
        name@ == "SSH_STAMP_WIFI_AP_PSK"@,
    ensures
        is_done(r) <==> may_set(ctx, old(config)@) && 8 <= value@.len() <= 63 && values::visible(
            value@,
        ),
        is_done(r) ==> final(config)@ == (config::ConfigModel { wifi_ap_pw: value@, ..old(config)@ }),
        !is_done(r) ==> final(config)@ == old(config)@,
        !may_set(ctx, old(config)@) ==> is_refused(r, None),
        may_set(ctx, old(config)@) && !is_done(r) ==> is_refused(r, Some(StampError::InvalidValue)),
{
    lemma_named(name@);
    values::lemma_sanitary(value@);
}

/// The network to join is named by every text of up to 32 visible characters, as it is, and by no
/// other; the empty name is one. No other setting changes.
pub proof fn lemma_wifi_sta_ssid<H>(
    name: &str,
    value: &str,
    ctx: &EventContext<H>,
    config: &mut SSHStampConfig,
    r: EnvOutcome,
)
    requires
        call_ensures(handle::session_env::<H>, (name, Some(value), ctx, config), r),
        name@ == "SSH_STAMP_WIFI_STA_SSID"@,
    ensures
        is_done(r) <==> may_set(ctx, old(config)@) && value@.len() <= 32 && values::visible(value@),
        is_done(r) ==> final(config)@ == (config::ConfigModel { wifi_sta_ssid: value@, ..old(config)@ }),
        !is_done(r) ==> final(config)@ == old(config)@,
        !may_set(ctx, old(config)@) ==> is_refused(r, None),
        may_set(ctx, old(config)@) && !is_done(r) ==> is_refused(r, Some(StampError::InvalidValue)),
{
    lemma_named(name@);
    values::lemma_sanitary(value@);
}

/// The passphrase of the network to join is every text of 8 to 63 visible characters, as it is,
/// and no other, by either name; no other setting changes.
pub proof fn lemma_wifi_sta_psk<H>(
    name: &str,
    value: &str,
    ctx: &EventContext<H>,
    config: &mut SSHStampConfig,
    r: EnvOutcome,
)
    requires
        call_ensures(handle::session_env::<H>, (name, Some(value), ctx, config), r),
        name@ == "SSH_STAMP_WIFI_STA_PSK"@ || name@ == "SSH_STAMP_WIFI_STA_PW"@,
    ensures
        is_done(r) <==> may_set(ctx, old(config)@) && 8 <= value@.len() <= 63 && values::visible(
            value@,
        ),
        is_done(r) ==> final(config)@ == (config::ConfigModel { wifi_sta_pw: value@, ..old(config)@ }),
        !is_done(r) ==> final(config)@ == old(config)@,
        !may_set(ctx, old(config)@) ==> is_refused(r, None),
        may_set(ctx, old(config)@) && !is_done(r) ==> is_refused(r, Some(StampError::InvalidValue)),
{
    lemma_named(name@);
    values::lemma_sanitary(value@);
}

/// The band is one of the three by name, and is stored as its number; no other setting changes.
pub proof fn lemma_wifi_band<H>(
    name: &str,
    value: &str,
    ctx: &EventContext<H>,
    config: &mut SSHStampConfig,
    r: EnvOutcome,
)
    requires
        call_ensures(handle::session_env::<H>, (name, Some(value), ctx, config), r),
        name@ == "SSH_STAMP_WIFI_BAND"@,
    ensures
        is_done(r) <==> may_set(ctx, old(config)@) && (values::is_2_4g(value@) || values::is_5g(
            value@,
        ) || values::is_auto(value@)),
        is_done(r) ==> final(config)@ == (config::ConfigModel { wifi_ap_band: if values::is_2_4g(value@) {
            0u8
        } else if values::is_5g(value@) {
            1u8
        } else {
            2u8
        }, ..old(config)@ }),
        !is_done(r) ==> final(config)@ == old(config)@,
        !may_set(ctx, old(config)@) ==> is_refused(r, None),
        may_set(ctx, old(config)@) && !is_done(r) ==> is_refused(r, None),
{
    lemma_named(name@);
    values::lemma_band(value@);
}

/// The MAC address is that of every text of digits in parts with colons between them, 17
/// characters in all, of which six parts have an octet. No other setting changes.
pub proof fn lemma_wifi_mac_address<H>(
    name: &str,
    value: &str,
    parts: Seq<Seq<char>>,
    ctx: &EventContext<H>,
    config: &mut SSHStampConfig,
    r: EnvOutcome,
)
    requires
        call_ensures(handle::session_env::<H>, (name, Some(value), ctx, config), r),
        name@ == "SSH_STAMP_WIFI_MAC_ADDRESS"@,
        parts.len() > 0,
        forall|i: int| 0 <= i < parts.len() ==> values::all_hex(#[trigger] parts[i]),
        value@ == values::with_colons(parts),
    ensures
        is_done(r) <==> may_set(ctx, old(config)@) && value@.len() == 17 && values::part_octets(
            parts,
        ).len() == 6,
        is_done(r) ==> final(config)@ == (config::ConfigModel {
            mac: values::part_octets(parts),
            ..old(config)@
        }),
        !is_done(r) ==> final(config)@ == old(config)@,
        !may_set(ctx, old(config)@) ==> is_refused(r, None),
        may_set(ctx, old(config)@) && !is_done(r) ==> is_refused(
            r,
            Some(StampError::InvalidValue),
        ),
{
    lemma_named(name@);
    values::lemma_mac_of_parts(value@, parts);
}

/// A MAC address that is not 17 digits and colons is refused.
pub proof fn lemma_bad_mac_address<H>(
    name: &str,
    value: &str,
    ctx: &EventContext<H>,
    config: &mut SSHStampConfig,
    r: EnvOutcome,
)
    requires
        call_ensures(handle::session_env::<H>, (name, Some(value), ctx, config), r),
        name@ == "SSH_STAMP_WIFI_MAC_ADDRESS"@,
        value@.len() != 17 || exists|i: int|
            0 <= i < value@.len() && !values::is_hex(#[trigger] value@[i]) && value@[i] != ':',
    ensures
        final(config)@ == old(config)@,
        !may_set(ctx, old(config)@) ==> is_refused(r, None),
        may_set(ctx, old(config)@) ==> is_refused(r, Some(StampError::InvalidValue)),
{
    lemma_named(name@);
    if value@.len() == 17 {
        let i = choose|i: int|
            0 <= i < value@.len() && !values::is_hex(#[trigger] value@[i]) && value@[i] != ':';
        assert(!crate::handle::env_parser::is_hex(value@[i]));
    }
}

/// A random MAC address on each boot is asked for with any value, text or not; it is stored as
/// six bytes of ones. No other setting changes.
pub proof fn lemma_wifi_mac_random<H>(
    name: &str,
    value: Option<&str>,
    ctx: &EventContext<H>,
    config: &mut SSHStampConfig,
    r: EnvOutcome,
)
    requires
        call_ensures(handle::session_env::<H>, (name, value, ctx, config), r),
        name@ == "SSH_STAMP_WIFI_MAC_RANDOM"@,
    ensures
        is_done(r) <==> may_set(ctx, old(config)@),
        is_done(r) ==> final(config)@ == (config::ConfigModel {
            mac: seq![0xffu8, 0xffu8, 0xffu8, 0xffu8, 0xffu8, 0xffu8],
            ..old(config)@
        }),
        !is_done(r) ==> final(config)@ == old(config)@ && is_refused(
            r,
            Some(StampError::Unauthenticated),
        ),
{
    lemma_named(name@);
}

/// The line rate that is stored is the very number that the value spells, white space around it
/// aside, for every number from 300 to 5000000, and no other value is accepted. The other line
/// parameters and settings stay.
pub proof fn lemma_uart_baud<H>(
    name: &str,
    value: &str,
    n: u32,
    ctx: &EventContext<H>,
    config: &mut SSHStampConfig,
    r: EnvOutcome,
)
    requires
        call_ensures(handle::session_env::<H>, (name, Some(value), ctx, config), r),
        name@ == "SSH_STAMP_UART_BAUD"@,
    ensures
        ({
            let given = 300 <= n <= 5_000_000 && values::spells(outside::trimmed(value@), n as nat);
            &&& may_set(ctx, old(config)@) && given ==> is_done(r)
            &&& is_done(r) ==> may_set(ctx, old(config)@)
            &&& is_done(r) && final(config)@.uart_params.baud == n ==> given
            &&& is_done(r) && given ==> final(config)@.uart_params.baud == n
            &&& final(config)@ == (config::ConfigModel {
                uart_params: UartParams {
                    baud: final(config)@.uart_params.baud,
                    ..old(config)@.uart_params
                },
                ..old(config)@
            })
            &&& !is_done(r) ==> is_refused(r, None) && final(config)@ == old(config)@
        }),
{
    lemma_named(name@);
    values::lemma_decimal(outside::trimmed(value@), n as nat);
}

/// The data bits that are stored are the very number that the value spells, from 5 to 8, and no
/// other value is accepted. The other line parameters and settings stay.
pub proof fn lemma_uart_data_bits<H>(
    name: &str,
    value: &str,
    n: u8,
    ctx: &EventContext<H>,
    config: &mut SSHStampConfig,
    r: EnvOutcome,
)
    requires
        call_ensures(handle::session_env::<H>, (name, Some(value), ctx, config), r),
        name@ == "SSH_STAMP_UART_DATA_BITS"@,
    ensures
        ({
            let given = 5 <= n <= 8 && values::spells(outside::trimmed(value@), n as nat);
            &&& may_set(ctx, old(config)@) && given ==> is_done(r)
            &&& is_done(r) ==> may_set(ctx, old(config)@)
            &&& is_done(r) && final(config)@.uart_params.data_bits == n ==> given
            &&& is_done(r) && given ==> final(config)@.uart_params.data_bits == n
            &&& final(config)@ == (config::ConfigModel {
                uart_params: UartParams {
                    data_bits: final(config)@.uart_params.data_bits,
                    ..old(config)@.uart_params
                },
                ..old(config)@
            })
            &&& !is_done(r) ==> is_refused(r, None) && final(config)@ == old(config)@
        }),
{
    lemma_named(name@);
    values::lemma_decimal(outside::trimmed(value@), n as nat);
}

/// The stop bits that are stored are the very number that the value spells, 1 or 2, and no other
/// value is accepted. The other line parameters and settings stay.
pub proof fn lemma_uart_stop_bits<H>(
    name: &str,
    value: &str,
    n: u8,
    ctx: &EventContext<H>,
    config: &mut SSHStampConfig,
    r: EnvOutcome,
)
    requires
        call_ensures(handle::session_env::<H>, (name, Some(value), ctx, config), r),
        name@ == "SSH_STAMP_UART_STOP_BITS"@,
    ensures
        ({
            let given = 1 <= n <= 2 && values::spells(outside::trimmed(value@), n as nat);
            &&& may_set(ctx, old(config)@) && given ==> is_done(r)
            &&& is_done(r) ==> may_set(ctx, old(config)@)
            &&& is_done(r) && final(config)@.uart_params.stop_bits == n ==> given
            &&& is_done(r) && given ==> final(config)@.uart_params.stop_bits == n
            &&& final(config)@ == (config::ConfigModel {
                uart_params: UartParams {
                    stop_bits: final(config)@.uart_params.stop_bits,
                    ..old(config)@.uart_params
                },
                ..old(config)@
            })
            &&& !is_done(r) ==> is_refused(r, None) && final(config)@ == old(config)@
        }),
{
    lemma_named(name@);
    values::lemma_decimal(outside::trimmed(value@), n as nat);
}

/// The parity that is stored is the one that the value names, white space around it aside, and no
/// other name is accepted. The other line parameters and settings stay.
pub proof fn lemma_uart_parity<H>(
    name: &str,
    value: &str,
    ctx: &EventContext<H>,
    config: &mut SSHStampConfig,
    r: EnvOutcome,
)
    requires
        call_ensures(handle::session_env::<H>, (name, Some(value), ctx, config), r),
        name@ == "SSH_STAMP_UART_PARITY"@,
    ensures
        ({
            let t = outside::trimmed(value@);
            let none = t == seq!['n', 'o', 'n', 'e'];
            let even = t == seq!['e', 'v', 'e', 'n'];
            let odd = t == seq!['o', 'd', 'd'];
            &&& is_done(r) <==> may_set(ctx, old(config)@) && (none || even || odd)
            &&& is_done(r) ==> final(config)@ == (config::ConfigModel {
                uart_params: UartParams {
                    parity: if none {
                        Parity::NoParity
                    } else if even {
                        Parity::Even
                    } else {
                        Parity::Odd
                    },
                    ..old(config)@.uart_params
                },
                ..old(config)@
            })
            &&& !is_done(r) ==> is_refused(r, None) && final(config)@ == old(config)@
        }),
{
    lemma_named(name@);
    values::lemma_parity(outside::trimmed(value@));
}

// ---------------------------------------------------------------------------
// The key of the first login
// ---------------------------------------------------------------------------

/// Whether `after` is `before` with `key` in the first empty slot, or in the first of all if none
/// is empty, and every other slot as it was.
pub open spec fn has_key_added(
    before: Seq<Option<Seq<u8>>>,
    after: Seq<Option<Seq<u8>>>,
    key: Seq<u8>,
) -> bool {
    exists|at: int|
        {
            &&& 0 <= at < before.len()
            &&& after == #[trigger] before.update(at, Some(key))
            &&& before[at] is None || at == 0
            &&& forall|i: int| 0 <= i < before.len() && before[i] is None ==> at <= i && before[at]
                is None
        }
}

/// An added key is in the first empty slot, or over the first one.
pub proof fn lemma_with_key(slots: Seq<Option<Seq<u8>>>, key: Seq<u8>)
    requires
        slots.len() > 0,
    ensures
        has_key_added(slots, config::with_key(slots, key), key),
{
    lemma_slot(slots, 0);
    assert(config::with_key(slots, key) == slots.update(config::slot_for(slots, 0), Some(key)));
}

proof fn lemma_slot(slots: Seq<Option<Seq<u8>>>, from: int)
    requires
        0 <= from <= slots.len(),
        slots.len() > 0,
    ensures
        ({
            let at = config::slot_for(slots, from);
            &&& 0 <= at < slots.len()
            &&& slots[at] is None || at == 0
            &&& forall|i: int| from <= i < slots.len() && slots[i] is None ==> at <= i && slots[at]
                is None
        }),
    decreases slots.len() - from,
{
    if from < slots.len() && slots[from] is Some {
        lemma_slot(slots, from + 1);
    }
}

/// A key is added exactly on first login, and exactly if the value is a line of 1 to 256
/// characters that print, white space around it aside, which reads as an Ed25519 key: in the
/// first empty slot, or over the first one. Nothing else of the configuration changes. A key that
/// cannot be read, or is of another kind, is refused with its own error.
pub proof fn lemma_pubkey<H>(
    name: &str,
    value: &str,
    ctx: &EventContext<H>,
    config: &mut SSHStampConfig,
    r: EnvOutcome,
)
    requires
        call_ensures(handle::session_env::<H>, (name, Some(value), ctx, config), r),
        name@ == "SSH_STAMP_PUBKEY"@,
    ensures
        ({
            let line = outside::trimmed(value@);
            let is_line = 1 <= line.len() <= 256 && values::prints(line);
            let key = outside::openssh_key(line);
            &&& r.answer == Answer::Succeed <==> old(config)@.first_login && is_line && (key
                matches Some(Some(_)))
            &&& r.answer == Answer::Succeed ==> {
                &&& r.effect == Effect::KeyAdded && r.error is None
                &&& (key matches Some(Some(k)) && has_key_added(
                    old(config)@.pubkeys,
                    final(config)@.pubkeys,
                    k@,
                ))
                &&& final(config)@ == (config::ConfigModel {
                    pubkeys: final(config)@.pubkeys,
                    ..old(config)@
                })
            }
            &&& r.answer != Answer::Succeed ==> final(config)@ == old(config)@
            &&& !old(config)@.first_login ==> is_refused(r, None)
            &&& old(config)@.first_login && (!is_line || key is None) ==> is_refused(
                r,
                Some(StampError::KeyFormat),
            )
            &&& old(config)@.first_login && is_line && key == Some(None::<[u8; 32]>)
                ==> is_refused(r, Some(StampError::BadKey))
        }),
{
    lemma_named(name@);
    assert(old(config)@.pubkeys.len() == 3);
    let line = outside::trimmed(value@);
    values::lemma_key_line(line);
    if let Some(Some(k)) = outside::openssh_key(line) {
        lemma_with_key(old(config)@.pubkeys, k@);
    }
}

/// A key line with any comment that prints is added as it is on first login, whatever white space
/// is around it.
pub proof fn lemma_pubkey_line<H>(
    front: Seq<char>,
    line: Seq<char>,
    back: Seq<char>,
    key: [u8; 32],
    name: &str,
    value: &str,
    ctx: &EventContext<H>,
    config: &mut SSHStampConfig,
    r: EnvOutcome,
)
    requires
        call_ensures(handle::session_env::<H>, (name, Some(value), ctx, config), r),
        name@ == "SSH_STAMP_PUBKEY"@,
        old(config)@.first_login,
        value@ == front + line + back,
        values::is_blank(front),
        values::is_blank(back),
        values::is_core(line),
        line.len() <= 256,
        values::prints(line),
        outside::openssh_key(line) == Some(Some(key)),
    ensures
        r.answer == Answer::Succeed,
        r.effect == Effect::KeyAdded,
        final(config)@.pubkeys.contains(Some(key@)),
{
    values::lemma_trimmed(front, line, back);
    lemma_pubkey(name, value, ctx, config, r);
    let before = old(config)@.pubkeys;
    let after = final(config)@.pubkeys;
    let at = choose|at: int|
        0 <= at < before.len() && after == #[trigger] before.update(at, Some(key@));
    assert(after[at] == Some(key@));
}

/// What comes of trying a key: it was added, or its error is returned with the refusal.
pub proof fn lemma_key_tried(added: Result<(), StampError>, r: EnvOutcome)
    requires
        call_ensures(handle::key_tried, (added,), r),
    ensures
        added is Ok ==> r.answer == Answer::Succeed && r.effect == Effect::KeyAdded && r.error
            is None,
        added matches Err(e) ==> is_refused(r, Some(e)),
{
}

/// By its own function a variable is set as it is by its name.
pub proof fn lemma_pubkey_env<H>(
    name: &str,
    value: Option<&str>,
    ctx: &EventContext<H>,
    config: &mut SSHStampConfig,
    r: EnvOutcome,
    same: &mut SSHStampConfig,
    r_same: EnvOutcome,
)
    requires
        call_ensures(handle::session_env::<H>, (name, value, ctx, config), r),
        name@ == "SSH_STAMP_PUBKEY"@,
        old(same)@ == old(config)@,
        call_ensures(handle::pubkey_env, (same, value), r_same),
    ensures
        final(same)@ == final(config)@,
        r_same == r,
{
    lemma_named(name@);
}

/// By its own function a variable is set as it is by its name.
pub proof fn lemma_wifi_ap_ssid_env<H>(
    name: &str,
    value: Option<&str>,
    ctx: &EventContext<H>,
    config: &mut SSHStampConfig,
    r: EnvOutcome,
    same: &mut SSHStampConfig,
    r_same: EnvOutcome,
)
    requires
        call_ensures(handle::session_env::<H>, (name, value, ctx, config), r),
        name@ == "SSH_STAMP_WIFI_AP_SSID"@,
        old(same)@ == old(config)@,
        call_ensures(handle::wifi_ap_ssid_env::<H>, (ctx, same, value), r_same),
    ensures
        final(same)@ == final(config)@,
        r_same == r,
{
    lemma_named(name@);
}

/// By its own function a variable is set as it is by its name.
pub proof fn lemma_wifi_ap_psk_env<H>(
    name: &str,
    value: Option<&str>,
    ctx: &EventContext<H>,
    config: &mut SSHStampConfig,
    r: EnvOutcome,
    same: &mut SSHStampConfig,
    r_same: EnvOutcome,
)
    requires
        call_ensures(handle::session_env::<H>, (name, value, ctx, config), r),
        name@ == "SSH_STAMP_WIFI_AP_PSK"@,
        old(same)@ == old(config)@,
        call_ensures(handle::wifi_ap_psk_env::<H>, (ctx, same, value), r_same),
    ensures
        final(same)@ == final(config)@,
        r_same == r,
{
    lemma_named(name@);
}

/// By its own function a variable is set as it is by its name.
pub proof fn lemma_wifi_band_env<H>(
    name: &str,
    value: Option<&str>,
    ctx: &EventContext<H>,
    config: &mut SSHStampConfig,
    r: EnvOutcome,
    same: &mut SSHStampConfig,
    r_same: EnvOutcome,
)
    requires
        call_ensures(handle::session_env::<H>, (name, value, ctx, config), r),
        name@ == "SSH_STAMP_WIFI_BAND"@,
        old(same)@ == old(config)@,
        call_ensures(handle::wifi_band_env::<H>, (ctx, same, value), r_same),
    ensures
        final(same)@ == final(config)@,
        r_same == r,
{
    lemma_named(name@);
}

/// By its own function a variable is set as it is by its name.
pub proof fn lemma_wifi_sta_ssid_env<H>(
    name: &str,
    value: Option<&str>,
    ctx: &EventContext<H>,
    config: &mut SSHStampConfig,
    r: EnvOutcome,
    same: &mut SSHStampConfig,
    r_same: EnvOutcome,
)
    requires
        call_ensures(handle::session_env::<H>, (name, value, ctx, config), r),
        name@ == "SSH_STAMP_WIFI_STA_SSID"@,
        old(same)@ == old(config)@,
        call_ensures(handle::wifi_sta_ssid_env::<H>, (ctx, same, value), r_same),
    ensures
        final(same)@ == final(config)@,
        r_same == r,
{
    lemma_named(name@);
}

/// By its own function a variable is set as it is by its name.
pub proof fn lemma_wifi_sta_psk_env<H>(
    name: &str,
    value: Option<&str>,
    ctx: &EventContext<H>,
    config: &mut SSHStampConfig,
    r: EnvOutcome,
    same: &mut SSHStampConfig,
    r_same: EnvOutcome,
)
    requires
        call_ensures(handle::session_env::<H>, (name, value, ctx, config), r),
        name@ == "SSH_STAMP_WIFI_STA_PSK"@,
        old(same)@ == old(config)@,
        call_ensures(handle::wifi_sta_psk_env::<H>, (ctx, same, value), r_same),
    ensures
        final(same)@ == final(config)@,
        r_same == r,
{
    lemma_named(name@);
}

/// By its own function a variable is set as it is by its name.
pub proof fn lemma_wifi_mac_address_env<H>(
    name: &str,
    value: Option<&str>,
    ctx: &EventContext<H>,
    config: &mut SSHStampConfig,
    r: EnvOutcome,
    same: &mut SSHStampConfig,
    r_same: EnvOutcome,
)
    requires
        call_ensures(handle::session_env::<H>, (name, value, ctx, config), r),
        name@ == "SSH_STAMP_WIFI_MAC_ADDRESS"@,
        old(same)@ == old(config)@,
        call_ensures(handle::wifi_mac_address_env::<H>, (ctx, same, value), r_same),
    ensures
        final(same)@ == final(config)@,
        r_same == r,
{
    lemma_named(name@);
}

/// By its own function a variable is set as it is by its name.
pub proof fn lemma_wifi_mac_random_env<H>(
    name: &str,
    value: Option<&str>,
    ctx: &EventContext<H>,
    config: &mut SSHStampConfig,
    r: EnvOutcome,
    same: &mut SSHStampConfig,
    r_same: EnvOutcome,
)
    requires
        call_ensures(handle::session_env::<H>, (name, value, ctx, config), r),
        name@ == "SSH_STAMP_WIFI_MAC_RANDOM"@,
        old(same)@ == old(config)@,
        call_ensures(handle::wifi_mac_random_env::<H>, (ctx, same), r_same),
    ensures
        final(same)@ == final(config)@,
        r_same == r,
{
    lemma_named(name@);
}

/// By its own function a line parameter is set as it is by its name.
pub proof fn lemma_uart_env<H>(
    param: UartParam,
    name: &str,
    value: Option<&str>,
    ctx: &EventContext<H>,
    config: &mut SSHStampConfig,
    r: EnvOutcome,
    same: &mut SSHStampConfig,
    r_same: EnvOutcome,
)
    requires
        call_ensures(handle::session_env::<H>, (name, value, ctx, config), r),
        param == UartParam::Baud ==> name@ == "SSH_STAMP_UART_BAUD"@,
        param == UartParam::DataBits ==> name@ == "SSH_STAMP_UART_DATA_BITS"@,
        param == UartParam::Parity ==> name@ == "SSH_STAMP_UART_PARITY"@,
        param == UartParam::StopBits ==> name@ == "SSH_STAMP_UART_STOP_BITS"@,
        old(same)@ == old(config)@,
        call_ensures(handle::uart_env::<H>, (param, ctx, same, value), r_same),
    ensures
        final(same)@ == final(config)@,
        r_same == r,
{
    lemma_named(name@);
}

// ---------------------------------------------------------------------------
// After the answer
// ---------------------------------------------------------------------------

/// A changed setting is noted as a change that needs a reset. An added key ends the first login,
/// authenticates the client, and is noted as a change that needs none. Nothing else changes.
pub proof fn lemma_env_answered<H>(
    ctx: &mut EventContext<H>,
    config: &mut SSHStampConfig,
    effect: Effect,
)
    requires
        call_ensures(handle::env_answered::<H>, (ctx, config, effect), ()),
    ensures
        ({
            let key = effect == Effect::KeyAdded && old(config)@.first_login;
            let set = effect == Effect::SettingChanged;
            &&& final(ctx).config_changed <==> old(ctx).config_changed || set || key
            &&& final(ctx).needs_reset <==> old(ctx).needs_reset || set
            &&& final(ctx).auth_checked <==> old(ctx).auth_checked || key
            &&& final(ctx).session == old(ctx).session
            &&& final(ctx).can_dispatched == old(ctx).can_dispatched
            &&& final(config)@.first_login <==> old(config)@.first_login && effect
                != Effect::KeyAdded
            &&& final(config)@ == (config::ConfigModel {
                first_login: final(config)@.first_login,
                ..old(config)@
            })
        }),
{
}

/// What was changed by a request that succeeded is saved with the next shell: a setting as well
/// as the key of the first login, which needs no reset.
pub proof fn lemma_change_is_saved_next<H>(
    ctx: &mut EventContext<H>,
    config: &mut SSHStampConfig,
    effect: Effect,
    shell: &mut EventContext<H>,
    channel: H,
    r: ShellAction<H>,
)
    requires
        call_ensures(handle::env_answered::<H>, (ctx, config, effect), ()),
        effect == Effect::SettingChanged && old(ctx).auth_checked || effect == Effect::KeyAdded
            && old(config)@.first_login,
        *shell == *final(ctx),
        old(ctx).session == Some(channel),
        call_ensures(session::session_shell::<H>, (shell,), r),
    ensures
        r == ShellAction::Save(channel),
        !final(shell).config_changed,
        final(shell).needs_reset <==> old(ctx).needs_reset || effect == Effect::SettingChanged,
{
}

} // verus!
