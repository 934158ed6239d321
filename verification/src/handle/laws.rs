//! What holds of a connection as a whole.

use vstd::prelude::*;

use crate::codec;
use crate::config;
use crate::handle;
use crate::handle::{env_parser, session, Answer, EnvVar, EventContext, UartParam};
use crate::handle::session::{ClientKey, ShellAction, SubsystemAction};
use crate::outside;
use crate::settings::{Features, KEY_SLOTS};

verus! {

/// A request to set a variable, from its arrival to when its answer was sent: the connection
/// and the configuration then, and the answer.
pub open spec fn env_step<H>(
    ctx: EventContext<H>,
    c: config::ConfigModel,
    var: EnvVar,
    value: Option<Seq<char>>,
) -> (EventContext<H>, config::ConfigModel, Answer) {
    let (c1, o) = handle::env_outcome(var, ctx.auth_checked, c, value);
    (handle::noted(ctx, c1.first_login, o.effect), handle::settled(c1, o.effect), o.answer)
}

/// A client that has not authenticated sets nothing once a key is provisioned.
pub proof fn lemma_unauthorised_sets_nothing<H>(
    ctx: EventContext<H>,
    c: config::ConfigModel,
    var: EnvVar,
    value: Option<Seq<char>>,
)
    requires
        !ctx.auth_checked,
        !c.first_login,
        var != EnvVar::Ignored,
    ensures
        env_step(ctx, c, var, value) == (ctx, c, Answer::Fail),
{
}

/// A request that is not accepted changes nothing.
pub proof fn lemma_refused_changes_nothing<H>(
    ctx: EventContext<H>,
    c: config::ConfigModel,
    var: EnvVar,
    value: Option<Seq<char>>,
)
    requires
        env_step(ctx, c, var, value).2 != Answer::Succeed,
    ensures
        env_step(ctx, c, var, value).0 == ctx,
        env_step(ctx, c, var, value).1 == c,
{
}

/// An error comes only with a refusal, and then nothing changes.
pub proof fn lemma_error_is_a_refusal<H>(
    ctx: EventContext<H>,
    c: config::ConfigModel,
    var: EnvVar,
    value: Option<Seq<char>>,
)
    requires
        handle::env_outcome(var, ctx.auth_checked, c, value).1.error is Some,
    ensures
        env_step(ctx, c, var, value) == (ctx, c, Answer::Fail),
{
}

/// Keys are set on first login only, by `SSH_STAMP_PUBKEY`, and the first login never comes
/// back. What the client may not set stays: host key, pins and static addresses.
pub proof fn lemma_env_keeps<H>(
    ctx: EventContext<H>,
    c: config::ConfigModel,
    var: EnvVar,
    value: Option<Seq<char>>,
)
    ensures
        ({
            let (ctx1, c1, _) = env_step(ctx, c, var, value);
            &&& c1.first_login ==> c.first_login
            &&& c1.pubkeys != c.pubkeys ==> c.first_login && var == EnvVar::Pubkey
            &&& ctx1.auth_checked != ctx.auth_checked ==> c.first_login && !c1.first_login && var
                == EnvVar::Pubkey
            &&& c1.hostkey == c.hostkey
            &&& c1.uart_pins == c.uart_pins
            &&& c1.ipv4_static == c.ipv4_static
            &&& c1.ipv6_static == c.ipv6_static
            &&& ctx1.session == ctx.session
        }),
{
}

/// A configuration that can be stored still can after a request.
pub proof fn lemma_env_keeps_storable<H>(
    ctx: EventContext<H>,
    c: config::ConfigModel,
    var: EnvVar,
    value: Option<Seq<char>>,
    ipv6: bool,
)
    requires
        codec::storable(c, ipv6),
    ensures
        codec::storable(env_step(ctx, c, var, value).1, ipv6),
{
    if var == EnvVar::Pubkey {
        if let Some(v) = value {
            if let Some(Some(key)) = outside::openssh_key(outside::trimmed(v)) {
                config::lemma_added_key_is_held(c.pubkeys, key@);
            }
        }
    }
}

/// The key that a client sets on first login ends it: the client counts as authenticated, and
/// from then on the key opens the device.
pub proof fn lemma_provisioned_key_opens<H>(
    ctx: EventContext<H>,
    c: config::ConfigModel,
    value: Seq<char>,
    key: config::Ed25519PubKey,
)
    requires
        c.first_login,
        c.pubkeys.len() == KEY_SLOTS,
        env_parser::is_key_line(outside::trimmed(value)),
        outside::openssh_key(outside::trimmed(value)) == Some(Some(key.key)),
    ensures
        ({
            let (ctx1, c1, answer) = env_step(ctx, c, EnvVar::Pubkey, Some(value));
            &&& answer == Answer::Succeed
            &&& !c1.first_login
            &&& ctx1.auth_checked && ctx1.config_changed
            &&& session::is_provisioned(c1.pubkeys, ClientKey::Ed25519(key))
        }),
{
    config::lemma_added_key_is_held(c.pubkeys, key.key@);
}

/// After the first login no other key is added.
pub proof fn lemma_no_second_key<H>(
    ctx: EventContext<H>,
    c: config::ConfigModel,
    value: Option<Seq<char>>,
)
    requires
        !c.first_login,
    ensures
        env_step(ctx, c, EnvVar::Pubkey, value) == (ctx, c, Answer::Fail),
{
}

/// A setting that was changed is saved with the next shell, which resets the device.
pub proof fn lemma_change_is_saved<H>(
    ctx: EventContext<H>,
    c: config::ConfigModel,
    var: EnvVar,
    value: Option<Seq<char>>,
    channel: H,
)
    requires
        ctx.auth_checked,
        ctx.session == Some(channel),
        var != EnvVar::Ignored,
        var != EnvVar::Pubkey,
        env_step(ctx, c, var, value).2 == Answer::Succeed,
    ensures
        ({
            let (ctx1, _, _) = env_step(ctx, c, var, value);
            let (ctx2, action) = session::shell_request(ctx1);
            action == ShellAction::Save(channel) && !ctx2.config_changed && ctx2.needs_reset
        }),
{
}

/// A client that has not authenticated gets no shell, and the connection stays as it is.
pub proof fn lemma_no_shell_without_auth<H>(ctx: EventContext<H>)
    requires
        !ctx.auth_checked,
    ensures
        session::shell_request(ctx) == (ctx, ShellAction::<H>::Fail),
{
}

/// A channel is handed over once: the next request needs another session.
pub proof fn lemma_channel_is_used_once<H>(
    ctx: EventContext<H>,
    features: Features,
    name: Seq<char>,
    other: Seq<char>,
)
    ensures
        ({
            let (ctx1, action) = session::shell_request(ctx);
            action !is Fail ==> session::shell_request(ctx1).1 is Fail
                && session::subsystem_request(ctx1, features, name).1 is Fail
        }),
        ({
            let (ctx1, action) = session::subsystem_request(ctx, features, name);
            action !is Fail ==> session::shell_request(ctx1).1 is Fail
                && session::subsystem_request(ctx1, features, other).1 is Fail
        }),
{
}

/// Once a CAN session was accepted there is no update on the same connection, whatever
/// sessions are opened.
pub proof fn lemma_can_rules_out_update<H>(ctx: EventContext<H>, features: Features)
    requires
        features.can,
        ctx.can_dispatched,
    ensures
        session::subsystem_request(ctx, features, "sftp"@) == (ctx, SubsystemAction::<H>::Fail),
{
}

/// A CAN session leaves the client authenticated: with another session it gets a shell
/// besides.
pub proof fn lemma_shell_beside_can<H>(
    ctx: EventContext<H>,
    features: Features,
    name: Seq<char>,
    channel: H,
)
    requires
        ctx.auth_checked,
        session::subsystem_request(ctx, features, name).1 is Can,
    ensures
        ({
            let (ctx1, _) = session::subsystem_request(ctx, features, name);
            session::shell_request(EventContext { session: Some(channel), ..ctx1 }).1 !is Fail
        }),
{
}

/// A generated name and passphrase are ones that a client could have set.
pub proof fn lemma_generated_is_accepted(c: config::ConfigModel, ssid: Seq<u8>, pw: Seq<u8>)
    requires
        ssid.len() == 16,
        pw.len() == 24,
    ensures
        handle::setting(EnvVar::WifiApSsid, c, config::wifi_text(ssid)) is Some,
        handle::setting(EnvVar::WifiApPsk, c, config::wifi_text(pw)) is Some,
{
    config::lemma_wifi_text(ssid);
    config::lemma_wifi_text(pw);
    assert(env_parser::sanitary(config::wifi_text(ssid)));
    assert(env_parser::sanitary(config::wifi_text(pw)));
}

/// Each line parameter is set by the variable that it names.
pub proof fn lemma_uart_names(param: UartParam)
    ensures
        EnvVar::named(param.name()) == EnvVar::Uart(param),
{
    reveal_strlit("SSH_STAMP_PUBKEY");
    reveal_strlit("SSH_STAMP_WIFI_AP_SSID");
    reveal_strlit("SSH_STAMP_WIFI_AP_PSK");
    reveal_strlit("SSH_STAMP_WIFI_BAND");
    reveal_strlit("SSH_STAMP_WIFI_STA_SSID");
    reveal_strlit("SSH_STAMP_WIFI_STA_PSK");
    reveal_strlit("SSH_STAMP_WIFI_STA_PW");
    reveal_strlit("SSH_STAMP_WIFI_MAC_ADDRESS");
    reveal_strlit("SSH_STAMP_WIFI_MAC_RANDOM");
    reveal_strlit("SSH_STAMP_UART_BAUD");
    reveal_strlit("SSH_STAMP_UART_DATA_BITS");
    reveal_strlit("SSH_STAMP_UART_PARITY");
    reveal_strlit("SSH_STAMP_UART_STOP_BITS");
    let name = param.name();
    let c10 = "SSH_STAMP_WIFI_AP_SSID"@[10];
    assert(name[10] == 'U');
    assert(c10 == 'W');
    match param {
        UartParam::Baud => {},
        UartParam::DataBits => {
            assert(name[15] == 'D');
            assert("SSH_STAMP_UART_BAUD"@[15] == 'B');
        },
        UartParam::Parity => {
            assert(name[15] == 'P');
            assert("SSH_STAMP_UART_BAUD"@[15] == 'B');
            assert("SSH_STAMP_UART_DATA_BITS"@[15] == 'D');
        },
        UartParam::StopBits => {
            assert(name[15] == 'S');
            assert("SSH_STAMP_UART_BAUD"@[15] == 'B');
            assert("SSH_STAMP_UART_DATA_BITS"@[15] == 'D');
            assert("SSH_STAMP_UART_PARITY"@[15] == 'P');
        },
    }
}

} // verus!
