//! Authentication, channels and what runs on them.

use vstd::prelude::*;
use vstd::utf8::*;

use crate::config;
use crate::config::{Ed25519PubKey, SSHStampConfig, SignKey};
use crate::errors::StampError;
use crate::handle::{Answer, EventContext};
use crate::outside;
use crate::settings::{Features, KEY_SLOTS};
use crate::text;
use crate::wire;

verus! {

// ---------------------------------------------------------------------------
// Authentication
// ---------------------------------------------------------------------------

/// Whether a client is let in.
#[derive(Clone, Copy, Debug, PartialEq, Eq, Structural)]
pub enum AuthAnswer {
    Allow,
    Reject,
}

/// The answer to a client that has not said how it will authenticate.
#[derive(Clone, Copy, Debug, PartialEq, Eq, Structural)]
pub struct FirstAuthAnswer {
    /// Whether passwords are offered.
    pub password_auth: bool,
    /// Whether public keys are offered.
    pub pubkey_auth: bool,
    pub answer: AuthAnswer,
}

/// A key that a client presents.
#[derive(Clone, Copy, Debug, PartialEq, Eq)]
pub enum ClientKey {
    Ed25519(Ed25519PubKey),
    /// A key of a kind that is not supported.
    Unknown,
}

/// The first authentication request: public keys are offered and passwords are not, and
/// on first login anyone is let in.
pub fn first_auth(config: &SSHStampConfig) -> (r: FirstAuthAnswer)
    ensures
        !r.password_auth,
        r.pubkey_auth,
        r.answer == (if config@.first_login {
            AuthAnswer::Allow
        } else {
            AuthAnswer::Reject
        }),
{
    FirstAuthAnswer {
        password_auth: false,
        pubkey_auth: true,
        answer: if config.first_login {
            AuthAnswer::Allow
        } else {
            AuthAnswer::Reject
        },
    }
}

/// The key that the device identifies itself with.
pub fn hostkeys(config: &SSHStampConfig) -> (k: &SignKey)
    ensures
        k@ == config@.hostkey,
{
    &config.hostkey
}

/// Passwords are not accepted.
pub fn password_auth() -> (r: AuthAnswer)
    ensures
        r == AuthAnswer::Reject,
{
    AuthAnswer::Reject
}

/// Whether a key is one of those provisioned.
pub open spec fn is_provisioned(slots: Seq<Option<Seq<u8>>>, key: ClientKey) -> bool {
    key matches ClientKey::Ed25519(k) && slots.contains(Some(k.key@))
}

fn holds_key(config: &SSHStampConfig, key: &Ed25519PubKey) -> (r: bool)
    ensures
        r == config@.pubkeys.contains(Some(key.key@)),
{
    let ghost slots = config@.pubkeys;
    let mut i: usize = 0;
    while i < KEY_SLOTS
        invariant
            i <= KEY_SLOTS,
            slots == config::slots_model(config.pubkeys@),
            forall|j: int| 0 <= j < i ==> slots[j] != Some(key.key@),
        decreases KEY_SLOTS - i,
    {
        assert(slots[i as int] == config::slot_model(config.pubkeys@[i as int]));
        match &config.pubkeys[i] {
            Some(stored) => {
                if wire::same_bytes(&stored.key, &key.key) {
                    assert(slots[i as int] == Some(key.key@));
                    return true;
                }
            },
            None => {},
        }
        i = i + 1;
    }
    false
}

/// A client presents a key: it is let in, and counts as authenticated, if the key is one of
/// those provisioned.
pub fn pubkey_auth<H>(
    ctx: &mut EventContext<H>,
    config: &SSHStampConfig,
    presented: &ClientKey,
) -> (r: AuthAnswer)
    ensures
        r == (if is_provisioned(config@.pubkeys, *presented) {
            AuthAnswer::Allow
        } else {
            AuthAnswer::Reject
        }),
        *final(ctx) == (EventContext {
            auth_checked: old(ctx).auth_checked || is_provisioned(config@.pubkeys, *presented),
            ..*old(ctx)
        }),
{
    match presented {
        ClientKey::Ed25519(key) => {
            if holds_key(config, key) {
                ctx.auth_checked = true;
                AuthAnswer::Allow
            } else {
                AuthAnswer::Reject
            }
        },
        ClientKey::Unknown => AuthAnswer::Reject,
    }
}

// ---------------------------------------------------------------------------
// Channels
// ---------------------------------------------------------------------------

/// Whether a channel is opened.
#[derive(Clone, Copy, Debug, PartialEq, Eq, Structural)]
pub enum OpenAnswer {
    Accept,
    /// Administratively prohibited.
    Prohibited,
}

/// A request to open a session: one at a time.
pub fn open_session<H>(ctx: &EventContext<H>) -> (r: OpenAnswer)
    ensures
        r == (if ctx.session is Some {
            OpenAnswer::Prohibited
        } else {
            OpenAnswer::Accept
        }),
{
    match &ctx.session {
        Some(_) => OpenAnswer::Prohibited,
        None => OpenAnswer::Accept,
    }
}

/// Takes note of the channel that a session was opened on.
pub fn session_opened<H>(ctx: &mut EventContext<H>, channel: H)
    ensures
        *final(ctx) == (EventContext { session: Some(channel), ..*old(ctx) }),
{
    ctx.session = Some(channel);
}

/// A request for a terminal: granted to a client that has authenticated, and on first
/// login.
pub fn session_pty<H>(ctx: &EventContext<H>, config: &SSHStampConfig) -> (r: Answer)
    ensures
        r == (if ctx.auth_checked || config@.first_login {
            Answer::Succeed
        } else {
            Answer::Fail
        }),
{
    if ctx.auth_checked || config.first_login {
        Answer::Succeed
    } else {
        Answer::Fail
    }
}

/// Commands are not run.
pub fn session_exec() -> (r: Answer)
    ensures
        r == Answer::Fail,
{
    Answer::Fail
}

/// An event that should have been handled elsewhere.
pub fn defunct() -> (r: Result<(), StampError>)
    ensures
        r == Err::<(), StampError>(StampError::BadUsage),
{
    Err(StampError::BadUsage)
}

/// Nothing is to be done when a bridge ends.
pub fn bridge_disable() {
}

/// A channel that is handed over, and what is to run on it.
#[derive(Debug, PartialEq, Eq)]
pub enum SessionType<H> {
    /// The serial bridge.
    Bridge(H),
    /// A firmware update over SFTP.
    Sftp(H),
}

// ---------------------------------------------------------------------------
// Shell
// ---------------------------------------------------------------------------

/// What is to be done about a request for a shell. The channel is that of the session.
#[derive(Debug, PartialEq, Eq)]
pub enum ShellAction<H> {
    /// Refuse the request.
    Fail,
    /// Save the configuration, then see [`config_saved`].
    Save(H),
    /// Reset the device, then accept.
    Reset(SessionType<H>),
    /// Accept the request, activate the UART and hand the channel over, then see
    /// [`channel_sent`].
    Accept(SessionType<H>),
}

/// What is to be done about a request for a shell, and the connection then.
pub open spec fn shell_request<H>(ctx: EventContext<H>) -> (EventContext<H>, ShellAction<H>) {
    match ctx.session {
        Some(ch) if ctx.auth_checked => if ctx.config_changed {
            (
                EventContext { session: None, config_changed: false, ..ctx },
                ShellAction::Save(ch),
            )
        } else {
            (
                EventContext { session: None, ..ctx },
                ShellAction::Accept(SessionType::Bridge(ch)),
            )
        },
        _ => (ctx, ShellAction::Fail),
    }
}

/// A request for a shell: refused to a client that has not authenticated, or without a
/// session. What was changed is saved beforehand.
pub fn session_shell<H>(ctx: &mut EventContext<H>) -> (r: ShellAction<H>)
    ensures
        (*final(ctx), r) == shell_request(*old(ctx)),
{
    if !ctx.auth_checked {
        return ShellAction::Fail;
    }
    match ctx.session.take() {
        Some(ch) => {
            if ctx.config_changed {
                ctx.config_changed = false;
                ShellAction::Save(ch)
            } else {
                ShellAction::Accept(SessionType::Bridge(ch))
            }
        },
        None => ShellAction::Fail,
    }
}

/// What follows the attempt to save the configuration: a failure ends the connection, and
/// where a change needs it the device is reset.
pub fn config_saved<H>(ctx: &EventContext<H>, channel: H, saved: bool) -> (r: Result<
    ShellAction<H>,
    StampError,
>)
    ensures
        r == (if !saved {
            Err(StampError::BadUsage)
        } else if ctx.needs_reset {
            Ok(ShellAction::Reset(SessionType::Bridge(channel)))
        } else {
            Ok(ShellAction::Accept(SessionType::Bridge(channel)))
        }),
{
    if !saved {
        return Err(StampError::BadUsage);
    }
    if ctx.needs_reset {
        Ok(ShellAction::Reset(SessionType::Bridge(channel)))
    } else {
        Ok(ShellAction::Accept(SessionType::Bridge(channel)))
    }
}

/// Takes note that a channel was handed over, or that it could not be. The client has to
/// authenticate again before it gets another one.
pub fn channel_sent<H>(ctx: &mut EventContext<H>, sent: bool)
    ensures
        *final(ctx) == (EventContext { auth_checked: old(ctx).auth_checked && !sent, ..*old(ctx) }),
{
    if sent {
        ctx.auth_checked = false;
    }
}

// ---------------------------------------------------------------------------
// Subsystems
// ---------------------------------------------------------------------------

/// What is to be done about a request for a subsystem. The channel is that of the session.
#[derive(Debug, PartialEq, Eq)]
pub enum SubsystemAction<H> {
    /// Refuse the request.
    Fail,
    /// No answer: the name is not text, which is an error.
    BadText,
    /// Accept the request and hand the channel over, then see [`channel_sent`].
    Accept(SessionType<H>),
    /// Accept the request and hand the channel to the CAN bridge, then see
    /// [`can_accepted`].
    Can(H),
}

/// What is to be done about a request for a subsystem whose name is `name` in lower case,
/// and the connection then. The client has authenticated.
///
/// An update needs all of the bandwidth, so it is refused once a CAN session was
/// dispatched.
pub open spec fn subsystem_request<H>(ctx: EventContext<H>, features: Features, name: Seq<char>)
    -> (EventContext<H>, SubsystemAction<H>) {
    let taken = EventContext { session: None, ..ctx };
    if name == "sftp"@ {
        match ctx.session {
            Some(ch) if features.sftp_ota && !(features.can && ctx.can_dispatched) => (
                taken,
                SubsystemAction::Accept(SessionType::Sftp(ch)),
            ),
            _ => (ctx, SubsystemAction::Fail),
        }
    } else if name == "can"@ {
        match ctx.session {
            Some(ch) if features.can => (taken, SubsystemAction::Can(ch)),
            _ => (ctx, SubsystemAction::Fail),
        }
    } else {
        (ctx, SubsystemAction::Fail)
    }
}

/// A request of a client that has authenticated for the subsystem whose name is `name` in
/// lower case.
pub fn subsystem_named<H>(
    ctx: &mut EventContext<H>,
    features: Features,
    name: &str,
) -> (r: SubsystemAction<H>)
    ensures
        (*final(ctx), r) == subsystem_request(*old(ctx), features, name@),
{
    proof {
        reveal_strlit("sftp");
        reveal_strlit("can");
    }
    if text::equals(name, "sftp") {
        if !features.sftp_ota || (features.can && ctx.can_dispatched) {
            return SubsystemAction::Fail;
        }
        match ctx.session.take() {
            Some(ch) => SubsystemAction::Accept(SessionType::Sftp(ch)),
            None => SubsystemAction::Fail,
        }
    } else if text::equals(name, "can") {
        if !features.can {
            return SubsystemAction::Fail;
        }
        match ctx.session.take() {
            Some(ch) => SubsystemAction::Can(ch),
            None => SubsystemAction::Fail,
        }
    } else {
        SubsystemAction::Fail
    }
}

/// A request for the subsystem `name`, if that is text: refused to a client that has not
/// authenticated. Upper and lower case are the same.
pub fn session_subsystem<H>(
    ctx: &mut EventContext<H>,
    features: Features,
    name: Option<&str>,
) -> (r: SubsystemAction<H>)
    ensures
        (*final(ctx), r) == (if !old(ctx).auth_checked {
            (*old(ctx), SubsystemAction::Fail)
        } else {
            match name {
                None => (*old(ctx), SubsystemAction::BadText),
                Some(n) => subsystem_request(*old(ctx), features, outside::lowercase(n@)),
            }
        }),
        name matches Some(n) ==> old(ctx).auth_checked && is_ascii_chars(n@) ==> (*final(ctx), r)
            == subsystem_request(*old(ctx), features, text::ascii_lower(n@)),
{
    if !ctx.auth_checked {
        return SubsystemAction::Fail;
    }
    match name {
        None => SubsystemAction::BadText,
        Some(n) => {
            let lower = outside::to_lowercase(n);
            subsystem_named(ctx, features, lower.as_str())
        },
    }
}

/// Takes note that a CAN session was accepted. The client stays authenticated, so that it
/// can open a shell besides.
pub fn can_accepted<H>(ctx: &mut EventContext<H>, features: Features)
    ensures
        *final(ctx) == (EventContext {
            can_dispatched: old(ctx).can_dispatched || features.sftp_ota,
            ..*old(ctx)
        }),
{
    if features.sftp_ota {
        ctx.can_dispatched = true;
    }
}

} // verus!
