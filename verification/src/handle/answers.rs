//! What a client's requests come to: for each function that decides one, what its result is in
//! every case.

use vstd::prelude::*;
use vstd::utf8::*;

use crate::config;
use crate::config::SSHStampConfig;
use crate::errors::StampError;
use crate::handle::session;
use crate::handle::session::{
    AuthAnswer, ClientKey, FirstAuthAnswer, OpenAnswer, SessionType, ShellAction, SubsystemAction,
};
use crate::handle::{Answer, EventContext};
use crate::outside;
use crate::settings::Features;

verus! {

// ---------------------------------------------------------------------------
// Authentication
// ---------------------------------------------------------------------------

/// Public keys are offered and passwords never are; without any proof a client is let in on
/// first login, and only then.
pub proof fn lemma_first_auth(config: &SSHStampConfig, r: FirstAuthAnswer)
    requires
        call_ensures(session::first_auth, (config,), r),
    ensures
        r.pubkey_auth,
        !r.password_auth,
        r.answer == AuthAnswer::Allow <==> config@.first_login,
{
}

/// No password lets a client in.
pub proof fn lemma_password_auth(r: AuthAnswer)
    requires
        call_ensures(session::password_auth, (), r),
    ensures
        r != AuthAnswer::Allow,
{
}

/// The device identifies itself with the host key of the configuration.
pub proof fn lemma_hostkeys(config: &SSHStampConfig, k: &config::SignKey)
    requires
        call_ensures(session::hostkeys, (config,), k),
    ensures
        k@ == config@.hostkey,
{
}

/// A client is let in with a key exactly if that key is in one of the slots, whichever one, and
/// exactly then it counts as authenticated from there on. Nothing else of the connection changes.
pub proof fn lemma_pubkey_auth<H>(
    ctx: &mut EventContext<H>,
    config: &SSHStampConfig,
    presented: &ClientKey,
    r: AuthAnswer,
)
    requires
        call_ensures(session::pubkey_auth::<H>, (ctx, config, presented), r),
    ensures
        r == AuthAnswer::Allow <==> exists|i: int|
            0 <= i < config@.pubkeys.len() && (*presented matches ClientKey::Ed25519(k)
                && #[trigger] config@.pubkeys[i] == Some(k.key@)),
        r == AuthAnswer::Allow ==> final(ctx).auth_checked,
        r != AuthAnswer::Allow ==> final(ctx).auth_checked == old(ctx).auth_checked,
        final(ctx).session == old(ctx).session,
        final(ctx).config_changed == old(ctx).config_changed,
        final(ctx).needs_reset == old(ctx).needs_reset,
        final(ctx).can_dispatched == old(ctx).can_dispatched,
{
}

// ---------------------------------------------------------------------------
// Channels
// ---------------------------------------------------------------------------

/// A session can be opened exactly while there is none.
pub proof fn lemma_open_session<H>(ctx: &EventContext<H>, r: OpenAnswer)
    requires
        call_ensures(session::open_session::<H>, (ctx,), r),
    ensures
        r == OpenAnswer::Accept <==> ctx.session is None,
{
}

/// Opening a session is noted as its channel, and as nothing else.
pub proof fn lemma_session_opened<H>(ctx: &mut EventContext<H>, channel: H)
    requires
        call_ensures(session::session_opened::<H>, (ctx, channel), ()),
    ensures
        final(ctx).session == Some(channel),
        final(ctx).auth_checked == old(ctx).auth_checked,
        final(ctx).config_changed == old(ctx).config_changed,
        final(ctx).needs_reset == old(ctx).needs_reset,
        final(ctx).can_dispatched == old(ctx).can_dispatched,
{
}

/// A second session is not opened beside the first: after one was opened the next is refused.
pub proof fn lemma_one_session<H>(ctx: &mut EventContext<H>, channel: H, r: OpenAnswer)
    requires
        call_ensures(session::session_opened::<H>, (ctx, channel), ()),
        call_ensures(session::open_session::<H>, (&*final(ctx),), r),
    ensures
        r == OpenAnswer::Prohibited,
{
}

/// A terminal is granted exactly to a client that has authenticated, or on first login.
pub proof fn lemma_session_pty<H>(ctx: &EventContext<H>, config: &SSHStampConfig, r: Answer)
    requires
        call_ensures(session::session_pty::<H>, (ctx, config), r),
    ensures
        r == Answer::Succeed <==> ctx.auth_checked || config@.first_login,
        r == Answer::Fail <==> !ctx.auth_checked && !config@.first_login,
{
}

/// No command is run, and an event that came to the wrong place is a bad usage.
pub proof fn lemma_not_served(r: Answer, e: Result<(), StampError>)
    requires
        call_ensures(session::session_exec, (), r),
        call_ensures(session::defunct, (), e),
    ensures
        r == Answer::Fail,
        e == Err::<(), StampError>(StampError::BadUsage),
{
}

// ---------------------------------------------------------------------------
// Shell
// ---------------------------------------------------------------------------

/// A request for a shell is refused exactly without authentication or session, and then nothing
/// changes. Otherwise the channel is taken; a changed configuration is saved first, whether or
/// not a reset is needed, and counts as unchanged then; an unchanged one is not saved, and the
/// channel goes to the bridge at once.
pub proof fn lemma_session_shell<H>(ctx: &mut EventContext<H>, r: ShellAction<H>)
    requires
        call_ensures(session::session_shell::<H>, (ctx,), r),
    ensures
        r is Fail <==> !old(ctx).auth_checked || old(ctx).session is None,
        r is Fail ==> *final(ctx) == *old(ctx),
        r !is Fail ==> final(ctx).session is None,
        r !is Fail ==> (r is Save <==> old(ctx).config_changed),
        r !is Fail ==> (r is Accept <==> !old(ctx).config_changed),
        r matches ShellAction::Save(ch) ==> old(ctx).session == Some(ch),
        r matches ShellAction::Accept(t) ==> t matches SessionType::Bridge(ch) && old(ctx).session
            == Some(ch),
        r !is Fail ==> !final(ctx).config_changed,
        final(ctx).auth_checked == old(ctx).auth_checked,
        final(ctx).needs_reset == old(ctx).needs_reset,
        final(ctx).can_dispatched == old(ctx).can_dispatched,
{
}

/// A saved configuration opens the bridge on the channel of the session, after a reset exactly
/// if a change needs one. A configuration that could not be saved ends the connection.
pub proof fn lemma_config_saved<H>(
    ctx: &EventContext<H>,
    channel: H,
    saved: bool,
    r: Result<ShellAction<H>, StampError>,
)
    requires
        call_ensures(session::config_saved::<H>, (ctx, channel, saved), r),
    ensures
        r is Ok <==> saved,
        r matches Err(e) ==> e == StampError::BadUsage,
        saved && ctx.needs_reset ==> r == Ok::<_, StampError>(
            ShellAction::Reset(SessionType::Bridge(channel)),
        ),
        saved && !ctx.needs_reset ==> r == Ok::<_, StampError>(
            ShellAction::Accept(SessionType::Bridge(channel)),
        ),
{
}

/// A channel that was handed over ends the authentication; one that could not be does not.
pub proof fn lemma_channel_sent<H>(ctx: &mut EventContext<H>, sent: bool)
    requires
        call_ensures(session::channel_sent::<H>, (ctx, sent), ()),
    ensures
        sent ==> !final(ctx).auth_checked,
        !sent ==> final(ctx).auth_checked == old(ctx).auth_checked,
        final(ctx).session == old(ctx).session,
        final(ctx).config_changed == old(ctx).config_changed,
        final(ctx).needs_reset == old(ctx).needs_reset,
        final(ctx).can_dispatched == old(ctx).can_dispatched,
{
}

/// After a channel was handed over no other shell is had without authenticating again, even
/// with another session.
pub proof fn lemma_shell_needs_new_auth<H>(
    ctx: &mut EventContext<H>,
    next: &mut EventContext<H>,
    channel: H,
    shell: &mut EventContext<H>,
    r: ShellAction<H>,
)
    requires
        call_ensures(session::channel_sent::<H>, (ctx, true), ()),
        *next == *final(ctx),
        call_ensures(session::session_opened::<H>, (next, channel), ()),
        *shell == *final(next),
        call_ensures(session::session_shell::<H>, (shell,), r),
    ensures
        r is Fail,
{
}

// ---------------------------------------------------------------------------
// Subsystems
// ---------------------------------------------------------------------------

/// What a request for a subsystem comes to, by its name in lower case. An update is handed the
/// channel exactly if it is built in, there is a session, and no CAN session was dispatched in
/// firmware with CAN; whether CAN is built in does not matter by itself. The CAN bridge is handed
/// the channel exactly if it is built in and there is a session. No other name is served, a
/// refusal changes nothing, and all that is ever taken is the channel.
pub proof fn lemma_subsystem_named<H>(
    ctx: &mut EventContext<H>,
    features: Features,
    name: &str,
    r: SubsystemAction<H>,
)
    requires
        call_ensures(session::subsystem_named::<H>, (ctx, features, name), r),
    ensures
        r is Accept <==> name@ == seq!['s', 'f', 't', 'p'] && features.sftp_ota && old(
            ctx,
        ).session is Some && (!features.can || !old(ctx).can_dispatched),
        r is Can <==> name@ == seq!['c', 'a', 'n'] && features.can && old(ctx).session is Some,
        r is Fail <==> r !is Accept && r !is Can,
        r matches SubsystemAction::Accept(t) ==> t matches SessionType::Sftp(ch) && old(
            ctx,
        ).session == Some(ch),
        r matches SubsystemAction::Can(ch) ==> old(ctx).session == Some(ch),
        r is Fail ==> *final(ctx) == *old(ctx),
        r !is Fail ==> final(ctx).session is None,
        final(ctx).auth_checked == old(ctx).auth_checked,
        final(ctx).config_changed == old(ctx).config_changed,
        final(ctx).needs_reset == old(ctx).needs_reset,
        final(ctx).can_dispatched == old(ctx).can_dispatched,
{
    lemma_subsystem_names();
}

proof fn lemma_subsystem_names()
    ensures
        "sftp"@ == seq!['s', 'f', 't', 'p'],
        "can"@ == seq!['c', 'a', 'n'],
{
    reveal_strlit("sftp");
    reveal_strlit("can");
}

/// Whether a character is the letter `l`, given in lower case, in either case.
pub open spec fn is_letter(c: char, l: char) -> bool {
    c == l || c as int + 32 == l as int
}

/// A client that has not authenticated gets no subsystem, and a name that is not text gets no
/// answer; either way nothing changes.
pub proof fn lemma_subsystem_refused<H>(
    ctx: &mut EventContext<H>,
    features: Features,
    name: Option<&str>,
    r: SubsystemAction<H>,
)
    requires
        call_ensures(session::session_subsystem::<H>, (ctx, features, name), r),
    ensures
        !old(ctx).auth_checked ==> r is Fail,
        r is BadText <==> old(ctx).auth_checked && name is None,
        !old(ctx).auth_checked || name is None ==> *final(ctx) == *old(ctx),
        r is Fail ==> *final(ctx) == *old(ctx),
        r is Accept ==> (name matches Some(n) && outside::lowercase(n@) == seq!['s', 'f', 't', 'p']),
        r is Can ==> (name matches Some(n) && outside::lowercase(n@) == seq!['c', 'a', 'n']),
{
    lemma_subsystem_names();
}

/// A client that has authenticated gets a subsystem by its name in any mix of upper and lower
/// case: an update, the CAN bridge, or nothing.
pub proof fn lemma_session_subsystem<H>(
    ctx: &mut EventContext<H>,
    features: Features,
    name: &str,
    r: SubsystemAction<H>,
)
    requires
        call_ensures(session::session_subsystem::<H>, (ctx, features, Some(name)), r),
        old(ctx).auth_checked,
        is_ascii_chars(name@),
    ensures
        ({
            let t = name@;
            let sftp = t.len() == 4 && is_letter(t[0], 's') && is_letter(t[1], 'f') && is_letter(
                t[2],
                't',
            ) && is_letter(t[3], 'p');
            let can = t.len() == 3 && is_letter(t[0], 'c') && is_letter(t[1], 'a') && is_letter(
                t[2],
                'n',
            );
            &&& r is Accept <==> sftp && features.sftp_ota && old(ctx).session is Some && (
            !features.can || !old(ctx).can_dispatched)
            &&& r is Can <==> can && features.can && old(ctx).session is Some
            &&& r is Fail <==> r !is Accept && r !is Can
            &&& r matches SubsystemAction::Accept(t) ==> t matches SessionType::Sftp(ch) && old(
                ctx,
            ).session == Some(ch)
            &&& r matches SubsystemAction::Can(ch) ==> old(ctx).session == Some(ch)
            &&& r !is Fail ==> final(ctx).session is None && final(ctx).auth_checked
            &&& final(ctx).config_changed == old(ctx).config_changed
            &&& final(ctx).needs_reset == old(ctx).needs_reset
            &&& final(ctx).can_dispatched == old(ctx).can_dispatched
        }),
{
    lemma_subsystem_names();
    let t = name@;
    let l = crate::text::ascii_lower(t);
    assert(l.len() == t.len());
    assert forall|i: int| 0 <= i < t.len() implies l[i] == crate::text::lower_char(
        #[trigger] t[i],
    ) by {}
    if t.len() == 4 {
        assert(t[0] == name@[0] && t[1] == name@[1] && t[2] == name@[2] && t[3] == name@[3]);
        if is_letter(t[0], 's') && is_letter(t[1], 'f') && is_letter(t[2], 't') && is_letter(
            t[3],
            'p',
        ) {
            assert(l == seq!['s', 'f', 't', 'p']);
        } else {
            assert(l[0] != 's' || l[1] != 'f' || l[2] != 't' || l[3] != 'p');
        }
    }
    if t.len() == 3 {
        assert(t[0] == name@[0] && t[1] == name@[1] && t[2] == name@[2]);
        if is_letter(t[0], 'c') && is_letter(t[1], 'a') && is_letter(t[2], 'n') {
            assert(l == seq!['c', 'a', 'n']);
        } else {
            assert(l[0] != 'c' || l[1] != 'a' || l[2] != 'n');
        }
    }
}

/// A CAN session that was accepted is noted in firmware that could be updated, for good, and
/// leaves the client authenticated.
pub proof fn lemma_can_accepted<H>(ctx: &mut EventContext<H>, features: Features)
    requires
        call_ensures(session::can_accepted::<H>, (ctx, features), ()),
    ensures
        final(ctx).can_dispatched <==> old(ctx).can_dispatched || features.sftp_ota,
        final(ctx).auth_checked == old(ctx).auth_checked,
        final(ctx).session == old(ctx).session,
        final(ctx).config_changed == old(ctx).config_changed,
        final(ctx).needs_reset == old(ctx).needs_reset,
{
}

} // verus!
