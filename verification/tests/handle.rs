use ssh_stamp::config::{Ed25519PubKey, SSHStampConfig, SignKey, UartPins};
use ssh_stamp::errors::StampError;
use ssh_stamp::hal::Parity;
use ssh_stamp::handle::session::{
    bridge_disable, can_accepted, channel_sent, config_saved, defunct, first_auth, hostkeys,
    open_session, password_auth, pubkey_auth, session_exec, session_opened, session_pty,
    session_shell, session_subsystem, subsystem_named, AuthAnswer, ClientKey, OpenAnswer,
    SessionType, ShellAction, SubsystemAction,
};
use ssh_stamp::handle::{
    env_answered, key_tried, pubkey_env, session_env, wifi_mac_random_env, Answer, Effect,
    EnvOutcome, EventContext, UartParam,
};
use ssh_stamp::settings::Features;

const KEY_LINE: &str =
    "ssh-ed25519 AAAAC3NzaC1lZDI1NTE5AAAAIAABAgMEBQYHCAkKCwwNDg8QERITFBUWFxgZGhscHR4f";

const RSA_LINE: &str = "ssh-rsa AAAAB3NzaC1yc2EAAAADAQABAAAAQQDBBwcHBwcHBwcHBwcHBwcHBwcHBwcHBwcHBwcHBwcHBwcHBwcHBwcHBwcHBwcHBwcHBwcHBwcHBwcHBwcHBwcB";

const ALL: Features = Features {
    ipv6: false,
    sftp_ota: true,
    can: true,
};

fn config(first_login: bool) -> SSHStampConfig {
    let mut c = SSHStampConfig::with_generated(
        SignKey::Ed25519([7; 32]),
        heapless::String::try_from("net").unwrap(),
        heapless::String::try_from("password").unwrap(),
        [1, 2, 3, 4, 5, 6],
        UartPins { rx: 10, tx: 11 },
    );
    c.first_login = first_login;
    c
}

fn context(auth_checked: bool) -> EventContext<u32> {
    EventContext {
        session: None,
        auth_checked,
        config_changed: false,
        needs_reset: false,
        can_dispatched: false,
    }
}

const CHANGED: EnvOutcome = EnvOutcome {
    answer: Answer::Succeed,
    effect: Effect::SettingChanged,
    error: None,
};
const REFUSED: EnvOutcome = EnvOutcome {
    answer: Answer::Fail,
    effect: Effect::Nothing,
    error: None,
};
const INVALID: EnvOutcome = EnvOutcome {
    error: Some(StampError::InvalidValue),
    ..REFUSED
};
const UNAUTHENTICATED: EnvOutcome = EnvOutcome {
    error: Some(StampError::Unauthenticated),
    ..REFUSED
};
const BAD_FORMAT: EnvOutcome = EnvOutcome {
    error: Some(StampError::KeyFormat),
    ..REFUSED
};
const IGNORED: EnvOutcome = EnvOutcome {
    answer: Answer::Succeed,
    effect: Effect::Nothing,
    error: None,
};
const BAD_TEXT: EnvOutcome = EnvOutcome {
    answer: Answer::BadText,
    effect: Effect::Nothing,
    error: None,
};
const KEY_ADDED: EnvOutcome = EnvOutcome {
    answer: Answer::Succeed,
    effect: Effect::KeyAdded,
    error: None,
};

const SETTINGS: [(&str, &str); 11] = [
    ("SSH_STAMP_WIFI_AP_SSID", "name"),
    ("SSH_STAMP_WIFI_AP_PSK", "passphrase"),
    ("SSH_STAMP_WIFI_BAND", "5g"),
    ("SSH_STAMP_WIFI_STA_SSID", "upstream"),
    ("SSH_STAMP_WIFI_STA_PW", "otherphrase"),
    ("SSH_STAMP_WIFI_MAC_ADDRESS", "02:00:00:00:00:01"),
    ("SSH_STAMP_WIFI_MAC_RANDOM", ""),
    ("SSH_STAMP_UART_BAUD", "9600"),
    ("SSH_STAMP_UART_DATA_BITS", "7"),
    ("SSH_STAMP_UART_PARITY", "even"),
    ("SSH_STAMP_UART_STOP_BITS", "2"),
];

#[test]
fn settings_are_changed() {
    let ctx = context(true);
    let mut c = config(false);
    for (name, value) in SETTINGS {
        assert_eq!(session_env(name, Some(value), &ctx, &mut c), CHANGED, "{name}");
    }
    assert_eq!(c.wifi_ap_ssid.as_str(), "name");
    assert_eq!(c.wifi_ap_pw.as_str(), "passphrase");
    assert_eq!(c.wifi_ap_band, 1);
    assert_eq!(c.wifi_sta_ssid.as_str(), "upstream");
    assert_eq!(c.wifi_sta_pw.as_str(), "otherphrase");
    assert_eq!(c.mac, [0xff; 6]);
    assert_eq!(c.uart_params.baud, 9600);
    assert_eq!(c.uart_params.data_bits, 7);
    assert_eq!(c.uart_params.parity, Parity::Even);
    assert_eq!(c.uart_params.stop_bits, 2);
    assert_eq!(
        session_env("SSH_STAMP_WIFI_MAC_ADDRESS", Some("02:00:00:00:00:01"), &ctx, &mut c),
        CHANGED
    );
    assert_eq!(c.mac, [2, 0, 0, 0, 0, 1]);
    assert_eq!(
        session_env("SSH_STAMP_WIFI_STA_PSK", Some("thirdphrase"), &ctx, &mut c),
        CHANGED
    );
    assert_eq!(c.wifi_sta_pw.as_str(), "thirdphrase");
}

#[test]
fn settings_are_changed_on_first_login() {
    let ctx = context(false);
    let mut c = config(true);
    for (name, value) in SETTINGS {
        assert_eq!(session_env(name, Some(value), &ctx, &mut c), CHANGED, "{name}");
    }
    assert!(c.first_login);
}

#[test]
fn unauthorised_client_changes_nothing() {
    let ctx = context(false);
    let mut c = config(false);
    for (name, value) in SETTINGS {
        let refused = if name == "SSH_STAMP_WIFI_MAC_RANDOM" {
            UNAUTHENTICATED
        } else {
            REFUSED
        };
        assert_eq!(session_env(name, Some(value), &ctx, &mut c), refused, "{name}");
        assert_eq!(session_env(name, None, &ctx, &mut c), refused, "{name}");
    }
    assert_eq!(
        session_env("SSH_STAMP_PUBKEY", Some(KEY_LINE), &ctx, &mut c),
        REFUSED
    );
    assert!(c == config(false));
}

#[test]
fn bad_values_are_refused() {
    let ctx = context(true);
    let mut c = config(false);
    for (name, value, refused) in [
        ("SSH_STAMP_WIFI_AP_SSID", "two words", INVALID),
        ("SSH_STAMP_WIFI_AP_PSK", "short", INVALID),
        ("SSH_STAMP_WIFI_BAND", "7g", REFUSED),
        ("SSH_STAMP_WIFI_STA_SSID", "two words", INVALID),
        ("SSH_STAMP_WIFI_STA_PSK", "short", INVALID),
        ("SSH_STAMP_WIFI_MAC_ADDRESS", "02:00", INVALID),
        ("SSH_STAMP_UART_BAUD", "1", REFUSED),
        ("SSH_STAMP_UART_DATA_BITS", "9", REFUSED),
        ("SSH_STAMP_UART_PARITY", "mark", REFUSED),
        ("SSH_STAMP_UART_STOP_BITS", "3", REFUSED),
    ] {
        assert_eq!(session_env(name, Some(value), &ctx, &mut c), refused, "{name}");
        assert_eq!(session_env(name, None, &ctx, &mut c), BAD_TEXT, "{name}");
    }
    assert!(c == config(false));
    assert_eq!(
        session_env("SSH_STAMP_WIFI_MAC_RANDOM", None, &ctx, &mut c),
        CHANGED
    );
    assert_eq!(wifi_mac_random_env(&ctx, &mut c), CHANGED);
}

#[test]
fn other_variables_are_ignored() {
    let ctx = context(false);
    let mut c = config(false);
    for name in ["LANG", "", "SSH_STAMP_PUBKEY ", "ssh_stamp_pubkey", "SSH_STAMP_WIFI_AP_PW"] {
        assert_eq!(session_env(name, None, &ctx, &mut c), IGNORED, "{name}");
    }
    assert!(c == config(false));
}

#[test]
fn noting_a_change() {
    let mut ctx = context(true);
    let mut c = config(false);
    env_answered(&mut ctx, &mut c, Effect::Nothing);
    assert!(!ctx.config_changed && !ctx.needs_reset);
    env_answered(&mut ctx, &mut c, Effect::SettingChanged);
    assert!(ctx.config_changed && ctx.needs_reset && ctx.auth_checked);
    assert!(c == config(false));
    env_answered(&mut ctx, &mut c, Effect::KeyAdded);
    assert!(c == config(false));
}

#[test]
fn first_login_from_key_to_key() {
    let mut ctx = context(false);
    let mut c = config(true);
    assert_eq!(first_auth(&c).answer, AuthAnswer::Allow);

    let r = session_env("SSH_STAMP_PUBKEY", Some(KEY_LINE), &ctx, &mut c);
    assert_eq!(r, KEY_ADDED);
    assert!(c.first_login && !ctx.auth_checked);
    env_answered(&mut ctx, &mut c, r.effect);
    assert!(!c.first_login);
    assert!(ctx.auth_checked && ctx.config_changed && !ctx.needs_reset);

    // No second key.
    let before = c.pubkeys;
    assert_eq!(
        session_env("SSH_STAMP_PUBKEY", Some(KEY_LINE), &ctx, &mut c),
        REFUSED
    );
    assert_eq!(c.pubkeys, before);

    // Another connection needs the key.
    let mut ctx = context(false);
    assert_eq!(first_auth(&c).answer, AuthAnswer::Reject);
    let mut key = [0u8; 32];
    for i in 0..32 {
        key[i] = i as u8;
    }
    let wrong = ClientKey::Ed25519(Ed25519PubKey { key: [1; 32] });
    assert_eq!(pubkey_auth(&mut ctx, &c, &wrong), AuthAnswer::Reject);
    assert!(!ctx.auth_checked);
    assert_eq!(pubkey_auth(&mut ctx, &c, &ClientKey::Unknown), AuthAnswer::Reject);
    assert!(!ctx.auth_checked);
    let right = ClientKey::Ed25519(Ed25519PubKey { key });
    assert_eq!(pubkey_auth(&mut ctx, &c, &right), AuthAnswer::Allow);
    assert!(ctx.auth_checked);
}

#[test]
fn keys_that_are_refused_on_first_login() {
    let mut c = config(true);
    assert_eq!(pubkey_env(&mut c, Some("")), BAD_FORMAT);
    assert_eq!(pubkey_env(&mut c, Some("ssh-ed25519 AAAA")), BAD_FORMAT);
    assert_eq!(pubkey_env(&mut c, Some("\u{1}")), BAD_FORMAT);
    assert_eq!(
        pubkey_env(&mut c, Some(RSA_LINE)),
        EnvOutcome {
            error: Some(StampError::BadKey),
            ..REFUSED
        }
    );
    assert_eq!(pubkey_env(&mut c, None), BAD_TEXT);
    assert!(c == config(true));
    assert_eq!(key_tried(Ok(())), KEY_ADDED);
    assert_eq!(key_tried(Err(StampError::KeyFormat)), BAD_FORMAT);
}

#[test]
fn authentication_offers() {
    let a = first_auth(&config(true));
    assert!(!a.password_auth && a.pubkey_auth);
    let a = first_auth(&config(false));
    assert!(!a.password_auth && a.pubkey_auth);
    assert_eq!(password_auth(), AuthAnswer::Reject);
    assert!(*hostkeys(&config(true)) == SignKey::Ed25519([7; 32]));
}

#[test]
fn every_slot_opens() {
    let mut c = config(false);
    for n in 0..3 {
        c.pubkeys = [None, None, None];
        c.pubkeys[n] = Some(Ed25519PubKey { key: [5; 32] });
        let mut ctx = context(false);
        let key = ClientKey::Ed25519(Ed25519PubKey { key: [5; 32] });
        assert_eq!(pubkey_auth(&mut ctx, &c, &key), AuthAnswer::Allow);
        let mut other = [5; 32];
        other[31] = 6;
        let key = ClientKey::Ed25519(Ed25519PubKey { key: other });
        assert_eq!(pubkey_auth(&mut ctx, &c, &key), AuthAnswer::Reject);
        // A failed attempt takes nothing back.
        assert!(ctx.auth_checked);
    }
}

#[test]
fn one_session_at_a_time() {
    let mut ctx = context(false);
    assert_eq!(open_session(&ctx), OpenAnswer::Accept);
    session_opened(&mut ctx, 3);
    assert_eq!(ctx.session, Some(3));
    assert_eq!(open_session(&ctx), OpenAnswer::Prohibited);
}

#[test]
fn terminal_and_commands() {
    assert_eq!(session_pty(&context(true), &config(false)), Answer::Succeed);
    assert_eq!(session_pty(&context(false), &config(true)), Answer::Succeed);
    assert_eq!(session_pty(&context(false), &config(false)), Answer::Fail);
    assert_eq!(session_exec(), Answer::Fail);
    assert_eq!(defunct(), Err(StampError::BadUsage));
    bridge_disable();
}

#[test]
fn shell_needs_authentication_and_session() {
    let mut ctx = context(false);
    ctx.session = Some(1);
    assert_eq!(session_shell(&mut ctx), ShellAction::Fail);
    assert_eq!(ctx.session, Some(1));
    let mut ctx = context(true);
    assert_eq!(session_shell(&mut ctx), ShellAction::Fail);
    ctx.session = Some(1);
    assert_eq!(session_shell(&mut ctx), ShellAction::Accept(SessionType::Bridge(1)));
    assert_eq!(ctx.session, None);
    assert_eq!(session_shell(&mut ctx), ShellAction::Fail);
}

#[test]
fn shell_saves_and_resets() {
    let mut ctx = context(true);
    ctx.session = Some(1);
    ctx.config_changed = true;
    ctx.needs_reset = true;
    assert_eq!(session_shell(&mut ctx), ShellAction::Save(1));
    assert!(!ctx.config_changed);
    assert_eq!(config_saved(&ctx, 1, false), Err(StampError::BadUsage));
    assert_eq!(config_saved(&ctx, 1, true), Ok(ShellAction::Reset(SessionType::Bridge(1))));
    ctx.needs_reset = false;
    assert_eq!(config_saved(&ctx, 1, true), Ok(ShellAction::Accept(SessionType::Bridge(1))));
    channel_sent(&mut ctx, false);
    assert!(ctx.auth_checked);
    channel_sent(&mut ctx, true);
    assert!(!ctx.auth_checked);
}

#[test]
fn update_subsystem() {
    let mut ctx = context(true);
    assert_eq!(session_subsystem(&mut ctx, ALL, Some("sftp")), SubsystemAction::Fail);
    ctx.session = Some(4);
    assert_eq!(session_subsystem(&mut ctx, ALL, None), SubsystemAction::BadText);
    assert_eq!(session_subsystem(&mut ctx, ALL, Some("scp")), SubsystemAction::Fail);
    assert_eq!(ctx.session, Some(4));
    assert_eq!(session_subsystem(&mut ctx, ALL, Some("SFTP")), SubsystemAction::Accept(SessionType::Sftp(4)));
    assert_eq!(ctx.session, None);

    let mut ctx = context(false);
    ctx.session = Some(4);
    assert_eq!(session_subsystem(&mut ctx, ALL, Some("sftp")), SubsystemAction::Fail);
    assert_eq!(session_subsystem(&mut ctx, ALL, None), SubsystemAction::Fail);
    assert_eq!(ctx.session, Some(4));
}

#[test]
fn subsystems_that_are_not_built_in() {
    let none = Features {
        ipv6: false,
        sftp_ota: false,
        can: false,
    };
    for name in ["sftp", "can"] {
        let mut ctx = context(true);
        ctx.session = Some(4);
        assert_eq!(subsystem_named(&mut ctx, none, name), SubsystemAction::Fail);
        assert_eq!(ctx.session, Some(4));
    }
}

#[test]
fn can_rules_out_an_update() {
    let mut ctx = context(true);
    ctx.session = Some(4);
    assert_eq!(session_subsystem(&mut ctx, ALL, Some("Can")), SubsystemAction::Can(4));
    can_accepted(&mut ctx, ALL);
    assert!(ctx.can_dispatched && ctx.auth_checked);
    session_opened(&mut ctx, 5);
    assert_eq!(session_subsystem(&mut ctx, ALL, Some("sftp")), SubsystemAction::Fail);
    assert_eq!(session_shell(&mut ctx), ShellAction::Accept(SessionType::Bridge(5)));

    let mut ctx = context(true);
    can_accepted(&mut ctx, Features { sftp_ota: false, ..ALL });
    assert!(!ctx.can_dispatched);
}

#[test]
fn uart_parameter_names() {
    for (param, name, accepted) in [
        (UartParam::Baud, "SSH_STAMP_UART_BAUD", "300-5000000"),
        (UartParam::DataBits, "SSH_STAMP_UART_DATA_BITS", "5-8"),
        (UartParam::Parity, "SSH_STAMP_UART_PARITY", "none, even or odd"),
        (UartParam::StopBits, "SSH_STAMP_UART_STOP_BITS", "1 or 2"),
    ] {
        assert_eq!(param.env_name(), name);
        assert_eq!(param.accepted(), accepted);
    }
}

#[test]
fn changed_setting_is_saved_with_the_next_shell() {
    let mut ctx = context(true);
    let mut c = config(false);
    session_opened(&mut ctx, 8);
    let r = session_env("SSH_STAMP_UART_BAUD", Some("9600"), &ctx, &mut c);
    env_answered(&mut ctx, &mut c, r.effect);
    assert_eq!(session_shell(&mut ctx), ShellAction::Save(8));
    assert_eq!(
        config_saved(&ctx, 8, true),
        Ok(ShellAction::Reset(SessionType::Bridge(8)))
    );
}

#[test]
fn generated_credentials_are_accepted() {
    let ctx = context(true);
    let mut c = config(false);
    let ssid = SSHStampConfig::generate_wifi_ssid().unwrap();
    let pw = SSHStampConfig::generate_wifi_password().unwrap();
    assert_eq!(
        session_env("SSH_STAMP_WIFI_AP_SSID", Some(ssid.as_str()), &ctx, &mut c),
        CHANGED
    );
    assert_eq!(
        session_env("SSH_STAMP_WIFI_AP_PSK", Some(pw.as_str()), &ctx, &mut c),
        CHANGED
    );
    assert!(c.wifi_ap_ssid == ssid && c.wifi_ap_pw == pw);
}

#[test]
fn configuration_stays_storable() {
    let ctx = context(true);
    let mut c = config(false);
    for (name, value) in SETTINGS {
        session_env(name, Some(value), &ctx, &mut c);
    }
    let mut buf = vec![0; 460];
    ssh_stamp::store::save(&mut buf, &c, 4, false).unwrap();
    assert!(ssh_stamp::store::load(true, &buf, false).is_ok_and(|d| d == c));
}
