use regreet::common::capitalize;
use regreet::config::{AppearanceSettings, BgFit};
use regreet::sysutil::{
    environment_strings, CommandError, NormalUser, PasswdEntry, SessionChoice, SessionInfo, SessionType,
    SysUtil,
};

fn entry(name: &str, uid: u32, gecos: Option<&str>, shell: &str) -> PasswdEntry {
    PasswdEntry {
        name: name.to_string(),
        uid,
        gecos: gecos.map(|g| g.to_string()),
        shell: shell.to_string(),
    }
}

#[test]
fn gathers_normal_users_only() {
    let normal = NormalUser { uid_min: 1000, uid_max: 60000 };
    let entries = vec![
        entry("root", 0, Some("root"), "/bin/bash"),
        entry("alice", 1000, Some("Alice Liddell,Room 1,,"), "/bin/zsh -l"),
        entry("bob", 1001, Some(""), "/bin/sh"),
        entry("carol", 1002, None, "'/bin/broken"),
        entry("nobody", 65534, None, "/usr/bin/nologin"),
    ];
    let sys = SysUtil::new(&normal, entries, vec![]);
    assert_eq!(
        sys.get_users(),
        &vec![
            ("Alice Liddell".to_string(), "alice".to_string()),
            ("bob".to_string(), "bob".to_string()),
            ("carol".to_string(), "carol".to_string()),
        ]
    );
    assert_eq!(
        sys.get_shells(),
        &vec![
            ("alice".to_string(), vec!["/bin/zsh".to_string(), "-l".to_string()]),
            ("bob".to_string(), vec!["/bin/sh".to_string()]),
        ]
    );
}

#[test]
fn later_session_with_same_name_replaces_earlier() {
    let normal = NormalUser::default();
    let found = vec![
        ("Sway".to_string(), SessionInfo { command: vec!["sway".to_string()], sess_type: SessionType::Wayland }),
        ("Xfce".to_string(), SessionInfo { command: vec!["startxfce4".to_string()], sess_type: SessionType::X11 }),
        ("Sway".to_string(), SessionInfo { command: vec!["sway2".to_string()], sess_type: SessionType::Wayland }),
    ];
    let sys = SysUtil::new(&normal, vec![], found);
    let sessions = sys.get_sessions();
    assert_eq!(sessions.len(), 2);
    assert_eq!(sessions[0].0, "Sway");
    assert_eq!(sessions[0].1.command, vec!["sway2".to_string()]);
    assert_eq!(sessions[1].0, "Xfce");
    assert_eq!(sessions[1].1.sess_type, SessionType::X11);
}

#[test]
fn capitalize_first_letter() {
    assert_eq!(capitalize("hello world"), "Hello world");
    assert_eq!(capitalize("x"), "X");
    assert_eq!(capitalize("Already"), "Already");
    assert_eq!(capitalize("1abc"), "1abc");
}

#[test]
fn config_defaults() {
    assert_eq!(AppearanceSettings::default().greeting_msg, "Welcome back!");
    assert_eq!(BgFit::default(), BgFit::Contain);
}

#[test]
fn session_command_for_each_choice() {
    let normal = NormalUser::default();
    let entries = vec![entry("alice", 1000, None, "/bin/zsh -l")];
    let found = vec![(
        "Sway".to_string(),
        SessionInfo { command: vec!["sway".to_string()], sess_type: SessionType::Wayland },
    )];
    let sys = SysUtil::new(&normal, entries, found);
    assert_eq!(
        sys.session_command(&SessionChoice::Manual("niri --session".to_string()), "alice"),
        Ok((None, vec!["niri".to_string(), "--session".to_string()]))
    );
    assert_eq!(
        sys.session_command(&SessionChoice::Manual("'broken".to_string()), "alice"),
        Err(CommandError::InvalidCommand)
    );
    assert_eq!(
        sys.session_command(&SessionChoice::Named("Sway".to_string()), "alice"),
        Ok((Some("Sway".to_string()), vec!["sway".to_string()]))
    );
    assert_eq!(
        sys.session_command(&SessionChoice::Named("GNOME".to_string()), "alice"),
        Err(CommandError::SessionNotFound)
    );
    assert_eq!(
        sys.session_command(&SessionChoice::Default, "alice"),
        Ok((None, vec!["/bin/zsh".to_string(), "-l".to_string()]))
    );
    assert_eq!(sys.session_command(&SessionChoice::Default, "bob"), Err(CommandError::NoShell));
}

#[test]
fn environment_entries() {
    let env = vec![("LANG".to_string(), "C".to_string()), ("EMPTY".to_string(), String::new())];
    assert_eq!(environment_strings(&env), vec!["LANG=C".to_string(), "EMPTY=".to_string()]);
    assert!(environment_strings(&vec![]).is_empty());
}
