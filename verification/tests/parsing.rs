use webdm::freedesktop::{DesktopFile, Entry, EntryError, EntryType, FileError};
use webdm::kv::table_get;
use webdm::launcher::{env_from_strings, resolve_launch, split_env_entry, LaunchError};
use webdm::parameterization::{default_display, default_home, default_session,
    default_sessions_dir, default_vt, false_bool, get, parse_vt, CliArgs, Config, ConfigFile,
    Session, Theme, Users, XOrgConfig};
use webdm::identity::UserRecord;
use webdm::text::u8_to_dec;

fn lines(ls: &[&str]) -> Vec<String> {
    ls.iter().map(|l| l.to_string()).collect()
}

#[test]
fn desktop_entry_parses_with_trimming() {
    let e = Entry::parse(&lines(&[
        "[Desktop Entry]",
        "Type=Application",
        "Name = Sway",
        "# a comment",
        "   # an indented comment",
        "Comment=Tiling compositor",
        "Exec=/usr/bin/sway",
    ]))
    .unwrap();
    assert_eq!(e.typ, EntryType::Application);
    assert_eq!(e.name, "Sway");
    assert_eq!(e.comment.as_deref(), Some("Tiling compositor"));
    assert_eq!(e.exec_cmd.as_deref(), Some("/usr/bin/sway"));
    assert_eq!(e.path, None);
    assert_eq!(e.icon, None);
}

#[test]
fn desktop_entry_value_keeps_trailing_space() {
    let d = DesktopFile::new(&lines(&["[Desktop Entry]", "Name =  padded  "])).unwrap();
    assert_eq!(table_get(&d.0, "Name").map(|s| s.as_str()), Some("padded  "));
}

#[test]
fn desktop_body_stops_at_next_section() {
    let e = Entry::parse(&lines(&[
        "[Desktop Entry]",
        "Type=Application",
        "Name=First",
        "[Other Section]",
        "Name=Second",
    ]))
    .unwrap();
    assert_eq!(e.name, "First");
}

#[test]
fn desktop_repeated_key_takes_last_value() {
    let d = DesktopFile::new(&lines(&["[Desktop Entry]", "Name=A", "Name=B"])).unwrap();
    assert_eq!(table_get(&d.0, "Name").map(|s| s.as_str()), Some("B"));
    assert_eq!(d.0.len(), 1);
}

#[test]
fn desktop_line_without_equals_is_bad_format() {
    let r = Entry::parse(&lines(&["[Desktop Entry]", "nonsense"]));
    assert!(matches!(r, Err(EntryError::FileError(FileError::BadFormat))));
}

#[test]
fn desktop_missing_required_field_is_rejected() {
    let r = Entry::parse(&lines(&["[Desktop Entry]", "Name=OnlyName"]));
    assert!(matches!(r, Err(EntryError::MissingRequiredField)));
    let r = Entry::parse(&lines(&["[Desktop Entry]", "Type=Application"]));
    assert!(matches!(r, Err(EntryError::MissingRequiredField)));
    let r = Entry::parse(&lines(&[]));
    assert!(matches!(r, Err(EntryError::MissingRequiredField)));
}

#[test]
fn desktop_first_line_is_consumed_even_without_header() {
    let r = Entry::parse(&lines(&["Type=Application", "Name=X"]));
    assert!(matches!(r, Err(EntryError::MissingRequiredField)));
}

#[test]
fn desktop_unknown_type_is_kept_as_unknown() {
    let e = Entry::parse(&lines(&["[Desktop Entry]", "Type=Link", "Name=L"])).unwrap();
    assert_eq!(e.typ, EntryType::Unknown);
}

#[test]
fn vt_texts_parse_to_their_numbers() {
    assert_eq!(parse_vt("vt7"), Some(7));
    assert_eq!(parse_vt("9"), Some(9));
    assert_eq!(parse_vt("vt255"), Some(255));
    assert_eq!(parse_vt("vt256"), None);
    assert_eq!(parse_vt("vt"), None);
    assert_eq!(parse_vt(""), None);
    assert_eq!(parse_vt("+12"), Some(12));
    assert_eq!(parse_vt("vtvt7"), Some(7));
    assert_eq!(parse_vt("vt-1"), None);
    assert_eq!(parse_vt("vt007"), Some(7));
}

#[test]
fn decimal_rendering_is_exact() {
    assert_eq!(u8_to_dec(0), "0");
    assert_eq!(u8_to_dec(7), "7");
    assert_eq!(u8_to_dec(10), "10");
    assert_eq!(u8_to_dec(255), "255");
}

#[test]
fn defaults_match_the_documented_values() {
    assert_eq!(default_display(), ":0");
    assert_eq!(default_vt(), "vt7");
    assert_eq!(default_home(), "/home/");
    assert_eq!(default_session(), None);
    assert_eq!(default_sessions_dir(), "/usr/share/xsessions");
    assert_eq!(false_bool(), false);
    let x = XOrgConfig::default();
    assert_eq!(x.display, ":0");
    assert_eq!(x.vt, "vt7");
    let s = Session::default();
    assert_eq!(s.path, "/usr/share/xsessions");
    assert_eq!(s.default, None);
    let u = Users::default();
    assert_eq!(u.hide, false);
    assert_eq!(u.home_prefix, "/home/");
}

#[test]
fn cli_values_override_the_file() {
    assert_eq!(get(Some("cli".to_string()), "file".to_string()), "cli");
    assert_eq!(get(None, "file".to_string()), "file");

    let file = ConfigFile {
        xorg: XOrgConfig::default(),
        session: Session::default(),
        users: Users::default(),
        theme: Theme { path: "/theme".to_string(), debug: false, allow_external_resources: false },
    };
    let cli = CliArgs {
        use_server: true,
        display: Some(":9".to_string()),
        vt: None,
        theme: None,
        insecure: false,
        debug: true,
        home: None,
        hide_users: false,
        sessions: Some("/custom".to_string()),
    };
    let c = Config::from(file, cli);
    assert_eq!(c.create_x_server, false);
    assert_eq!(c.xorg.display, ":9");
    assert_eq!(c.xorg.vt, "vt7");
    assert_eq!(c.theme.path, "/theme");
    assert_eq!(c.theme.debug, true);
    assert_eq!(c.theme.allow_external_resources, false);
    assert_eq!(c.session.path, "/custom");
    assert_eq!(c.session.default, None);
    assert_eq!(c.users.hide, false);
    assert_eq!(c.users.home_prefix, "/home/");
}

fn sample_entry(exec_cmd: Option<&str>) -> Entry {
    let mut ls = vec!["[Desktop Entry]".to_string(), "Type=Application".to_string(),
        "Name=WM".to_string()];
    if let Some(x) = exec_cmd {
        ls.push(format!("Exec={}", x));
    }
    Entry::parse(&ls).unwrap()
}

fn bob() -> UserRecord {
    UserRecord {
        name: "bob".to_string(),
        uid: 1001,
        gid: 100,
        shell: "/bin/bash".to_string(),
        home: "/home/bob".to_string(),
    }
}

#[test]
fn launch_plan_takes_identity_and_environment() {
    let env = env_from_strings(&lines(&["A=1", "B=2"]));
    let plan = resolve_launch(sample_entry(Some("/usr/bin/wm")), Some(bob()), Some(env)).unwrap();
    assert_eq!(plan.program, "/usr/bin/wm");
    assert_eq!(plan.uid, 1001);
    assert_eq!(plan.gid, 100);
    assert_eq!(plan.cwd, "/home/bob");
    assert_eq!(plan.env.len(), 2);
    assert_eq!(plan.env[0].key, "A");
    assert_eq!(plan.env[0].value, "1");
}

#[test]
fn launch_program_falls_back_to_the_entry_name() {
    let plan = resolve_launch(sample_entry(None), Some(bob()), Some(Vec::new())).unwrap();
    assert_eq!(plan.program, "WM");
}

#[test]
fn launch_errors_are_distinct() {
    let r = resolve_launch(sample_entry(None), Some(bob()), None);
    assert!(matches!(r, Err(LaunchError::MissingEnvironment)));
    let r = resolve_launch(sample_entry(None), None, Some(Vec::new()));
    assert!(matches!(r, Err(LaunchError::UserNotFound)));
}

#[test]
fn env_strings_split_at_the_first_equals() {
    let b = split_env_entry("PATH=/usr/bin:/bin").unwrap();
    assert_eq!(b.key, "PATH");
    assert_eq!(b.value, "/usr/bin:/bin");
    let b = split_env_entry("A=B=C").unwrap();
    assert_eq!(b.key, "A");
    assert_eq!(b.value, "B=C");
    assert!(split_env_entry("NOEQUALS").is_none());
    let b = split_env_entry("EMPTY=").unwrap();
    assert_eq!(b.key, "EMPTY");
    assert_eq!(b.value, "");
    let env = env_from_strings(&lines(&["A=1", "junk", "B=2"]));
    assert_eq!(env.len(), 2);
    assert_eq!(env[1].key, "B");
}
