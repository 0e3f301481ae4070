use appack::catalog::{
    archive_member_for_entry, app_file_dest, bundle_file_name, check_valid_app_pack,
    desktop_entry_dest, icon_dest, path_file_name, remove_entries_with_id,
    required_archive_files, trigger_mode_of, AppBuildConfig, AppBuildConfigReadmeConfiguration,
    AppDesktopEntry, AppPackLocalSettings, AppPackSnapshotMode, InstallError, InstalledAppPackEntry,
    InstalledAppPacks, LookupError,
};
use appack::catalog::{default_readme_folder, default_readme_index};
use appack::command::{build_freerdp_args, build_qemu_command};
use appack::desktop::{process_desktop_entry, DesktopEntryError};
use appack::display::{get_display_server, get_freerdp_executable, DisplayServer};
use appack::policy::{AppSnapshotTriggerMode, BootAction, BootDecision, BootNotice, BootTag};
use appack::catalog::SettingsError;

fn entry(id: &str, version: &str) -> InstalledAppPackEntry {
    InstalledAppPackEntry {
        id: id.to_string(),
        version: version.to_string(),
        name: format!("App {id}"),
        image: "image.qcow2".to_string(),
        description: None,
        desktop_entries: None,
        snapshot_mode: AppSnapshotTriggerMode::OnClose,
        qemu_command: "qemu -m 4G".to_string(),
        freerdp_command: "/v:localhost:$RDP_PORT".to_string(),
    }
}

fn settings() -> AppPackLocalSettings {
    AppPackLocalSettings {
        installed_file: "/data/installed.yaml".to_string(),
        home_dir: "/data/apps".to_string(),
        desktop_entries_dir: "/data/applications".to_string(),
    }
}

#[test]
fn version_validation() {
    assert!(AppBuildConfig::is_valid_version("1.2.3"));
    assert!(AppBuildConfig::is_valid_version("v10-beta_2"));
    assert!(AppBuildConfig::is_valid_version(""));
    for bad in ["1/2", "a\\b", "x:y", "a*b", "a?b", "a\"b", "a<b", "a>b", "a|b", "1 2", "a&b",
        "a;b", "a`b", "a$b"] {
        assert!(!AppBuildConfig::is_valid_version(bad), "accepted {bad:?}");
    }
}

#[test]
fn lookup_wants_exactly_one_match() {
    let packs = InstalledAppPacks {
        installed: vec![entry("word", "1.0"), entry("word", "2.0"), entry("draw", "1.0")],
    };
    let s = settings();
    assert_eq!(
        s.get_app_installed(&packs, "missing", None).unwrap_err(),
        LookupError::NotInstalled
    );
    assert_eq!(
        s.get_app_installed(&packs, "word", None).unwrap_err(),
        LookupError::MultipleVersions
    );
    let picked = s.get_app_installed(&packs, "word", Some("2.0")).unwrap();
    assert_eq!(picked.id, "word");
    assert_eq!(picked.version, "2.0");
    let only = s.get_app_installed(&packs, "draw", None).unwrap();
    assert_eq!(only.version, "1.0");
    assert_eq!(
        s.get_app_installed(&packs, "draw", Some("9.9")).unwrap_err(),
        LookupError::NotInstalled
    );
}

#[test]
fn app_home_dir_layout() {
    let s = settings();
    let e = entry("word", "1.0");
    assert_eq!(s.get_app_home_dir(&e), "/data/apps/word/1.0");
}

#[test]
fn settings_check_wants_both_directories() {
    let s = settings();
    assert_eq!(s.check_ok(true, true), Ok(()));
    assert_eq!(s.check_ok(false, true), Err(SettingsError::HomeDirMissing));
    assert_eq!(s.check_ok(false, false), Err(SettingsError::HomeDirMissing));
    assert_eq!(s.check_ok(true, false), Err(SettingsError::DesktopEntriesDirMissing));
}

#[test]
fn uninstall_removes_every_version_of_the_id() {
    let mut packs = InstalledAppPacks {
        installed: vec![entry("word", "1.0"), entry("draw", "1.0"), entry("word", "2.0")],
    };
    remove_entries_with_id(&mut packs, "word");
    assert_eq!(packs.installed.len(), 1);
    assert_eq!(packs.installed[0].id, "draw");
}

#[test]
fn required_files_cover_image_and_desktop_entries() {
    let mut e = entry("word", "1.0");
    e.desktop_entries = Some(vec![
        AppDesktopEntry {
            entry: "word.desktop".to_string(),
            icon: "word.svg".to_string(),
            rdp_args: String::new(),
        },
        AppDesktopEntry {
            entry: "excel.desktop".to_string(),
            icon: "excel.svg".to_string(),
            rdp_args: String::new(),
        },
    ]);
    let req = required_archive_files(&e);
    assert_eq!(
        req,
        vec![
            "image.qcow2".to_string(),
            "desktop/word.desktop".to_string(),
            "desktop/word.svg".to_string(),
            "desktop/excel.desktop".to_string(),
            "desktop/excel.svg".to_string(),
        ]
    );
}

#[test]
fn install_check_rejects_bad_version() {
    let e = entry("word", "1 0");
    let packs = InstalledAppPacks { installed: vec![] };
    let present = vec!["image.qcow2".to_string()];
    assert_eq!(check_valid_app_pack(&e, &packs, &present), Err(InstallError::InvalidVersion));
}

#[test]
fn install_check_rejects_installed_id() {
    let e = entry("word", "2.0");
    let packs = InstalledAppPacks { installed: vec![entry("word", "1.0")] };
    let present = vec!["image.qcow2".to_string()];
    assert_eq!(check_valid_app_pack(&e, &packs, &present), Err(InstallError::AlreadyInstalled));
}

#[test]
fn install_check_reports_missing_files() {
    let mut e = entry("word", "1.0");
    e.desktop_entries = Some(vec![AppDesktopEntry {
        entry: "word.desktop".to_string(),
        icon: "word.svg".to_string(),
        rdp_args: String::new(),
    }]);
    let packs = InstalledAppPacks { installed: vec![] };
    let present = vec!["image.qcow2".to_string(), "desktop/word.desktop".to_string()];
    match check_valid_app_pack(&e, &packs, &present) {
        Err(InstallError::MissingFiles(m)) => assert_eq!(m, vec!["desktop/word.svg".to_string()]),
        other => panic!("expected missing files, got {other:?}"),
    }
    let complete = vec![
        "image.qcow2".to_string(),
        "desktop/word.desktop".to_string(),
        "desktop/word.svg".to_string(),
        "unrelated.txt".to_string(),
    ];
    assert_eq!(check_valid_app_pack(&e, &packs, &complete), Ok(()));
}

#[test]
fn build_config_packs_into_an_entry() {
    let cfg = AppBuildConfig {
        name: "Word".to_string(),
        id: "word".to_string(),
        version: "1.0".to_string(),
        image: "image.qcow2".to_string(),
        description: Some("an app".to_string()),
        snapshot: AppSnapshotTriggerMode::Never,
        readme: AppBuildConfigReadmeConfiguration {
            folder: default_readme_folder(),
            index: default_readme_index(),
        },
        base_command: "-m 4G".to_string(),
        install_append: "-cdrom setup.iso".to_string(),
        configure_append: "-display none".to_string(),
        configure_freerdp: "/u:user".to_string(),
        desktop_entries: None,
    };
    assert_eq!(cfg.readme.folder, "readme");
    assert_eq!(cfg.readme.index, "README.md");
    let e = AppBuildConfig::from(cfg);
    assert_eq!(e.qemu_command, "-m 4G -display none");
    assert_eq!(e.freerdp_command, "/u:user");
    assert!(e.desktop_entries.is_none());
}

#[test]
fn index_file_modes_map_to_trigger_modes() {
    assert_eq!(trigger_mode_of(AppPackSnapshotMode::OnClose), AppSnapshotTriggerMode::OnClose);
    assert_eq!(trigger_mode_of(AppPackSnapshotMode::Never), AppSnapshotTriggerMode::Never);
    assert_eq!(trigger_mode_of(AppPackSnapshotMode::NeverLoad), AppSnapshotTriggerMode::NeverLoad);
}

#[test]
fn install_paths() {
    assert_eq!(bundle_file_name("word", "1.0"), "word_1.0.zip");
    assert_eq!(desktop_entry_dest("/apps/applications", "1.0", "word.desktop"),
        "/apps/applications/1.0_word.desktop");
    assert_eq!(app_file_dest("/apps/word/1.0", "image.qcow2"), "/apps/word/1.0/image.qcow2");
    assert_eq!(icon_dest("/apps/word/1.0", "word.svg"), "/apps/word/1.0/desktop/word.svg");
    assert_eq!(archive_member_for_entry("word.desktop"), "desktop/word.desktop");
}

#[test]
fn path_file_name_takes_the_last_component() {
    assert_eq!(path_file_name("desktop/word.desktop"), Some("word.desktop".to_string()));
    assert_eq!(path_file_name("word.svg"), Some("word.svg".to_string()));
    assert_eq!(path_file_name("/a/b/c"), Some("c".to_string()));
    assert_eq!(path_file_name("a/b/"), None);
    assert_eq!(path_file_name(""), None);
}

#[test]
fn qemu_command_substitutes_and_appends_loadvm() {
    let boot = BootDecision {
        action: BootAction::LoadTag(BootTag::OnClose),
        notice: BootNotice::Quiet,
    };
    let cmd = build_qemu_command(
        "-m 4G -drive file=$IMAGE_FILE_PATH -rdp $RDP_PORT",
        3389,
        "/apps/word/1.0/image.qcow2",
        &boot,
    );
    assert_eq!(
        cmd,
        "-m 4G -drive file=/apps/word/1.0/image.qcow2 -rdp 3389 -loadvm appack-onclose"
    );

    let cold = BootDecision { action: BootAction::ColdBoot, notice: BootNotice::FirstLaunch };
    assert_eq!(build_qemu_command("-m 4G", 1, "img", &cold), "-m 4G");

    let init = BootDecision { action: BootAction::LoadTag(BootTag::Init), notice: BootNotice::Quiet };
    assert_eq!(build_qemu_command("-m 4G", 1, "img", &init), "-m 4G -loadvm appack-init");
}

#[test]
fn freerdp_args_substitute_split_and_unescape() {
    let args = build_freerdp_args(
        "/v:localhost:$RDP_PORT /drive:home,$HOME",
        Some("+clipboard $TO_WIN_ESCAPED_PATH**/home/dude/my file.txt**"),
        3389,
        "/home/dude",
    );
    assert_eq!(
        args,
        vec![
            "/v:localhost:3389".to_string(),
            "/drive:home,/home/dude".to_string(),
            "+clipboard".to_string(),
            "\\\\tsclient\\home\\my file.txt".to_string(),
        ]
    );
}

#[test]
fn freerdp_args_without_extra_arguments() {
    let args = build_freerdp_args("/v:localhost:$RDP_PORT", None, 4000, "/home/x");
    assert_eq!(args, vec!["/v:localhost:4000".to_string()]);
}

#[test]
fn display_server_detection() {
    assert_eq!(get_display_server(Some("wayland")), DisplayServer::Wayland);
    assert_eq!(get_display_server(Some("x11")), DisplayServer::X11);
    assert_eq!(get_display_server(Some("tty")), DisplayServer::Unknown);
    assert_eq!(get_display_server(None), DisplayServer::Unknown);
    assert_eq!(get_freerdp_executable(DisplayServer::Wayland), "xfreerdp3");
    assert_eq!(get_freerdp_executable(DisplayServer::Unknown), "xfreerdp3");
}

#[test]
fn desktop_entry_accepts_matching_exec() {
    let app = entry("word", "1.0");
    let de = AppDesktopEntry {
        entry: "word.desktop".to_string(),
        icon: "word.svg".to_string(),
        rdp_args: String::new(),
    };
    let contents = "[Desktop Entry]\nName=Word\nExec=$APPACK_LAUNCH_CMD\nIcon=$ICON_FULL_PATH\n";
    let p = process_desktop_entry(contents, &de, &app, "/apps/word/1.0/desktop").unwrap();
    assert!(!p.needs_review);
    assert_eq!(
        p.contents,
        "[Desktop Entry]\nName=Word\nExec=appack launch word --version=1.0\nIcon=/apps/word/1.0/desktop/word.svg\n"
    );
}

#[test]
fn desktop_entry_with_args_quotes_and_escapes() {
    let app = entry("word", "1.0");
    let de = AppDesktopEntry {
        entry: "word.desktop".to_string(),
        icon: "word.svg".to_string(),
        rdp_args: "path \"C:\\x\"".to_string(),
    };
    let contents = "Exec=$APPACK_LAUNCH_CMD\n";
    let p = process_desktop_entry(contents, &de, &app, "/icons").unwrap();
    assert!(!p.needs_review);
    assert_eq!(
        p.contents,
        "Exec=appack launch word \"path \\\"C:\\\\x\\\"\" --version=1.0\n"
    );
}

#[test]
fn desktop_entry_flags_a_foreign_exec_for_review() {
    let app = entry("word", "1.0");
    let de = AppDesktopEntry {
        entry: "word.desktop".to_string(),
        icon: "word.svg".to_string(),
        rdp_args: String::new(),
    };
    let contents = "Exec=rm -rf /\nComment=$APPACK_LAUNCH_CMD\n";
    let p = process_desktop_entry(contents, &de, &app, "/icons").unwrap();
    assert!(p.needs_review);
}

#[test]
fn desktop_entry_wants_exactly_one_exec() {
    let app = entry("word", "1.0");
    let de = AppDesktopEntry {
        entry: "word.desktop".to_string(),
        icon: "word.svg".to_string(),
        rdp_args: String::new(),
    };
    assert_eq!(
        process_desktop_entry("Name=x\n", &de, &app, "/icons").unwrap_err(),
        DesktopEntryError::WrongExecCount
    );
    assert_eq!(
        process_desktop_entry("Exec=a\nExec=b\n", &de, &app, "/icons").unwrap_err(),
        DesktopEntryError::WrongExecCount
    );
    assert_eq!(
        process_desktop_entry("Exec broken\n", &de, &app, "/icons").unwrap_err(),
        DesktopEntryError::MalformedExec
    );
}
