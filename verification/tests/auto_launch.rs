use cc_switch::auto_launch::{
    disable, disable_auto_launch, enable, enable_auto_launch, get_auto_launch, get_macos_app_bundle_path,
    is_auto_launch_enabled, is_enabled, launch_failure, sync_auto_launch_from_settings,
    windows_run_command, DeleteOutcome, LaunchEntry, LaunchRemoval, LaunchStatus, LaunchStep,
    APP_NAME,
};
use cc_switch::error::AppError;
use cc_switch::location::Platform;

fn message(text: &str) -> AppError {
    AppError::Message(text.to_string())
}

#[test]
fn test_get_macos_app_bundle_path_valid() {
    let result = get_macos_app_bundle_path("/Applications/CC Switch.app/Contents/MacOS/CC Switch");
    assert_eq!(result, Some("/Applications/CC Switch.app".to_string()));
}

#[test]
fn test_get_macos_app_bundle_path_with_spaces() {
    let result =
        get_macos_app_bundle_path("/Users/test/My Apps/CC Switch.app/Contents/MacOS/CC Switch");
    assert_eq!(
        result,
        Some("/Users/test/My Apps/CC Switch.app".to_string())
    );
}

#[test]
fn test_get_macos_app_bundle_path_not_in_bundle() {
    assert_eq!(get_macos_app_bundle_path("/usr/local/bin/cc-switch"), None);
}

#[test]
fn test_get_macos_app_bundle_path_dev_build() {
    assert_eq!(
        get_macos_app_bundle_path("/Users/dev/project/target/debug/cc-switch"),
        None
    );
}

#[test]
fn bundle_path_ends_at_the_first_bundle() {
    assert_eq!(
        get_macos_app_bundle_path("/ü/A.app/Contents/MacOS/B.app/Contents/MacOS/x"),
        Some("/ü/A.app".to_string())
    );
}

#[test]
fn windows_run_command_quotes_paths_with_spaces() {
    assert_eq!(
        windows_run_command(r"C:\Users\13493\AppData\Local\Programs\CC Switch\cc-switch.exe"),
        r#""C:\Users\13493\AppData\Local\Programs\CC Switch\cc-switch.exe""#
    );
}

#[test]
fn windows_run_command_strips_extended_path_prefix() {
    assert_eq!(
        windows_run_command(r"\\?\C:\Program Files\CC Switch\cc-switch.exe"),
        r#""C:\Program Files\CC Switch\cc-switch.exe""#
    );
}

#[test]
fn windows_run_command_strips_one_prefix_and_all_outer_quotes() {
    assert_eq!(windows_run_command(r"\\?\\\?\a"), r#""\\?\a""#);
    assert_eq!(windows_run_command(r#"""a"b"""#), r#""a"b""#);
    assert_eq!(windows_run_command(""), r#""""#);
}

#[test]
fn windows_run_command_is_stable() {
    let once = windows_run_command(r"\\?\C:\CC Switch.exe");
    assert_eq!(windows_run_command(&once), once);
}

#[test]
fn enable_writes_the_quoted_command() {
    let entry = enable(Ok("C:\\a b.exe".to_string())).expect("entry");
    match entry {
        LaunchEntry::Registry {
            name,
            command,
            approved,
        } => {
            assert_eq!(name, APP_NAME);
            assert_eq!(command, "\"C:\\a b.exe\"");
            assert_eq!(approved, vec![2, 0, 0, 0, 0, 0, 0, 0, 0, 0, 0, 0]);
            assert!(is_enabled(&Some(command.clone()), &Some(approved)));
            assert!(is_enabled(&Some(command), &None));
        }
        LaunchEntry::LoginItem { .. } => panic!("registry entry expected"),
    }
    assert_eq!(
        enable(Err("gone".to_string())).expect_err("no path"),
        message("无法获取应用路径: gone")
    );
}

#[test]
fn disable_fails_only_where_the_value_resists() {
    assert!(disable(DeleteOutcome::NoKey).is_ok());
    assert!(disable(DeleteOutcome::Deleted).is_ok());
    assert!(disable(DeleteOutcome::NotFound).is_ok());
    assert_eq!(
        disable(DeleteOutcome::Failed("denied".to_string())).expect_err("resists"),
        message("删除开机自启注册表失败: denied")
    );
}

#[test]
fn registry_status_follows_command_and_approval() {
    let run = Some("\"x\"".to_string());
    assert!(!is_enabled(&None, &None));
    assert!(!is_enabled(&Some(" \t".to_string()), &None));
    assert!(!is_enabled(&run, &Some(vec![6, 0, 0, 0])));
    assert!(!is_enabled(&run, &Some(vec![7, 0, 0, 0, 1, 2])));
    assert!(is_enabled(&run, &Some(vec![6, 0, 0])));
    assert!(is_enabled(&run, &Some(vec![6, 1, 0, 0])));
    assert!(is_enabled(&run, &Some(vec![0, 0, 0, 6])));
}

#[test]
fn entries_by_platform() {
    let exe = "/Applications/CC Switch.app/Contents/MacOS/CC Switch".to_string();
    match enable_auto_launch(Platform::MacOs, Ok(exe.clone())).expect("entry") {
        LaunchEntry::LoginItem { name, path } => {
            assert_eq!(name, "CC Switch");
            assert_eq!(path, "/Applications/CC Switch.app");
        }
        LaunchEntry::Registry { .. } => panic!("login item expected"),
    }
    match enable_auto_launch(Platform::Unix, Ok(exe.clone())).expect("entry") {
        LaunchEntry::LoginItem { path, .. } => assert_eq!(path, exe),
        LaunchEntry::Registry { .. } => panic!("login item expected"),
    }
    match enable_auto_launch(Platform::Windows, Ok(exe.clone())).expect("entry") {
        LaunchEntry::Registry { command, .. } => assert_eq!(command, format!("\"{exe}\"")),
        LaunchEntry::LoginItem { .. } => panic!("registry entry expected"),
    }
    assert_eq!(
        enable_auto_launch(Platform::Unix, Err("e".to_string())).expect_err("no path"),
        message("无法获取应用路径: e")
    );
}

#[test]
fn login_items_open_the_bundle_on_macos_only() {
    let exe = "/A.app/Contents/MacOS/a".to_string();
    let item = get_auto_launch(Platform::MacOs, Ok(exe.clone())).expect("item");
    assert_eq!((item.name.as_str(), item.path.as_str()), ("CC Switch", "/A.app"));
    let item = get_auto_launch(Platform::Unix, Ok(exe.clone())).expect("item");
    assert_eq!(item.path, exe);
    assert_eq!(
        get_auto_launch(Platform::Unix, Err("e".to_string())).expect_err("no path"),
        message("无法获取应用路径: e")
    );
}

#[test]
fn removals_by_platform() {
    match disable_auto_launch(Platform::Windows, Err("e".to_string())).expect("removal") {
        LaunchRemoval::Registry { name } => assert_eq!(name, "CC Switch"),
        LaunchRemoval::LoginItem { .. } => panic!("registry values expected"),
    }
    match disable_auto_launch(Platform::Unix, Ok("/bin/x".to_string())).expect("removal") {
        LaunchRemoval::LoginItem { path, .. } => assert_eq!(path, "/bin/x"),
        LaunchRemoval::Registry { .. } => panic!("login item expected"),
    }
    assert_eq!(
        disable_auto_launch(Platform::MacOs, Err("e".to_string())).expect_err("no path"),
        message("无法获取应用路径: e")
    );
}

#[test]
fn status_of_login_items_is_passed_on() {
    assert_eq!(
        is_auto_launch_enabled(LaunchStatus::LoginItem(Ok(true))),
        Ok(true)
    );
    assert_eq!(
        is_auto_launch_enabled(LaunchStatus::LoginItem(Ok(false))),
        Ok(false)
    );
    assert_eq!(
        is_auto_launch_enabled(LaunchStatus::LoginItem(Err("e".to_string()))),
        Err(message("检查开机自启状态失败: e"))
    );
    assert_eq!(
        is_auto_launch_enabled(LaunchStatus::Registry {
            run: Some("\"x\"".to_string()),
            approved: Some(vec![2, 0, 0, 0]),
        }),
        Ok(true)
    );
}

#[test]
fn settings_decide_whether_the_entry_is_written_anew() {
    assert!(sync_auto_launch_from_settings(false, Platform::Unix, Ok("/x".to_string())).is_none());
    assert!(matches!(
        sync_auto_launch_from_settings(true, Platform::Unix, Ok("/x".to_string())),
        Some(Ok(LaunchEntry::LoginItem { .. }))
    ));
    assert!(matches!(
        sync_auto_launch_from_settings(true, Platform::Unix, Err("e".to_string())),
        Some(Err(AppError::Message(_)))
    ));
}

#[test]
fn failed_steps_name_what_was_tried() {
    let texts = [
        (LaunchStep::FindExecutable, "无法获取应用路径: c"),
        (LaunchStep::WriteRunValue, "写入开机自启注册表失败: c"),
        (LaunchStep::DeleteRunValue, "删除开机自启注册表失败: c"),
        (LaunchStep::BuildLoginItem, "创建 AutoLaunch 失败: c"),
        (LaunchStep::EnableLoginItem, "启用开机自启失败: c"),
        (LaunchStep::DisableLoginItem, "禁用开机自启失败: c"),
        (LaunchStep::CheckLoginItem, "检查开机自启状态失败: c"),
    ];
    for (step, text) in texts {
        assert_eq!(launch_failure(step, "c"), message(text));
    }
}
