use brandybox::autostart::{
    apply_autostart_platform, desktop_entry, join_with, launch_agent, shortcut_script,
    AutostartChange, Platform,
};
use brandybox::geometry::{default_window_position, parse_geometry};
use brandybox::state::{load_sync_state, SyncStateFile};

fn strings(v: &[&str]) -> Vec<String> {
    v.iter().map(|s| s.to_string()).collect()
}

#[test]
fn geometry_is_four_numbers() {
    assert_eq!(parse_geometry("10,20,520,640"), Some((10, 20, 520, 640)));
    assert_eq!(parse_geometry(" 10 , -20 ,\t520, 640 "), Some((10, -20, 520, 640)));
    assert_eq!(parse_geometry("+1,+2,+3,+4"), Some((1, 2, 3, 4)));
    assert_eq!(parse_geometry("-0,007,1,1"), Some((0, 7, 1, 1)));
    assert_eq!(
        parse_geometry("-2147483648,2147483647,4294967295,1"),
        Some((i32::MIN, i32::MAX, u32::MAX, 1))
    );
}

#[test]
fn geometry_that_is_not_read() {
    for bad in [
        "",
        "1,2,3",
        "1,2,3,4,5",
        "1,2,3,",
        ",1,2,3",
        "1,2,0,4",
        "1,2,3,0",
        "1,2,-3,4",
        "1,2,3,-0",
        "a,2,3,4",
        "1,2,3,4x",
        "1 0,2,3,4",
        "1,2,3,4.0",
        "+,2,3,4",
        "-,2,3,4",
        "--1,2,3,4",
        "+-1,2,3,4",
        "2147483648,2,3,4",
        "-2147483649,2,3,4",
        "1,2,4294967296,4",
        "1,2,3,99999999999999999999999999",
        "１,2,3,4",
    ] {
        assert_eq!(parse_geometry(bad), None, "{:?}", bad);
    }
}

#[test]
fn geometry_agrees_with_the_standard_parsers() {
    let fields = ["0", "-1", "+7", "x", "", " 5", "00012", "4294967295", "4294967296", "-2147483648", "2147483647", "2147483648", "- 1", "1_000"];
    for a in fields {
        for b in fields {
            let text = format!("{},1,{},2", a, b);
            let want = match (a.trim().parse::<i32>(), b.trim().parse::<u32>()) {
                (Ok(x), Ok(w)) if w != 0 => Some((x, 1, w, 2)),
                _ => None,
            };
            assert_eq!(parse_geometry(&text), want, "{:?}", text);
        }
    }
}

#[test]
fn joining_a_command() {
    let cmd = strings(&["BrandyBox", "--tray", "x y"]);
    assert_eq!(join_with(&cmd, 0, " "), "BrandyBox --tray x y");
    assert_eq!(join_with(&cmd, 1, " "), "--tray x y");
    assert_eq!(join_with(&cmd, 2, ", "), "x y");
    assert_eq!(join_with(&cmd, 3, " "), "");
    assert_eq!(join_with(&Vec::new(), 0, " "), "");
}

#[test]
fn linux_desktop_entry() {
    assert_eq!(
        desktop_entry(&strings(&["BrandyBox"])),
        "[Desktop Entry]\nType=Application\nName=Brandy Box\nExec=BrandyBox\nX-GNOME-Autostart-enabled=true\n"
    );
    assert_eq!(
        desktop_entry(&strings(&["/opt/bb/BrandyBox", "--hidden"])),
        "[Desktop Entry]\nType=Application\nName=Brandy Box\nExec=/opt/bb/BrandyBox --hidden\nX-GNOME-Autostart-enabled=true\n"
    );
}

#[test]
fn macos_launch_agent() {
    let want = r#"<?xml version="1.0" encoding="UTF-8"?>
<!DOCTYPE plist PUBLIC "-//Apple//DTD PLIST 1.0//EN" "http://www.apple.com/DTDs/PropertyList-1.0.dtd">
<plist version="1.0">
<dict>
  <key>Label</key>
  <string>rocks.brandstaetter.brandybox</string>
  <key>ProgramArguments</key>
  <array>
    <string>BrandyBox</string>
    <string>--hidden</string>
  </array>
  <key>RunAtLoad</key>
  <true/>
</dict>
</plist>
"#;
    assert_eq!(launch_agent(&strings(&["BrandyBox", "--hidden"])), want);
}

#[test]
fn windows_shortcut_script() {
    assert_eq!(
        shortcut_script("C:\\Startup\\BrandyBox.lnk", &strings(&["C:\\bb\\Brandy\"Box.exe", "--a", "say \"hi\""])),
        "$s = (New-Object -COM WScript.Shell).CreateShortcut(\"C:\\Startup\\BrandyBox.lnk\"); $s.TargetPath = \"C:\\bb\\Brandy`\"Box.exe\"; $s.Arguments = \"--a say `\"hi`\"\"; $s.Save()"
    );
    assert_eq!(
        shortcut_script("x.lnk", &Vec::new()),
        "$s = (New-Object -COM WScript.Shell).CreateShortcut(\"x.lnk\"); $s.TargetPath = \"\"; $s.Arguments = \"\"; $s.Save()"
    );
}

#[test]
fn missing_state_document_is_empty() {
    let s = load_sync_state(None);
    assert!(s.paths.is_empty() && s.downloaded_paths.is_empty() && s.file_hashes.is_empty());
    let d = SyncStateFile::default();
    assert!(d.paths.is_empty() && d.downloaded_paths.is_empty() && d.file_hashes.is_empty());
    let given = SyncStateFile {
        paths: strings(&["a"]),
        downloaded_paths: strings(&["b"]),
        file_hashes: Vec::new(),
    };
    let s = load_sync_state(Some(given));
    assert_eq!(s.paths, strings(&["a"]));
    assert_eq!(s.downloaded_paths, strings(&["b"]));
}

#[test]
fn settings_window_goes_to_the_right_edge() {
    assert_eq!(default_window_position(0, 0, 1920, 1080), (1920 - 520 - 16, 16));
    assert_eq!(default_window_position(100, 50, 1920, 1040), (100 + 1920 - 536, 66));
    // A work area narrower than the window: not left of the work area.
    assert_eq!(default_window_position(10, 0, 400, 1080), (10, 16));
    // A work area lower than the window: as low as the window fits.
    assert_eq!(default_window_position(0, 30, 1920, 600), (1384, 30 + 600 - 640));
    assert_eq!(default_window_position(-1920, -200, 1920, 1080), (-536, -184));
    assert_eq!(default_window_position(i32::MAX, i32::MAX, u32::MAX, u32::MAX), (i32::MAX, i32::MAX));
}

#[test]
fn autostart_changes_by_platform() {
    let cmd = strings(&["BrandyBox"]);
    match apply_autostart_platform(Platform::Linux, true, &cmd, "/home/u/.config") {
        AutostartChange::Write { path, content } => {
            assert_eq!(path, "/home/u/.config/autostart/brandybox.desktop");
            assert_eq!(content, desktop_entry(&cmd));
        }
        _ => panic!("expected a file to write"),
    }
    match apply_autostart_platform(Platform::MacOs, true, &cmd, "/Users/u") {
        AutostartChange::Write { path, content } => {
            assert_eq!(path, "/Users/u/Library/LaunchAgents/rocks.brandstaetter.brandybox.plist");
            assert_eq!(content, launch_agent(&cmd));
        }
        _ => panic!("expected a file to write"),
    }
    let lnk = "C:/Roaming/Microsoft/Windows/Start Menu/Programs/Startup/BrandyBox.lnk";
    match apply_autostart_platform(Platform::Windows, true, &cmd, "C:/Roaming") {
        AutostartChange::Run { script } => assert_eq!(script, shortcut_script(lnk, &cmd)),
        _ => panic!("expected a script to run"),
    }
    for (platform, base, want) in [
        (Platform::Windows, "C:/Roaming", lnk),
        (Platform::MacOs, "/Users/u", "/Users/u/Library/LaunchAgents/rocks.brandstaetter.brandybox.plist"),
        (Platform::Linux, "/c", "/c/autostart/brandybox.desktop"),
    ] {
        match apply_autostart_platform(platform, false, &cmd, base) {
            AutostartChange::Remove { path } => assert_eq!(path, want),
            _ => panic!("expected a file to remove"),
        }
        assert_eq!(platform.autostart_file(base), want);
    }
}
