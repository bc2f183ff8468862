use jpcg::profession::{attribute_config_path, check_attribute_config};
use jpcg::updater::{parse_pid, parse_updater_args, UpdaterArgsError};

fn args(v: &[&str]) -> Vec<String> {
    v.iter().map(|s| s.to_string()).collect()
}

#[test]
fn updater_command_line() {
    let a = parse_updater_args(&args(&["jpcg_updater", "4321", "/app/JPCG", "/tmp/JPCG.new", "/app", "extra"])).unwrap();
    assert_eq!(a.parent_pid, 4321);
    assert_eq!(a.old_path, "/app/JPCG");
    assert_eq!(a.new_path, "/tmp/JPCG.new");
    assert_eq!(a.workdir, "/app");
    assert_eq!(parse_updater_args(&args(&["jpcg_updater", "1", "a", "b"])).unwrap_err(), UpdaterArgsError::Usage);
    assert_eq!(parse_updater_args(&args(&["jpcg_updater", "x1", "a", "b", "c"])).unwrap_err(), UpdaterArgsError::InvalidPid);
}

#[test]
fn pid_text_agrees_with_std() {
    for s in ["0", "7", "+7", "-7", "", "+", "12a", " 1", "4294967295", "4294967296", "000000000000042", "99999999999999999999"] {
        assert_eq!(parse_pid(s), s.parse::<u32>().ok(), "text {:?}", s);
    }
}

#[test]
fn attribute_editor_checks() {
    assert_eq!(attribute_config_path("data/shuxing", "mowen").unwrap(), "data/shuxing/mowen.toml");
    assert_eq!(attribute_config_path("data/shuxing/", "mo-wen_2").unwrap(), "data/shuxing/mo-wen_2.toml");
    assert_eq!(attribute_config_path("data/shuxing", "../x").unwrap_err(), "心法文件名无效");
    assert!(check_attribute_config("莫问", "根骨", 3).is_ok());
    assert_eq!(check_attribute_config(" \t", "根骨", 3).unwrap_err(), "配置缺少 [xinfa] 心法信息");
    assert_eq!(check_attribute_config("莫问", "\u{3000}", 3).unwrap_err(), "配置缺少 [xinfa] 心法信息");
    assert_eq!(check_attribute_config("莫问", "根骨", 0).unwrap_err(), "配置至少需要一个 [[skill]] 技能条目");
}

#[test]
fn blank_text_agrees_with_std_trim() {
    for s in ["", " ", "\t\n\r", "\u{85}\u{a0}", "\u{2000}\u{200a}\u{2028}\u{2029}\u{202f}\u{205f}\u{3000}\u{1680}", "\u{200b}", "a", " x "] {
        let blank = s.trim().is_empty();
        assert_eq!(check_attribute_config(s, "n", 1).is_err(), blank, "text {:?}", s);
    }
}
