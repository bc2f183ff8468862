use jpcg::api::{
    list_available, list_professions, HostileConfigDTO, PlayerConfigDTO, VersionInfoDTO, XinfaSummaryDTO,
};
use jpcg::combo::{cumulative_kills, hp_preset, ComboConfig, DEFAULT_SAMPLES};
use jpcg::config::{AtkConfig, HostilepileConfig, PlayerConfig};
use jpcg::ffi::{
    combo_method, core_method, jpcg_abi_version, jpcg_combo_abi_version, jpcg_const_abi_version,
    jpcg_update_abi_version, ComboHandle, ComboMethod, CoreMethod, JpcgHandle,
};
use jpcg::level_constant::{
    current, parse_decimal, parse_snapshot, parse_snapshot_bytes, parse_u32, snapshot_bytes, trim_range,
    try_parse_snapshot, Decimal, LevelConstant, SnapshotError, LEVEL,
    SNAPSHOT_TEXT,
};
use jpcg::presets::{delete_combo_preset, delete_preset, list_combo_presets, list_presets, preset_file_path};
use jpcg::profession::{get_xinfa_list, group_key, profession_file_key, validate_profession_name};
use jpcg::xinfa::{VersionInfo, XinfaSummary};

fn as_f32(d: Decimal) -> f32 {
    let mut divisor: f32 = 1.0;
    for _ in 0..d.scale {
        divisor *= 10.0;
    }
    d.mantissa as f32 / divisor
}

fn summary(value: &str, label: &str, level: u32, season: u32, modified: u32) -> XinfaSummary {
    XinfaSummary::of_file(
        value.to_string(),
        label.to_string(),
        "根骨".to_string(),
        Some(VersionInfo { level, season, modified }),
    )
}

#[test]
fn snapshot_matches_rust_literal_bits() {
    let c = current();
    assert_eq!(LEVEL, 130);
    assert_eq!(as_f32(c.pofang_xishu).to_bits(), 225957.6f32.to_bits());
    assert_eq!(as_f32(c.huixin_xishu).to_bits(), 197703.0f32.to_bits());
    assert_eq!(as_f32(c.huixiao_xishu).to_bits(), 72844.2f32.to_bits());
    assert_eq!(as_f32(c.yujin_xishu).to_bits(), 197703.0f32.to_bits());
    assert_eq!(as_f32(c.yuhui_xishu).to_bits(), 55123.2f32.to_bits());
    assert_eq!(as_f32(c.huajin_xishu).to_bits(), 30115.8f32.to_bits());
    assert_eq!(as_f32(c.fangyu_xishu).to_bits(), 126007.2f32.to_bits());
    assert_eq!(as_f32(c.pvp_global_jianshang).to_bits(), 0.9f32.to_bits());
}

#[test]
fn full_text_parse_roundtrip() {
    let (level, val) = parse_snapshot(SNAPSHOT_TEXT);
    assert_eq!(level, LEVEL);
    assert_eq!(val, current());
}

#[test]
fn built_snapshot_is_the_snapshot_text() {
    let built = snapshot_bytes();
    assert_eq!(built.as_slice(), SNAPSHOT_TEXT.as_bytes());
    assert_eq!(parse_snapshot_bytes(&built), Ok((LEVEL, current())));
}

#[test]
fn value_readers() {
    let b = b"  130 \t225957.6\r";
    assert_eq!(trim_range(b, 0, 6), (2, 5));
    assert_eq!(trim_range(b, 0, 2), (2, 2));
    assert_eq!(parse_u32(b, 2, 5), 130);
    assert_eq!(parse_decimal(b, 7, 15), Decimal { mantissa: 2259576, scale: 1 });
    assert_eq!(parse_decimal(b, 2, 5), Decimal { mantissa: 130, scale: 0 });
}

#[test]
fn unknown_key_is_rejected() {
    let txt = "level = 130\npofang_xishu = 225957.6\nbogus_key = 1\n";
    assert_eq!(try_parse_snapshot(txt), Err(SnapshotError::UnknownKey));
}

#[test]
fn missing_field_is_rejected() {
    let txt = "level = 130\npofang_xishu = 225957.6\n";
    assert_eq!(try_parse_snapshot(txt), Err(SnapshotError::MissingField));
}

#[test]
fn snapshot_value_errors() {
    let base = "pofang_xishu = 1\nhuixin_xishu = 1\nhuixiao_xishu = 1\nyujin_xishu = 1\nyuhui_xishu = 1\nhuajin_xishu = 1\nfangyu_xishu = 1\npvp_global_jianshang = 1\n";
    let ok = format!("# comment\n\nlevel = 7 # trailing\n{}", base);
    let (lv, c) = parse_snapshot(&ok);
    assert_eq!(lv, 7);
    assert_eq!(c.fangyu_xishu, Decimal { mantissa: 1, scale: 0 });
    assert_eq!(try_parse_snapshot(&format!("level = 1\nlevel = 2\n{}", base)), Err(SnapshotError::DuplicateKey));
    assert_eq!(try_parse_snapshot(&format!("level 1\n{}", base)), Err(SnapshotError::MissingAssignment));
    assert_eq!(try_parse_snapshot(&format!("level = # none\n{}", base)), Err(SnapshotError::EmptyValue));
    assert_eq!(try_parse_snapshot(&format!("level = 1x\n{}", base)), Err(SnapshotError::InvalidInteger));
    assert_eq!(try_parse_snapshot(&format!("level = 99999999999\n{}", base)), Err(SnapshotError::IntegerOutOfRange));
    let bad_dec = base.replace("fangyu_xishu = 1", "fangyu_xishu = 1.2.3");
    assert_eq!(try_parse_snapshot(&format!("level = 1\n{}", bad_dec)), Err(SnapshotError::InvalidDecimal));
    let no_frac = base.replace("fangyu_xishu = 1", "fangyu_xishu = 1.");
    assert_eq!(try_parse_snapshot(&format!("level = 1\n{}", no_frac)), Err(SnapshotError::MissingFractionDigits));
    let big = base.replace("fangyu_xishu = 1", "fangyu_xishu = 16777216.0");
    assert_eq!(try_parse_snapshot(&format!("level = 1\n{}", big)), Err(SnapshotError::MantissaOutOfRange));
    let frac = base.replace("fangyu_xishu = 1", "fangyu_xishu = 12.05");
    let (_, c2) = parse_snapshot(&format!("level = 1\n{}", frac));
    assert_eq!(c2.fangyu_xishu, Decimal { mantissa: 1205, scale: 2 });
}

#[test]
fn level_constant_value() {
    let c: LevelConstant = current();
    assert_eq!(c.pofang_xishu, Decimal { mantissa: 2259576, scale: 1 });
    assert_eq!(c.pvp_global_jianshang, Decimal { mantissa: 9, scale: 1 });
}

#[test]
fn version_texts() {
    let v = VersionInfo { level: 130, season: 3, modified: 20260602 };
    assert_eq!(v.compact(), "130.3.20260602");
    assert_eq!(v.compact_v(), "v130.3.20260602");
    assert_eq!(v.label().as_deref(), Some("130级第3赛季 (2026-06-02)"));
    assert_eq!(VersionInfo { level: 130, season: 1, modified: 5 }.label().as_deref(), Some("130级第1赛季 (0000-00-05)"));
    assert_eq!(VersionInfo { level: 130, season: 1, modified: 123456789 }.label().as_deref(), Some("130级第1赛季 (123456789)"));
    assert!(VersionInfo { level: 0, season: 3, modified: 20260602 }.label().is_none());
    assert_eq!(VersionInfo::default(), VersionInfo { level: 0, season: 0, modified: 0 });
}

#[test]
fn profession_file_names() {
    assert_eq!(group_key("mowen_v2.toml").as_deref(), Some("mowen"));
    assert_eq!(group_key("mowen.toml").as_deref(), Some("mowen"));
    assert_eq!(group_key("_template.toml"), None);
    assert_eq!(group_key("mowen.txt"), None);
    assert_eq!(profession_file_key("mowen_v2.toml").as_deref(), Some("mowen"));
    assert_eq!(profession_file_key(".toml"), None);
    assert_eq!(profession_file_key("readme.md"), None);
    assert!(validate_profession_name("mowen-2_x").is_ok());
    assert_eq!(validate_profession_name("").unwrap_err(), "心法文件名无效");
    assert_eq!(validate_profession_name("_x").unwrap_err(), "心法文件名无效");
    assert_eq!(validate_profession_name("..").unwrap_err(), "心法文件名无效");
    assert_eq!(validate_profession_name("a/b").unwrap_err(), "心法文件名无效");
    assert_eq!(validate_profession_name("莫问").unwrap_err(), "心法文件名无效");
}

#[test]
fn profession_list_keeps_newest_per_group() {
    let candidates = vec![
        summary("mowen", "莫问 old", 130, 1, 20250101),
        summary("xiangzhi", "相知", 130, 2, 20250101),
        summary("mowen", "莫问 new", 130, 3, 20260602),
        summary("mowen", "莫问 same", 130, 3, 20260602),
    ];
    let list = get_xinfa_list(&candidates);
    let labels: Vec<&str> = list.iter().map(|s| s.label.as_str()).collect();
    assert_eq!(labels, vec!["相知", "莫问 new"]);
    assert_eq!(list[1].version_label.as_deref(), Some("130级第3赛季 (2026-06-02)"));
    assert_eq!(list_available(&candidates).len(), 2);
    let dtos: Vec<XinfaSummaryDTO> = list_professions(&candidates);
    assert_eq!(dtos[1].value, "mowen");
    assert_eq!(dtos[1].label, "莫问 new");
    assert_eq!(dtos[1].nom, "根骨");
    let no_version = XinfaSummary::of_file("a".to_string(), "b".to_string(), "c".to_string(), None);
    assert!(no_version.version_label.is_none());
    assert_eq!(no_version.version, VersionInfo { level: 0, season: 0, modified: 0 });
}

#[test]
fn list_professions_roundtrip() {
    let none: Vec<XinfaSummary> = Vec::new();
    assert!(list_professions(&none).is_empty());
    let candidates = vec![summary("mowen", "莫问", 130, 1, 20250101)];
    let dtos = list_professions(&candidates);
    let items: Vec<serde_json::Value> = dtos
        .iter()
        .map(|d| serde_json::Value::String(d.value.clone()))
        .collect();
    let v = serde_json::Value::Array(items);
    assert!(v.is_array());
    assert_eq!(v.as_array().map(|a| a.len()), Some(1));
}

#[test]
fn combo_preset_files() {
    let names = vec![
        "b.toml".to_string(),
        "a.toml".to_string(),
        ".toml".to_string(),
        "notes.txt".to_string(),
        "c.d.toml".to_string(),
    ];
    assert_eq!(list_combo_presets(&names), vec!["a".to_string(), "b".to_string(), "c.d".to_string()]);
    assert_eq!(list_presets(&names), list_combo_presets(&names));
    assert_eq!(preset_file_path("data/combo", "burst"), "data/combo/burst.toml");
    assert_eq!(delete_combo_preset(&None, "burst", true).unwrap_err(), "无法获取连招预设目录");
    assert_eq!(delete_combo_preset(&Some("data/combo".to_string()), "burst", false).unwrap_err(), "预设不存在");
    assert_eq!(delete_preset(&Some("data/combo/".to_string()), "burst", true).unwrap(), "data/combo/burst.toml");
}

#[test]
fn player_and_target_attributes() {
    let p = PlayerConfig::new("gengu".to_string(), 18888, 4666, 33000, 22000, 25000, 2800);
    assert_eq!(p.jcsx, "gengu");
    assert_eq!(p.wuqi_shanghai, 2800);
    assert_eq!(p.zuizhong_gongji, 0);
    let d = PlayerConfig::default();
    assert!(d.jcsx.is_empty() && d.jichu_gongji == 0);
    let h = HostilepileConfig::new(21000, 21000, 8500, 35000, 35);
    assert_eq!((h.waigong_fangyu, h.jianshang_bili, h.target_hp, h.max_hp), (21000, 35, 0, 0));
    let practice = HostilepileConfig::default();
    assert_eq!(
        (practice.waigong_fangyu, practice.neigong_fangyu, practice.yujin_dengji, practice.huajin_dengji, practice.jianshang_bili),
        (100, 100, 1, 1, 10)
    );
    let zero = <HostilepileConfig as Default>::default();
    assert_eq!(zero.waigong_fangyu, 0);
    let atk = AtkConfig::new(64329, 2800);
    assert_eq!(atk.total(), 64329);
    assert_eq!(atk.atk_base_show(), 64329);
    assert_eq!(atk.atk_extra_show(), 2800);
}

#[test]
fn weapon_damage_is_not_in_total() {
    let p = PlayerConfig::new("gengu".to_string(), 18888, 4666, 33000, 22000, 25000, 2800);
    let p2 = PlayerConfig { wuqi_shanghai: 9999, ..p.clone() };
    let a = AtkConfig::of_player(64329, &p);
    let a2 = AtkConfig::of_player(64329, &p2);
    assert_eq!(a.total(), a.atk_base_show());
    assert_eq!(a.total(), a2.total());
    assert_eq!(a.atk_extra_show(), 2800);
    assert_eq!(a2.atk_extra_show(), 9999);
}

#[test]
fn transfer_round_trips() {
    let h = HostilepileConfig { target_hp: 200, max_hp: 300, current_hp: 100, ..HostilepileConfig::new(1, 2, 3, 4, 5) };
    let dto = HostileConfigDTO::from(h);
    assert_eq!(HostilepileConfig::from(dto), h);
    let mut p = PlayerConfig::new("gengu".to_string(), 1, 2, 3, 4, 5, 6);
    p.zuizhong_gongji = 99;
    let back = PlayerConfig::from(PlayerConfigDTO::from(p));
    assert_eq!(back.jcsx, "gengu");
    assert_eq!(back.wuqi_shanghai, 6);
    assert_eq!(back.zuizhong_gongji, 0);
    let v = VersionInfo { level: 130, season: 3, modified: 20260602 };
    assert_eq!(VersionInfo::from(VersionInfoDTO::from(v)), v);
    assert_eq!(VersionInfoDTO::default(), VersionInfoDTO { level: 0, season: 0, modified: 0 });
    assert_eq!(HostileConfigDTO::default().max_hp, 0);
    assert!(PlayerConfigDTO::default().jcsx.is_empty());
    assert!(XinfaSummaryDTO::default().version_label.is_none());
}

#[test]
fn combo_simulation_settings() {
    let c = ComboConfig::default();
    assert_eq!(c.samples, DEFAULT_SAMPLES);
    assert_eq!(DEFAULT_SAMPLES, 50000);
    assert!(c.seed.is_none());
    assert_eq!(ComboConfig { samples: 0, seed: Some(7) }.effective_samples(), 1);
    assert_eq!(ComboConfig { samples: 1000, seed: None }.effective_samples(), 1000);
}

#[test]
fn target_health_model() {
    let mut h = HostilepileConfig::new(0, 0, 0, 0, 0);
    assert_eq!(hp_preset(&h), None);
    h.target_hp = 2000;
    assert_eq!(hp_preset(&h), Some((2000, 2000)));
    h.max_hp = 5000;
    assert_eq!(hp_preset(&h), Some((5000, 5000)));
    h.current_hp = 1200;
    assert_eq!(hp_preset(&h), Some((1200, 5000)));
    h.current_hp = 6000;
    assert_eq!(hp_preset(&h), Some((5000, 5000)));
}

#[test]
fn kill_counts_accumulate() {
    let r = cumulative_kills(&vec![0, 3, 0, 5, 2], 10);
    assert_eq!(r, vec![0, 3, 3, 8, 10]);
    assert!(r.windows(2).all(|w| w[0] <= w[1]));
    assert!(cumulative_kills(&vec![], 5).is_empty());
}

#[test]
fn abi_version_ok() {
    assert_eq!(jpcg_combo_abi_version(), 1);
}

#[test]
fn ffi_abi_version_ok() {
    assert_eq!(jpcg_abi_version(), 1);
    assert_eq!(jpcg_update_abi_version(), 1);
    assert_eq!(jpcg_const_abi_version(), 1);
}

#[test]
fn unknown_method_sets_error() {
    let err = core_method("no_such_method").expect_err("应返回错误");
    assert!(err.contains("未知方法"), "错误信息: {}", err);
    assert_eq!(err, "未知方法: no_such_method");
}

#[test]
fn unknown_method_reports_error() {
    let err = combo_method("nope").unwrap_err();
    assert!(err.contains("未知方法"));
}

#[test]
fn method_routing() {
    assert_eq!(core_method("calculate"), Ok(CoreMethod::Calculate));
    assert_eq!(core_method("list_professions"), Ok(CoreMethod::ListProfessions));
    assert_eq!(core_method("update_modules"), Ok(CoreMethod::UpdateModules));
    assert_eq!(combo_method("calculate_combo"), Ok(ComboMethod::CalculateCombo));
    assert_eq!(combo_method("import_config"), Ok(ComboMethod::ImportConfig));
    assert!(combo_method("calculate").is_err());
    let h = JpcgHandle::new("{}".to_string());
    assert_eq!(h.session_config(), "{}");
    let c = ComboHandle::new(String::new());
    assert_eq!(c.session_config(), "");
}
