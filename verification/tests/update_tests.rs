use jpcg::update::digest::{
    hash_matches, sha256_hex, verify_app_binary, verify_data_file, verify_module_file, verify_package,
    verify_update_file,
};
use jpcg::update::download::{
    app_file_url, app_update_needed, assemble_check_result, channel_name, check_binary_update_needed,
    check_data_updates, choose_target_version, data_check_needed, data_file_url, data_manifest_url,
    default_local_version_info, determine_final_binary_name, determine_other_updates_by_hash, file_base_url,
    find_latest_version_in_major, select_target_binary, update_base_url, update_info_url,
    update_local_channel_only, use_beta_channel, version_manifest_url, BinaryEntry, CompressedPackageEntry,
    DataFileEntry, DataManifest, FileEntry, LocalVersionInfo, Manifest, UpdateTomlInfo, VersionDirectory,
};
use jpcg::update::install::{InstallAction, InstallEvent, InstallOrder, InstallRun};
use jpcg::update::listing::{
    is_version_dir, sort_version_directories, version_dir_candidates, version_dir_names, version_of,
};
use jpcg::update::modules::{
    empty_snapshot, local_snapshot_path, matches_local_platform, merge_installed, module_file_url,
    modules_manifest_url, select_modules_updates, ModulesFileEntry, ModulesManifest,
};
use jpcg::update::plan::{
    collect_updates, install_target_name, installed_version_record, package_for_unsupported_platform,
};

const ABC_SHA256: &str = "ba7816bf8f01cfea414140de5dae2223b00361a396177a9cb410ff61f20015ad";
const EMPTY_SHA256: &str = "e3b0c44298fc1c149afbf4c8996fb92427ae41e4649b934ca495991b7852b855";

fn manifest(major: Option<u32>, version: &str) -> Manifest {
    Manifest {
        version: Some(version.to_string()),
        major_version: major,
        binaries: vec![],
        files: None,
        compressed_package: None,
    }
}

fn dir(name: &str, major: Option<u32>, version: &str) -> VersionDirectory {
    VersionDirectory { dir_name: name.to_string(), manifest: manifest(major, version) }
}

fn binary(path: &str, os: &str, arch: &str, hash: &str) -> BinaryEntry {
    BinaryEntry {
        path: path.to_string(),
        os: os.to_string(),
        arch: arch.to_string(),
        hash: hash.to_string(),
        hash_type: "sha256".to_string(),
    }
}

fn module(name: &str, version: &str, hash: &str) -> ModulesFileEntry {
    ModulesFileEntry {
        name: name.to_string(),
        version: version.to_string(),
        hash: hash.to_string(),
        hash_type: "sha256".to_string(),
        size: 1,
    }
}

fn pair(a: &str, b: &str) -> (String, String) {
    (a.to_string(), b.to_string())
}

#[test]
fn it_works() {
    let result = 2 + 2;
    assert_eq!(result, 4);
}

#[test]
fn version_dir_names_keep_version_links_in_order() {
    let links = vec![
        Some("v1.2.3".to_string()),
        Some("data".to_string()),
        None,
        Some("v1.2".to_string()),
        Some("v10.0.1".to_string()),
        Some("vx.1.2".to_string()),
        Some("1.2.3".to_string()),
    ];
    assert_eq!(version_dir_names(&links), vec!["v1.2.3".to_string(), "v10.0.1".to_string()]);
    assert!(is_version_dir("v0.0.0"));
    assert!(!is_version_dir("v1.2.3-beta"));
    assert!(!is_version_dir(""));
}

#[test]
fn version_dir_candidates_read_listing_links() {
    let body = "<html><a href=\"v1.0.1/\">v1.0.1/</a> <A HREF='v2.0.0/'>x</A> <a href=\"update.toml\">u</a> \
                <a class=\"d\" href=\"v3.1.4/\">v3</a></html>";
    let names = version_dir_candidates(body).expect("pattern compiles");
    assert_eq!(names, vec!["v1.0.1".to_string(), "v2.0.0".to_string(), "v3.1.4".to_string()]);
    assert_eq!(version_dir_candidates("no links here").unwrap(), Vec::<String>::new());
}

#[test]
fn sort_version_directories_newest_first_and_stable() {
    let dirs = vec![
        dir("v1.0.9", Some(1), "a"),
        dir("v2.0.0", Some(2), "first"),
        dir("v1.1.0", Some(1), "b"),
        dir("v1.0.10", Some(1), "c"),
        dir("v2.0.0", Some(2), "second"),
        dir("latest", None, "none"),
        dir("v1.9.0", Some(1), "d"),
        dir("v1.10.0", Some(1), "e"),
    ];
    let sorted = sort_version_directories(dirs);
    let names: Vec<&str> = sorted.iter().map(|d| d.dir_name.as_str()).collect();
    assert_eq!(names, vec!["v2.0.0", "v2.0.0", "v1.10.0", "v1.9.0", "v1.1.0", "v1.0.10", "v1.0.9", "latest"]);
    assert_eq!(sorted[0].manifest.version.as_deref(), Some("first"));
    assert_eq!(sorted[1].manifest.version.as_deref(), Some("second"));
}

#[test]
fn version_numbers_of_names() {
    assert_eq!(version_of("v1.10.0"), Some((1, 10, 0)));
    assert_eq!(version_of("v007.0.12"), Some((7, 0, 12)));
    assert_eq!(version_of("v1.2"), None);
    assert_eq!(version_of("v1.2.3.4"), None);
    assert_eq!(version_of("1.2.3"), None);
    assert_eq!(version_of("v1..3"), None);
    assert_eq!(version_of("v1.2.x"), None);
    assert_eq!(version_of("v18446744073709551615.0.0"), Some((u64::MAX, 0, 0)));
    assert_eq!(version_of("v18446744073709551616.0.0"), None);
}

#[test]
fn latest_version_of_a_major() {
    let dirs = vec![dir("v3.0.0", Some(3), "x"), dir("v2.1.0", Some(2), "y"), dir("v2.0.0", Some(2), "z")];
    let found = find_latest_version_in_major(&dirs, 2).unwrap().unwrap();
    assert_eq!(found.dir_name, "v2.1.0");
    assert!(find_latest_version_in_major(&dirs, 9).unwrap().is_none());
    assert_eq!(choose_target_version(&dirs, Some(3)).unwrap().dir_name, "v3.0.0");
    assert_eq!(choose_target_version(&dirs, None).unwrap().dir_name, "v3.0.0");
    assert!(choose_target_version(&[], None).is_none());
}

#[test]
fn target_binary_selection() {
    let bins = vec![binary("JPCG.exe", "windows", "x86_64", "h1"), binary("JPCG", "linux", "x86_64", "h2")];
    assert_eq!(select_target_binary(&bins, "linux", "x86_64").unwrap().hash, "h2");
    let err = select_target_binary(&bins, "linux", "arm").unwrap_err();
    assert_eq!(err, "未找到适用于 linux arm 的二进制文件。");
}

#[test]
fn final_binary_names() {
    assert_eq!(determine_final_binary_name("JPCG.exe", "linux").unwrap(), "JPCG");
    assert_eq!(determine_final_binary_name("JPCG", "windows").unwrap(), "JPCG.exe");
    assert_eq!(determine_final_binary_name("JPCG.exe", "windows").unwrap(), "JPCG.exe");
    assert_eq!(determine_final_binary_name("JPCG", "macos").unwrap(), "JPCG");
}

#[test]
fn channel_urls() {
    assert!(use_beta_channel(false, "beta"));
    assert!(use_beta_channel(true, "stable"));
    assert!(!use_beta_channel(false, "stable"));
    assert_eq!(update_base_url(true), "https://nefinita-ai.com/updates/JPCG_beta/");
    assert_eq!(file_base_url(false), "https://nefinita-ai.com/files/JPCG/");
    assert_eq!(channel_name(true), "beta");
    assert_eq!(update_info_url("https://h/updates/JPCG//"), "https://h/updates/JPCG/update.toml");
    assert_eq!(version_manifest_url("https://h/u/", "v1.2.3"), "https://h/u/v1.2.3/manifest.toml");
    assert_eq!(data_manifest_url("https://h/f/", "7", "beta"), "https://h/f/data/data_manifest.toml");
    assert_eq!(data_manifest_url("https://h/f/", "7", "stable"), "https://h/f/7/data/data_manifest.toml");
    assert_eq!(data_file_url("https://h/f", "7", "stable", "shuxing/a.toml"), "https://h/f/7/data/shuxing/a.toml");
    assert_eq!(modules_manifest_url("https://h/f/", "2.1.0", "stable"), "https://h/f/2.1.0/modules/modules_manifest.toml");
    assert_eq!(module_file_url("https://h/f/", "2.1.0", "beta", "core.dll"), "https://h/f/modules/core.dll");
}

#[test]
fn app_file_urls() {
    assert_eq!(app_file_url("https://h/f/", "https://h/u/v1.2.3/", "v9.9.9", "stable", "JPCG"), "https://h/f/v1.2.3/JPCG");
    assert_eq!(app_file_url("https://h/f/", "no-slash", "v9.9.9", "stable", "JPCG"), "https://h/f/v9.9.9/JPCG");
    assert_eq!(app_file_url("https://h/f/", "https://h/u/v1.2.3/", "v9.9.9", "beta", "JPCG"), "https://h/f/JPCG");
}

#[test]
fn version_decisions() {
    assert!(app_update_needed(false, &None, "1.0"));
    assert!(!app_update_needed(false, &Some("1.0".to_string()), "1.0"));
    assert!(app_update_needed(true, &Some("1.0".to_string()), "1.0"));
    assert!(app_update_needed(false, &Some("0.9".to_string()), "1.0"));
    assert!(data_check_needed(false, &None, "3"));
    assert!(!data_check_needed(false, &None, ""));
    assert!(!data_check_needed(false, &Some("3".to_string()), "3"));
    assert!(data_check_needed(true, &Some("3".to_string()), "3"));
}

#[test]
fn local_version_record() {
    let mut info = default_local_version_info();
    assert_eq!(info.channel, "stable");
    assert!(info.version.is_none() && info.data_version.is_none());
    info.version = Some("v1".to_string());
    update_local_channel_only(&mut info, "beta");
    assert_eq!(info.channel, "beta");
    assert_eq!(info.version.as_deref(), Some("v1"));
    let rec = installed_version_record("v2.0.0", "stable", Some(2));
    assert_eq!(rec.version.as_deref(), Some("v2.0.0"));
    assert_eq!(rec.last_checked_version.as_deref(), Some("v2.0.0"));
    assert_eq!(rec.last_checked_major, Some(2));
    assert!(rec.major_version.is_none() && rec.data_version.is_none());
    assert_eq!(rec.channel, "stable");
}

#[test]
fn sha256_fingerprints() {
    assert_eq!(sha256_hex(b"abc"), ABC_SHA256);
    assert_eq!(sha256_hex(b""), EMPTY_SHA256);
    assert!(hash_matches(b"abc", ABC_SHA256));
    assert!(!hash_matches(b"abd", ABC_SHA256));
}

#[test]
fn downloaded_file_checks() {
    let data_entry = DataFileEntry { path: "shuxing/a.toml".to_string(), hash: ABC_SHA256.to_string(), hash_type: "sha256".to_string() };
    assert!(verify_data_file(b"abc", &data_entry).is_ok());
    assert_eq!(verify_data_file(b"xyz", &data_entry).unwrap_err(), "数据文件 shuxing/a.toml 哈希验证失败。");
    let m = module("core.dll", "2.1.0", ABC_SHA256);
    assert!(verify_module_file(b"abc", &m).is_ok());
    assert_eq!(verify_module_file(b"", &m).unwrap_err(), "模块 core.dll 哈希校验失败，更新已取消。");
    assert!(verify_app_binary(b"abc", ABC_SHA256).is_ok());
    assert_eq!(verify_app_binary(b"abcd", ABC_SHA256).unwrap_err(), "下载文件哈希验证失败，更新已取消。");
    assert!(verify_update_file(b"abc", "JPCG", ABC_SHA256).is_ok());
    assert_eq!(
        verify_update_file(b"", "JPCG", ABC_SHA256).unwrap_err(),
        format!("下载的文件 JPCG 哈希值验证失败。本地: {}, 清单: {}", EMPTY_SHA256, ABC_SHA256)
    );
    let pkg = CompressedPackageEntry { path: "pkg.7z".to_string(), hash: "00".to_string(), hash_type: "sha256".to_string() };
    assert_eq!(
        verify_package(b"abc", &pkg).unwrap_err(),
        format!("下载的压缩包 pkg.7z 哈希值验证失败。本地: {}, 清单: 00", ABC_SHA256)
    );
}

#[test]
fn outdated_files() {
    let bin = binary("JPCG", "linux", "x86_64", "h");
    assert!(check_binary_update_needed(&None, &bin));
    assert!(!check_binary_update_needed(&Some("h".to_string()), &bin));
    assert!(check_binary_update_needed(&Some("g".to_string()), &bin));

    let dm = DataManifest {
        data_version: "3".to_string(),
        files: vec![
            DataFileEntry { path: "a".to_string(), hash: "1".to_string(), hash_type: "sha256".to_string() },
            DataFileEntry { path: "b".to_string(), hash: "2".to_string(), hash_type: "sha256".to_string() },
            DataFileEntry { path: "c".to_string(), hash: "3".to_string(), hash_type: "sha256".to_string() },
        ],
    };
    let needed = check_data_updates(&dm, &vec![Some("1".to_string()), None, Some("x".to_string())]);
    let paths: Vec<&str> = needed.iter().map(|f| f.path.as_str()).collect();
    assert_eq!(paths, vec!["b", "c"]);

    let mut m = manifest(Some(1), "v1");
    assert!(determine_other_updates_by_hash(&m, &vec![]).is_empty());
    m.files = Some(vec![
        FileEntry { path: "x".to_string(), hash: "1".to_string(), hash_type: "sha256".to_string() },
        FileEntry { path: "y".to_string(), hash: "2".to_string(), hash_type: "sha256".to_string() },
    ]);
    let other = determine_other_updates_by_hash(&m, &vec![None, Some("2".to_string())]);
    assert_eq!(other, vec![pair("x", "1")]);
}

#[test]
fn update_list_has_each_path_once() {
    let others = vec![pair("a", "1"), pair("JPCG", "other"), pair("b", "2"), pair("a", "3")];
    let r = collect_updates(&Some(pair("JPCG", "bin")), &others);
    let mut got = r.clone();
    got.sort();
    assert_eq!(got, vec![pair("JPCG", "bin"), pair("a", "3"), pair("b", "2")]);
    let r2 = collect_updates(&None, &others);
    let mut got2 = r2.clone();
    got2.sort();
    assert_eq!(got2, vec![pair("JPCG", "other"), pair("a", "3"), pair("b", "2")]);
}

#[test]
fn install_targets_and_package_fallback() {
    let bin = binary("JPCG.exe", "windows", "x86_64", "h");
    assert_eq!(install_target_name("JPCG.exe", Some(&bin), "linux").unwrap(), "JPCG");
    assert_eq!(install_target_name("data/a.toml", Some(&bin), "linux").unwrap(), "data/a.toml");
    assert_eq!(install_target_name("JPCG.exe", None, "linux").unwrap(), "JPCG.exe");
    let mut m = manifest(None, "v1");
    assert_eq!(package_for_unsupported_platform(&m).unwrap_err(), "当前系统不受支持，且服务器上未找到可用的压缩包。");
    m.compressed_package = Some(CompressedPackageEntry { path: "p.7z".to_string(), hash: "h".to_string(), hash_type: "sha256".to_string() });
    assert_eq!(package_for_unsupported_platform(&m).unwrap().path, "p.7z");
}

#[test]
fn module_platform_and_paths() {
    assert!(matches_local_platform("libjpcg_core.so", "linux"));
    assert!(matches_local_platform("lib/libjpcg_core.so", "linux"));
    assert!(!matches_local_platform("jpcg_core.dll", "linux"));
    assert!(matches_local_platform("jpcg_core.dll", "windows"));
    assert!(matches_local_platform("libjpcg_core.dylib", "macos"));
    assert!(!matches_local_platform(".so", "linux"));
    assert!(matches_local_platform("lib.so/", "linux"));
    assert!(matches_local_platform("lib.so/.", "linux"));
    assert!(!matches_local_platform("lib.so/..", "linux"));
    assert!(!matches_local_platform("lib.so\\", "linux"));
    assert!(matches_local_platform("dir\\jpcg_core.dll", "windows"));
    assert!(matches_local_platform("jpcg_core.dll\\", "windows"));
    assert!(matches_local_platform("jpcg_core.dll", "freebsd"));
    assert!(!matches_local_platform("noext", "linux"));
    assert!(matches_local_platform("anything", "freebsd"));
    assert_eq!(local_snapshot_path("modules"), "modules/modules_manifest.toml");
    assert_eq!(local_snapshot_path("modules/"), "modules/modules_manifest.toml");
    assert_eq!(local_snapshot_path(""), "modules_manifest.toml");
}

#[test]
fn module_update_selection() {
    let server = ModulesManifest {
        modules_version: "2.1.0".to_string(),
        platform: "multi".to_string(),
        files: vec![
            module("libcore.so", "2.1.0", "h1"),
            module("core.dll", "2.1.0", "h1"),
            module("libcombo.so", "2.1.0", "h2"),
            module("libconst.so", "130.3", "h3"),
            module("libnew.so", "1.0.0", "h4"),
        ],
    };
    let local = ModulesManifest {
        modules_version: "2.0.0".to_string(),
        platform: "multi".to_string(),
        files: vec![module("libcore.so", "2.1.0", "h1"), module("libcombo.so", "2.0.0", "h2"), module("libconst.so", "", "old")],
    };
    let present = vec![true, true, true, true, true];
    let r = select_modules_updates(&server, &local, &present, "linux", false);
    let names: Vec<&str> = r.modules_files_to_update.iter().map(|f| f.name.as_str()).collect();
    assert_eq!(names, vec!["libcombo.so", "libconst.so", "libnew.so"]);
    assert!(r.has_modules_update);
    assert_eq!(r.modules_version.as_deref(), Some("2.1.0"));

    let missing = vec![false, true, true, true, true];
    let r2 = select_modules_updates(&server, &local, &missing, "linux", false);
    assert_eq!(r2.modules_files_to_update[0].name, "libcore.so");

    let forced = select_modules_updates(&server, &local, &present, "linux", true);
    assert_eq!(forced.modules_files_to_update.len(), 4);

    let up_to_date = ModulesManifest {
        modules_version: "2.1.0".to_string(),
        platform: "multi".to_string(),
        files: vec![module("libcore.so", "2.1.0", "h1")],
    };
    let none = select_modules_updates(&up_to_date, &local, &vec![true], "linux", false);
    assert!(!none.has_modules_update);
    assert!(none.modules_version.is_none());
    assert!(none.modules_files_to_update.is_empty());
}

#[test]
fn module_snapshot_merge() {
    let mut snap = empty_snapshot();
    assert!(snap.files.is_empty());
    snap.files.push(module("a.so", "1", "h1"));
    snap.files.push(module("b.so", "1", "h2"));
    merge_installed(&mut snap, "2.0.0", &vec![module("b.so", "2", "n2"), module("c.so", "2", "n3"), module("b.so", "3", "n4")]);
    assert_eq!(snap.modules_version, "2.0.0");
    let names: Vec<(&str, &str)> = snap.files.iter().map(|f| (f.name.as_str(), f.hash.as_str())).collect();
    assert_eq!(names, vec![("a.so", "h1"), ("b.so", "n4"), ("c.so", "n3")]);
}

#[test]
fn check_result_assembly() {
    let local = LocalVersionInfo {
        version: Some("v1.0.0".to_string()),
        major_version: Some(1),
        channel: "stable".to_string(),
        last_checked_version: None,
        last_checked_major: None,
        data_version: Some("3".to_string()),
    };
    let none = assemble_check_result(&local, &None, false, &vec![]);
    assert_eq!(none.current_app_version.as_deref(), Some("v1.0.0"));
    assert!(none.latest_app_version.is_none() && !none.has_app_update && !none.has_data_update);
    let latest = UpdateTomlInfo { version: "v1.1.0".to_string(), major_version: Some(1), data_version: Some("4".to_string()) };
    let outdated = vec![DataFileEntry { path: "a.toml".to_string(), hash: "1".to_string(), hash_type: "sha256".to_string() }];
    let r = assemble_check_result(&local, &Some(latest), false, &outdated);
    assert!(r.has_app_update);
    assert!(r.has_data_update);
    assert_eq!(r.latest_data_version.as_deref(), Some("4"));
    assert_eq!(r.data_files_to_update, vec!["a.toml".to_string()]);
    assert!(!r.has_modules_update && r.modules_files_to_update.is_empty());
}

fn drive(order: InstallOrder, total: usize, fail_at: Option<usize>) -> Vec<InstallAction> {
    let mut run = InstallRun::start(order, total);
    let mut trace = Vec::new();
    let mut steps = 0;
    loop {
        let a = run.action();
        trace.push(a);
        steps += 1;
        if steps > 100 {
            break;
        }
        let e = match a {
            InstallAction::Download(i) => InstallEvent::Downloaded(fail_at != Some(i)),
            InstallAction::Install(_) => InstallEvent::Installed(true),
            InstallAction::WriteRecord => InstallEvent::RecordWritten,
            InstallAction::Finish | InstallAction::Abort => break,
        };
        run = run.on_event(e);
    }
    trace
}

#[test]
fn install_run_orders() {
    assert_eq!(
        drive(InstallOrder::VerifyAllFirst, 2, None),
        vec![InstallAction::Download(0), InstallAction::Download(1), InstallAction::Install(0), InstallAction::Install(1), InstallAction::WriteRecord, InstallAction::Finish]
    );
    assert_eq!(
        drive(InstallOrder::OneByOne, 2, None),
        vec![InstallAction::Download(0), InstallAction::Install(0), InstallAction::Download(1), InstallAction::Install(1), InstallAction::WriteRecord, InstallAction::Finish]
    );
    assert_eq!(drive(InstallOrder::OneByOne, 0, None), vec![InstallAction::WriteRecord, InstallAction::Finish]);
}

#[test]
fn install_run_stops_on_failed_check() {
    assert_eq!(drive(InstallOrder::VerifyAllFirst, 3, Some(1)), vec![InstallAction::Download(0), InstallAction::Download(1), InstallAction::Abort]);
    assert_eq!(drive(InstallOrder::OneByOne, 3, Some(1)), vec![InstallAction::Download(0), InstallAction::Install(0), InstallAction::Download(1), InstallAction::Abort]);
    let run = InstallRun::start(InstallOrder::OneByOne, 1);
    let run = run.on_event(InstallEvent::Downloaded(true));
    assert_eq!(run.action(), InstallAction::Install(0));
    let failed = run.on_event(InstallEvent::Installed(false));
    assert_eq!(failed.action(), InstallAction::Abort);
    assert_eq!(failed.on_event(InstallEvent::RecordWritten).action(), InstallAction::Abort);
}
