//! Version manifests, local version records, and the decisions of an update
//! check.

use vstd::prelude::*;
use crate::text::{chars_equal, chars_to_string, ends_with_chars, has_suffix, push_all, str_chars, take_chars};
use crate::update::modules::ModulesFileEntry;

verus! {

/// Application version manifest (`manifest.toml` of a version directory).
#[derive(Debug)]
pub struct Manifest {
    pub version: Option<String>,
    pub major_version: Option<u32>,
    pub binaries: Vec<BinaryEntry>,
    pub files: Option<Vec<FileEntry>>,
    pub compressed_package: Option<CompressedPackageEntry>,
}

/// A platform binary of a manifest.
#[derive(Debug)]
pub struct BinaryEntry {
    pub path: String,
    pub os: String,
    pub arch: String,
    pub hash: String,
    pub hash_type: String,
}

/// An accompanying file of a manifest.
#[derive(Debug)]
pub struct FileEntry {
    pub path: String,
    pub hash: String,
    pub hash_type: String,
}

/// The compressed package of a manifest.
#[derive(Debug)]
pub struct CompressedPackageEntry {
    pub path: String,
    pub hash: String,
    pub hash_type: String,
}

/// The server's `update.toml`: latest versions.
#[derive(Debug)]
pub struct UpdateTomlInfo {
    pub version: String,
    pub major_version: Option<u32>,
    pub data_version: Option<String>,
}

/// The local record of installed versions and the update channel.
#[derive(Debug)]
pub struct LocalVersionInfo {
    pub version: Option<String>,
    pub major_version: Option<u32>,
    pub channel: String,
    pub last_checked_version: Option<String>,
    pub last_checked_major: Option<u32>,
    pub data_version: Option<String>,
}

/// A data file of the data manifest.
#[derive(Debug)]
pub struct DataFileEntry {
    pub path: String,
    pub hash: String,
    pub hash_type: String,
}

impl Clone for DataFileEntry {
    fn clone(&self) -> (r: Self)
        ensures
            r == *self,
    {
        DataFileEntry { path: self.path.clone(), hash: self.hash.clone(), hash_type: self.hash_type.clone() }
    }
}

/// The data manifest (`data_manifest.toml`).
#[derive(Debug)]
pub struct DataManifest {
    pub data_version: String,
    pub files: Vec<DataFileEntry>,
}

/// Result of an update check.
#[derive(Debug)]
pub struct UpdateCheckResult {
    pub current_app_version: Option<String>,
    pub latest_app_version: Option<String>,
    pub has_app_update: bool,
    pub current_data_version: Option<String>,
    pub latest_data_version: Option<String>,
    pub has_data_update: bool,
    pub data_files_to_update: Vec<String>,
    pub has_modules_update: bool,
    pub modules_version: Option<String>,
    pub modules_files_to_update: Vec<ModulesFileEntry>,
}

/// Where and what to download for an application update.
#[derive(Debug)]
pub struct AppUpdateInfo {
    pub download_url: String,
    pub expected_hash: String,
    pub binary_path: String,
    pub version: String,
}

/// A version directory of the update server and its manifest.
#[derive(Debug)]
pub struct VersionDirectory {
    pub dir_name: String,
    pub manifest: Manifest,
}

/// Index of the first version directory of major version `major`, or the
/// length if there is none.
pub open spec fn first_with_major(v: Seq<VersionDirectory>, major: u32) -> int
    decreases v.len(),
{
    if v.len() == 0 {
        0
    } else if v[0].manifest.major_version == Some(major) {
        0
    } else {
        1 + first_with_major(v.drop_first(), major)
    }
}

/// The newest version directory of a major version: the first one of that
/// major version in `versions` (which is sorted newest first).
pub fn find_latest_version_in_major(versions: &[VersionDirectory], target_major: u32) -> (r: Result<
    Option<&VersionDirectory>,
    String,
>)
    ensures
        first_with_major(versions@, target_major) < versions@.len() ==> r == Ok::<Option<&VersionDirectory>, String>(
            Some(&versions@[first_with_major(versions@, target_major)]),
        ),
        first_with_major(versions@, target_major) >= versions@.len() ==> r == Ok::<Option<&VersionDirectory>, String>(None),
{
    let mut i: usize = 0;
    assert(versions@.skip(0) =~= versions@);
    while i < versions.len()
        invariant
            i <= versions@.len(),
            first_with_major(versions@, target_major) == i + first_with_major(versions@.skip(i as int), target_major),
        decreases versions.len() - i,
    {
        if versions[i].manifest.major_version == Some(target_major) {
            return Ok(Some(&versions[i]));
        }
        assert(versions@.skip(i as int).drop_first() =~= versions@.skip(i + 1));
        i += 1;
    }
    assert(versions@.skip(i as int).len() == 0);
    Ok(None)
}

/// Index of the first binary built for `os` and `arch`, or the length.
pub open spec fn first_binary_for(b: Seq<BinaryEntry>, os: Seq<char>, arch: Seq<char>) -> int
    decreases b.len(),
{
    if b.len() == 0 {
        0
    } else if b[0].os@ == os && b[0].arch@ == arch {
        0
    } else {
        1 + first_binary_for(b.drop_first(), os, arch)
    }
}

/// `未找到适用于 <os> <arch> 的二进制文件。`
pub open spec fn no_binary_message(os: Seq<char>, arch: Seq<char>) -> Seq<char> {
    seq!['未', '找', '到', '适', '用', '于', ' '] + os + seq![' '] + arch + seq![
        ' ',
        '的',
        '二',
        '进',
        '制',
        '文',
        '件',
        '。',
    ]
}

/// The first binary of the list built for the given platform; an error
/// naming the platform if there is none.
pub fn select_target_binary<'a>(binaries: &'a [BinaryEntry], target_os: &str, target_arch: &str) -> (r:
    Result<&'a BinaryEntry, String>)
    ensures
        first_binary_for(binaries@, target_os@, target_arch@) < binaries@.len() ==> (r matches Ok(e) && e
            == binaries@[first_binary_for(binaries@, target_os@, target_arch@)]),
        first_binary_for(binaries@, target_os@, target_arch@) >= binaries@.len() ==> (r matches Err(m) && m@
            == no_binary_message(target_os@, target_arch@)),
{
    let os = target_os.to_owned();
    let arch = target_arch.to_owned();
    let mut i: usize = 0;
    assert(binaries@.skip(0) =~= binaries@);
    while i < binaries.len()
        invariant
            i <= binaries@.len(),
            os@ == target_os@,
            arch@ == target_arch@,
            first_binary_for(binaries@, target_os@, target_arch@) == i + first_binary_for(
                binaries@.skip(i as int),
                target_os@,
                target_arch@,
            ),
        decreases binaries.len() - i,
    {
        if binaries[i].os == os && binaries[i].arch == arch {
            return Ok(&binaries[i]);
        }
        assert(binaries@.skip(i as int).drop_first() =~= binaries@.skip(i + 1));
        i += 1;
    }
    assert(binaries@.skip(i as int).len() == 0);
    let mut m: Vec<char> = Vec::new();
    m.push('未');
    m.push('找');
    m.push('到');
    m.push('适');
    m.push('用');
    m.push('于');
    m.push(' ');
    let oc = str_chars(target_os);
    push_all(&mut m, &oc);
    m.push(' ');
    let ac = str_chars(target_arch);
    push_all(&mut m, &ac);
    m.push(' ');
    m.push('的');
    m.push('二');
    m.push('进');
    m.push('制');
    m.push('文');
    m.push('件');
    m.push('。');
    assert(m@ =~= no_binary_message(target_os@, target_arch@));
    Err(chars_to_string(&m))
}

pub open spec fn exe_suffix() -> Seq<char> {
    seq!['.', 'e', 'x', 'e']
}

pub open spec fn windows_os() -> Seq<char> {
    seq!['w', 'i', 'n', 'd', 'o', 'w', 's']
}

/// The local file name of a server binary on `os`: on Windows it ends with
/// `.exe`; elsewhere one trailing `.exe` is removed.
pub open spec fn final_binary_name(server_path: Seq<char>, os: Seq<char>) -> Seq<char> {
    if os == windows_os() {
        if has_suffix(server_path, exe_suffix()) {
            server_path
        } else {
            server_path + exe_suffix()
        }
    } else if has_suffix(server_path, exe_suffix()) {
        server_path.take(server_path.len() - 4)
    } else {
        server_path
    }
}

fn exe_suffix_chars() -> (r: Vec<char>)
    ensures
        r@ == exe_suffix(),
{
    let mut r: Vec<char> = Vec::new();
    r.push('.');
    r.push('e');
    r.push('x');
    r.push('e');
    assert(r@ =~= exe_suffix());
    r
}

/// Whether `os` is `windows`.
fn is_windows(os: &str) -> (r: bool)
    ensures
        r == (os@ == windows_os()),
{
    let o = str_chars(os);
    if o.len() != 7 {
        return false;
    }
    let r = o[0] == 'w' && o[1] == 'i' && o[2] == 'n' && o[3] == 'd' && o[4] == 'o' && o[5] == 'w' && o[6] == 's';
    if r {
        assert(o@ =~= windows_os());
    } else {
        assert(o@ != windows_os()) by {
            if o@ == windows_os() {
                assert(o@[0] == 'w');
            }
        }
    }
    r
}

/// The local file name for the server binary `server_path` on `os`.
pub fn determine_final_binary_name(server_path: &str, os: &str) -> (r: Result<String, String>)
    ensures
        r matches Ok(n) && n@ == final_binary_name(server_path@, os@),
{
    let p = str_chars(server_path);
    let suffix = exe_suffix_chars();
    let has_exe = ends_with_chars(&p, &suffix);
    let name = if is_windows(os) {
        if has_exe {
            p
        } else {
            let mut q = p;
            push_all(&mut q, &suffix);
            q
        }
    } else if has_exe {
        take_chars(&p, p.len() - 4)
    } else {
        p
    };
    Ok(chars_to_string(&name))
}

/// On Windows the local binary name always ends with `.exe`, and naming is
/// idempotent; elsewhere it never gains a `.exe`.
pub proof fn lemma_final_binary_name(server_path: Seq<char>, os: Seq<char>)
    ensures
        os == windows_os() ==> has_suffix(final_binary_name(server_path, os), exe_suffix()),
        os == windows_os() ==> final_binary_name(final_binary_name(server_path, os), os) == final_binary_name(
            server_path,
            os,
        ),
        os != windows_os() ==> final_binary_name(server_path, os).len() <= server_path.len(),
        os != windows_os() && has_suffix(server_path, exe_suffix()) ==> final_binary_name(server_path, os)
            + exe_suffix() == server_path,
{
    if os == windows_os() && !has_suffix(server_path, exe_suffix()) {
        let n = server_path + exe_suffix();
        assert(n.subrange(n.len() - 4, n.len() as int) =~= exe_suffix());
    }
    if os != windows_os() && has_suffix(server_path, exe_suffix()) {
        assert(server_path.take(server_path.len() - 4) + exe_suffix() =~= server_path);
    }
}

/// Version manifest file name in each version directory.
pub const MANIFEST_FILENAME: &'static str = "manifest.toml";
/// Default application binary name.
pub const DEFAULT_BINARY_NAME: &'static str = "JPCG";
/// Data manifest file name.
pub const DATA_MANIFEST_FILENAME: &'static str = "data_manifest.toml";
/// Update check server (stable channel).
pub const UPDATE_BASE_URL: &'static str = "https://nefinita-ai.com/updates/JPCG/";
/// Update check server (beta channel).
pub const BETA_BASE_URL: &'static str = "https://nefinita-ai.com/updates/JPCG_beta/";
/// File server (stable channel).
pub const FILE_BASE_URL: &'static str = "https://nefinita-ai.com/files/JPCG/";
/// File server (beta channel).
pub const BETA_FILE_BASE_URL: &'static str = "https://nefinita-ai.com/files/JPCG_beta/";

/// `s` without its trailing `/` characters.
pub open spec fn trim_trailing_slashes(s: Seq<char>) -> Seq<char>
    decreases s.len(),
{
    if s.len() > 0 && s.last() == '/' {
        trim_trailing_slashes(s.drop_last())
    } else {
        s
    }
}

/// The characters of `s` without trailing `/`.
pub fn trim_end_slashes(s: &str) -> (r: Vec<char>)
    ensures
        r@ == trim_trailing_slashes(s@),
{
    let mut v = str_chars(s);
    while v.len() > 0 && v[v.len() - 1] == '/'
        invariant
            trim_trailing_slashes(s@) == trim_trailing_slashes(v@),
        decreases v.len(),
    {
        let ghost before = v@;
        v.pop();
        assert(v@ =~= before.drop_last());
    }
    v
}

/// Whether `channel` is the beta channel.
pub fn is_beta_channel(channel: &str) -> (r: bool)
    ensures
        r == (channel@ == "beta"@),
{
    chars_equal(&str_chars(channel), &str_chars("beta"))
}

/// Whether the beta channel is used: asked for, or recorded locally.
pub fn use_beta_channel(beta: bool, local_channel: &str) -> (r: bool)
    ensures
        r == (beta || local_channel@ == "beta"@),
{
    beta || is_beta_channel(local_channel)
}

/// The update check server of a channel.
pub fn update_base_url(use_beta: bool) -> (r: &'static str)
    ensures
        r@ == (if use_beta { BETA_BASE_URL@ } else { UPDATE_BASE_URL@ }),
{
    if use_beta { BETA_BASE_URL } else { UPDATE_BASE_URL }
}

/// The file server of a channel.
pub fn file_base_url(use_beta: bool) -> (r: &'static str)
    ensures
        r@ == (if use_beta { BETA_FILE_BASE_URL@ } else { FILE_BASE_URL@ }),
{
    if use_beta { BETA_FILE_BASE_URL } else { FILE_BASE_URL }
}

/// The channel name: `beta` or `stable`.
pub fn channel_name(use_beta: bool) -> (r: &'static str)
    ensures
        r@ == (if use_beta { "beta"@ } else { "stable"@ }),
{
    if use_beta { "beta" } else { "stable" }
}

/// `<base>/update.toml`.
pub open spec fn update_info_url_text(base: Seq<char>) -> Seq<char> {
    trim_trailing_slashes(base) + seq!['/'] + "update.toml"@
}

/// URL of the server's `update.toml`.
pub fn update_info_url(base_url: &str) -> (r: String)
    ensures
        r@ == update_info_url_text(base_url@),
{
    let mut v = trim_end_slashes(base_url);
    v.push('/');
    push_all(&mut v, &str_chars("update.toml"));
    chars_to_string(&v)
}

/// `<base>/<dir>/manifest.toml`.
pub open spec fn version_manifest_url_text(base: Seq<char>, dir: Seq<char>) -> Seq<char> {
    trim_trailing_slashes(base) + seq!['/'] + dir + seq!['/'] + MANIFEST_FILENAME@
}

/// URL of the manifest of a version directory.
pub fn version_manifest_url(base_url: &str, dir_name: &str) -> (r: String)
    ensures
        r@ == version_manifest_url_text(base_url@, dir_name@),
{
    let mut v = trim_end_slashes(base_url);
    v.push('/');
    push_all(&mut v, &str_chars(dir_name));
    v.push('/');
    push_all(&mut v, &str_chars(MANIFEST_FILENAME));
    chars_to_string(&v)
}

/// The download prefix of a version directory: the server URL without its
/// trailing `/`, the directory name written directly after it, and a `/`.
pub open spec fn version_prefix_text(base: Seq<char>, dir: Seq<char>) -> Seq<char> {
    trim_trailing_slashes(base) + dir + seq!['/']
}

/// The download prefix of a version directory (see `version_prefix_text`).
pub fn version_download_prefix(base_url: &str, dir_name: &str) -> (r: String)
    ensures
        r@ == version_prefix_text(base_url@, dir_name@),
{
    let mut v = trim_end_slashes(base_url);
    push_all(&mut v, &str_chars(dir_name));
    v.push('/');
    chars_to_string(&v)
}

/// A file of a channel section: beta files live directly under
/// `<base>/<section>/`, stable files under `<base>/<version>/<section>/`.
pub open spec fn channel_file_url_text(
    base: Seq<char>,
    version: Seq<char>,
    channel: Seq<char>,
    section: Seq<char>,
    file: Seq<char>,
) -> Seq<char> {
    if channel == "beta"@ {
        trim_trailing_slashes(base) + seq!['/'] + section + seq!['/'] + file
    } else {
        trim_trailing_slashes(base) + seq!['/'] + version + seq!['/'] + section + seq!['/'] + file
    }
}

pub(crate) fn channel_file_url(base: &str, version: &str, channel: &str, section: &str, file: &str) -> (r: String)
    ensures
        r@ == channel_file_url_text(base@, version@, channel@, section@, file@),
{
    let mut v = trim_end_slashes(base);
    v.push('/');
    if !is_beta_channel(channel) {
        push_all(&mut v, &str_chars(version));
        v.push('/');
    }
    push_all(&mut v, &str_chars(section));
    v.push('/');
    push_all(&mut v, &str_chars(file));
    chars_to_string(&v)
}

/// URL of the data manifest of a data version on a channel.
pub fn data_manifest_url(file_base_url: &str, data_version: &str, channel: &str) -> (r: String)
    ensures
        r@ == channel_file_url_text(file_base_url@, data_version@, channel@, "data"@, DATA_MANIFEST_FILENAME@),
{
    channel_file_url(file_base_url, data_version, channel, "data", DATA_MANIFEST_FILENAME)
}

/// URL of a data file of a data version on a channel.
pub fn data_file_url(file_base_url: &str, data_version: &str, channel: &str, path: &str) -> (r: String)
    ensures
        r@ == channel_file_url_text(file_base_url@, data_version@, channel@, "data"@, path@),
{
    channel_file_url(file_base_url, data_version, channel, "data", path)
}

/// The version directory named at the end of a version URL prefix
/// `.../<version>/`: what follows the last `/` once the trailing `/` is
/// removed; none when the prefix does not end with `/` or has no other `/`.
pub open spec fn version_part(prefix: Seq<char>) -> Option<Seq<char>> {
    if prefix.len() > 0 && prefix.last() == '/' {
        let body = prefix.drop_last();
        let cut = last_slash(body);
        if cut >= 0 { Some(body.skip(cut + 1)) } else { None }
    } else {
        None
    }
}

/// Index of the last `/` of `s`, or -1.
pub open spec fn last_slash(s: Seq<char>) -> int
    decreases s.len(),
{
    if s.len() == 0 {
        -1
    } else if s.last() == '/' {
        s.len() - 1
    } else {
        last_slash(s.drop_last())
    }
}

/// URL of an application file to download: beta files directly under the
/// file server; stable ones under the version named by the version URL
/// prefix, or else under the target version.
pub open spec fn app_file_url_text(
    file_base: Seq<char>,
    version_prefix: Seq<char>,
    target_version: Seq<char>,
    channel: Seq<char>,
    rel_path: Seq<char>,
) -> Seq<char> {
    if channel == "beta"@ {
        trim_trailing_slashes(file_base) + seq!['/'] + rel_path
    } else {
        match version_part(version_prefix) {
            Some(ver) => trim_trailing_slashes(file_base) + seq!['/'] + ver + seq!['/'] + rel_path,
            None => trim_trailing_slashes(file_base) + seq!['/'] + target_version + seq!['/'] + rel_path,
        }
    }
}

/// The download URL of an application file.
pub fn app_file_url(
    file_base_url: &str,
    version_prefix: &str,
    target_version: &str,
    channel: &str,
    rel_path: &str,
) -> (r: String)
    ensures
        r@ == app_file_url_text(file_base_url@, version_prefix@, target_version@, channel@, rel_path@),
{
    let mut v = trim_end_slashes(file_base_url);
    v.push('/');
    if !is_beta_channel(channel) {
        let p = str_chars(version_prefix);
        let mut ver: Option<Vec<char>> = None;
        if p.len() > 0 && p[p.len() - 1] == '/' {
            let body = take_chars(&p, p.len() - 1);
            assert(body@ =~= p@.drop_last());
            let mut k: usize = body.len();
            assert(body@.take(body@.len() as int) =~= body@);
            while k > 0 && body[k - 1] != '/'
                invariant
                    k <= body@.len(),
                    last_slash(body@) == last_slash(body@.take(k as int)),
                decreases k,
            {
                assert(body@.take(k as int).drop_last() =~= body@.take(k - 1));
                k -= 1;
            }
            if k > 0 {
                assert(body@.take(k as int).last() == '/');
                ver = Some(crate::text::skip_chars(&body, k));
            } else {
                assert(body@.take(0).len() == 0);
            }
        }
        match ver {
            Some(vv) => {
                push_all(&mut v, &vv);
            },
            None => {
                push_all(&mut v, &str_chars(target_version));
            },
        }
        v.push('/');
    }
    push_all(&mut v, &str_chars(rel_path));
    chars_to_string(&v)
}

fn clone_opt_string(o: &Option<String>) -> (r: Option<String>)
    ensures
        r == *o,
{
    match o {
        Some(s) => Some(s.clone()),
        None => None,
    }
}

/// The application needs an update when forced, or when the local version
/// is not the latest one.
pub open spec fn app_update_due(force: bool, local_version: Option<String>, latest: Seq<char>) -> bool {
    force || !(local_version matches Some(v) && v@ == latest)
}

/// Whether the application needs an update.
pub fn app_update_needed(force: bool, local_version: &Option<String>, latest_version: &str) -> (r: bool)
    ensures
        r == app_update_due(force, *local_version, latest_version@),
{
    if force {
        return true;
    }
    match local_version {
        Some(v) => !chars_equal(&str_chars(v.as_str()), &str_chars(latest_version)),
        None => true,
    }
}

/// The data files must be compared when forced, or when the remote data
/// version differs from the local one (an absent local version counts as
/// empty).
pub open spec fn data_check_due(force: bool, local_data_version: Option<String>, remote: Seq<char>) -> bool {
    force || remote != (match local_data_version {
        Some(v) => v@,
        None => Seq::<char>::empty(),
    })
}

/// Whether the data manifest must be fetched and compared.
pub fn data_check_needed(force: bool, local_data_version: &Option<String>, remote_data_version: &str) -> (r: bool)
    ensures
        r == data_check_due(force, *local_data_version, remote_data_version@),
{
    if force {
        return true;
    }
    let local: Vec<char> = match local_data_version {
        Some(v) => str_chars(v.as_str()),
        None => Vec::new(),
    };
    !chars_equal(&str_chars(remote_data_version), &local)
}

/// The local version record used when none is stored: stable channel, no
/// versions.
pub fn default_local_version_info() -> (r: LocalVersionInfo)
    ensures
        r.channel@ == "stable"@,
        r.version is None,
        r.major_version is None,
        r.last_checked_version is None,
        r.last_checked_major is None,
        r.data_version is None,
{
    LocalVersionInfo {
        version: None,
        major_version: None,
        channel: String::from_str("stable"),
        last_checked_version: None,
        last_checked_major: None,
        data_version: None,
    }
}

/// Changes only the update channel of the local version record.
pub fn update_local_channel_only(info: &mut LocalVersionInfo, channel: &str)
    ensures
        final(info).channel@ == channel@,
        final(info).version == old(info).version,
        final(info).major_version == old(info).major_version,
        final(info).last_checked_version == old(info).last_checked_version,
        final(info).last_checked_major == old(info).last_checked_major,
        final(info).data_version == old(info).data_version,
{
    info.channel = String::from_str(channel);
}

/// A file must be downloaded when it is missing locally or its hash differs.
pub open spec fn file_outdated(local_hash: Option<String>, expected: Seq<char>) -> bool {
    match local_hash {
        None => true,
        Some(h) => h@ != expected,
    }
}

fn file_outdated_exec(local_hash: &Option<String>, expected: &String) -> (r: bool)
    ensures
        r == file_outdated(*local_hash, expected@),
{
    match local_hash {
        None => true,
        Some(h) => !(*h == *expected),
    }
}

/// Whether the local binary must be replaced (missing, or another hash).
pub fn check_binary_update_needed(local_hash: &Option<String>, target: &BinaryEntry) -> (r: bool)
    ensures
        r == file_outdated(*local_hash, target.hash@),
{
    file_outdated_exec(local_hash, &target.hash)
}

/// The outdated data files among the first `n`, in order.
pub open spec fn outdated_data(files: Seq<DataFileEntry>, hashes: Seq<Option<String>>, n: int) -> Seq<
    DataFileEntry,
>
    decreases n,
{
    if n <= 0 {
        Seq::empty()
    } else if file_outdated(hashes[n - 1], files[n - 1].hash@) {
        outdated_data(files, hashes, n - 1).push(files[n - 1])
    } else {
        outdated_data(files, hashes, n - 1)
    }
}

/// The data files to download: `local_hashes[i]` is the hash of the local
/// copy of the i-th file of the manifest, or none when it is missing.
pub fn check_data_updates(manifest: &DataManifest, local_hashes: &Vec<Option<String>>) -> (r: Vec<DataFileEntry>)
    requires
        local_hashes@.len() == manifest.files@.len(),
    ensures
        r@ == outdated_data(manifest.files@, local_hashes@, manifest.files@.len() as int),
{
    let mut r: Vec<DataFileEntry> = Vec::new();
    let mut i: usize = 0;
    while i < manifest.files.len()
        invariant
            i <= manifest.files@.len(),
            local_hashes@.len() == manifest.files@.len(),
            r@ == outdated_data(manifest.files@, local_hashes@, i as int),
        decreases manifest.files.len() - i,
    {
        if file_outdated_exec(&local_hashes[i], &manifest.files[i].hash) {
            r.push(manifest.files[i].clone());
        }
        i += 1;
    }
    r
}

/// The outdated accompanying files among the first `n`, as (path, hash).
pub open spec fn outdated_files(files: Seq<FileEntry>, hashes: Seq<Option<String>>, n: int) -> Seq<(String, String)>
    decreases n,
{
    if n <= 0 {
        Seq::empty()
    } else if file_outdated(hashes[n - 1], files[n - 1].hash@) {
        outdated_files(files, hashes, n - 1).push((files[n - 1].path, files[n - 1].hash))
    } else {
        outdated_files(files, hashes, n - 1)
    }
}

/// The accompanying files of a manifest to download, as (path, hash) pairs
/// in manifest order; `local_hashes` as for `check_data_updates`.
pub fn determine_other_updates_by_hash(manifest: &Manifest, local_hashes: &Vec<Option<String>>) -> (r: Vec<
    (String, String),
>)
    requires
        manifest.files matches Some(f) ==> local_hashes@.len() == f@.len(),
    ensures
        manifest.files is None ==> r@.len() == 0,
        manifest.files matches Some(f) ==> r@ == outdated_files(f@, local_hashes@, f@.len() as int),
{
    let mut r: Vec<(String, String)> = Vec::new();
    match &manifest.files {
        None => r,
        Some(files) => {
            let mut i: usize = 0;
            while i < files.len()
                invariant
                    i <= files@.len(),
                    local_hashes@.len() == files@.len(),
                    r@ == outdated_files(files@, local_hashes@, i as int),
                decreases files.len() - i,
            {
                if file_outdated_exec(&local_hashes[i], &files[i].hash) {
                    r.push((files[i].path.clone(), files[i].hash.clone()));
                }
                i += 1;
            }
            r
        },
    }
}

/// The version directory to install: the newest of the latest major
/// version when it is known, else the newest of all.
pub fn choose_target_version(dirs: &[VersionDirectory], latest_major: Option<u32>) -> (r: Option<&VersionDirectory>)
    ensures
        latest_major matches Some(m) ==> (if first_with_major(dirs@, m) < dirs@.len() {
            r == Some(&dirs@[first_with_major(dirs@, m)])
        } else {
            r is None
        }),
        latest_major is None ==> (if dirs@.len() > 0 { r == Some(&dirs@[0]) } else { r is None }),
{
    match latest_major {
        Some(m) => match find_latest_version_in_major(dirs, m) {
            Ok(v) => v,
            Err(_) => None,
        },
        None => if dirs.len() > 0 {
            Some(&dirs[0])
        } else {
            None
        },
    }
}

/// The paths of the given data files.
pub open spec fn data_paths(f: Seq<DataFileEntry>) -> Seq<Seq<char>> {
    f.map_values(|e: DataFileEntry| e.path@)
}

/// The result of an update check, from the local record, the server's
/// latest versions (none when unavailable) and the outdated data files
/// found (empty when the data manifest was not compared).
pub fn assemble_check_result(
    local: &LocalVersionInfo,
    latest: &Option<UpdateTomlInfo>,
    force: bool,
    outdated: &Vec<DataFileEntry>,
) -> (r: UpdateCheckResult)
    ensures
        r.current_app_version == local.version,
        r.current_data_version == local.data_version,
        r.has_modules_update == false,
        r.modules_version is None,
        r.modules_files_to_update@.len() == 0,
        latest is None ==> {
            &&& r.latest_app_version is None
            &&& !r.has_app_update
            &&& r.latest_data_version is None
            &&& !r.has_data_update
            &&& r.data_files_to_update@.len() == 0
        },
        latest matches Some(info) ==> {
            &&& r.latest_app_version == Some(info.version)
            &&& r.has_app_update == app_update_due(force, local.version, info.version@)
            &&& r.latest_data_version == info.data_version
            &&& r.has_data_update == (outdated@.len() > 0)
            &&& crate::text::views(r.data_files_to_update@) == data_paths(outdated@)
        },
{
    match latest {
        None => UpdateCheckResult {
            current_app_version: clone_opt_string(&local.version),
            latest_app_version: None,
            has_app_update: false,
            current_data_version: clone_opt_string(&local.data_version),
            latest_data_version: None,
            has_data_update: false,
            data_files_to_update: Vec::new(),
            has_modules_update: false,
            modules_version: None,
            modules_files_to_update: Vec::new(),
        },
        Some(info) => {
            let mut paths: Vec<String> = Vec::new();
            let mut i: usize = 0;
            while i < outdated.len()
                invariant
                    i <= outdated@.len(),
                    crate::text::views(paths@) == data_paths(outdated@.take(i as int)),
                decreases outdated.len() - i,
            {
                paths.push(outdated[i].path.clone());
                assert(data_paths(outdated@.take(i + 1)) =~= data_paths(outdated@.take(i as int)).push(
                    outdated@[i as int].path@,
                ));
                assert(crate::text::views(paths@) =~= data_paths(outdated@.take(i + 1)));
                i += 1;
            }
            assert(outdated@.take(outdated@.len() as int) =~= outdated@);
            UpdateCheckResult {
                current_app_version: clone_opt_string(&local.version),
                latest_app_version: Some(info.version.clone()),
                has_app_update: app_update_needed(force, &local.version, info.version.as_str()),
                current_data_version: clone_opt_string(&local.data_version),
                latest_data_version: clone_opt_string(&info.data_version),
                has_data_update: outdated.len() > 0,
                data_files_to_update: paths,
                has_modules_update: false,
                modules_version: None,
                modules_files_to_update: Vec::new(),
            }
        },
    }
}

/// The data check is due exactly when it is forced or the server's data
/// version differs from the recorded one (no record counting as the empty
/// version): a recorded version that differs is always checked, and an equal
/// one never is unless forced.
pub proof fn lemma_data_check_due(force: bool, local: Option<String>, remote: Seq<char>)
    ensures
        force ==> data_check_due(force, local, remote),
        (local is Some && local->0@ != remote) ==> data_check_due(force, local, remote),
        (local is None && remote.len() > 0) ==> data_check_due(force, local, remote),
        (!force && local is Some && local->0@ == remote) ==> !data_check_due(force, local, remote),
        (!force && local is None && remote.len() == 0) ==> !data_check_due(force, local, remote),
{
    if remote.len() == 0 {
        assert(remote =~= Seq::<char>::empty());
    }
}

/// Every accompanying file among the first `n` whose local copy is missing
/// or has another hash is in the download list, with its path and expected
/// hash, and every entry of the list is such a file, in manifest order.
pub proof fn lemma_outdated_files_exact(files: Seq<FileEntry>, hashes: Seq<Option<String>>, n: int)
    requires
        0 <= n <= files.len(),
        hashes.len() == files.len(),
    ensures
        forall|i: int|
            0 <= i < n && file_outdated(hashes[i], #[trigger] files[i].hash@) ==> outdated_files(files, hashes, n).contains(
                (files[i].path, files[i].hash),
            ),
        forall|j: int|
            0 <= j < outdated_files(files, hashes, n).len() ==> exists|i: int|
                0 <= i < n && file_outdated(hashes[i], files[i].hash@) && #[trigger] outdated_files(files, hashes, n)[j] == (
                    files[i].path,
                    files[i].hash,
                ),
        outdated_files(files, hashes, n).len() <= n,
    decreases n,
{
    if n > 0 {
        lemma_outdated_files_exact(files, hashes, n - 1);
        let prev = outdated_files(files, hashes, n - 1);
        let cur = outdated_files(files, hashes, n);
        let last = (files[n - 1].path, files[n - 1].hash);
        if file_outdated(hashes[n - 1], files[n - 1].hash@) {
            assert(cur == prev.push(last));
            assert(cur[prev.len() as int] == last);
            assert forall|i: int|
                0 <= i < n && file_outdated(hashes[i], #[trigger] files[i].hash@) implies cur.contains(
                (files[i].path, files[i].hash),
            ) by {
                if i < n - 1 {
                    let k = choose|k: int| 0 <= k < prev.len() && prev[k] == (files[i].path, files[i].hash);
                    assert(cur[k] == prev[k]);
                } else {
                    assert(cur[prev.len() as int] == (files[i].path, files[i].hash));
                }
            }
        } else {
            assert(cur == prev);
        }
        assert forall|j: int| 0 <= j < cur.len() implies exists|i: int|
            0 <= i < n && file_outdated(hashes[i], files[i].hash@) && #[trigger] cur[j] == (
                files[i].path,
                files[i].hash,
            ) by {
            if j < prev.len() {
                assert(cur[j] == prev[j]);
                let i = choose|i: int|
                    0 <= i < n - 1 && file_outdated(hashes[i], files[i].hash@) && prev[j] == (files[i].path, files[i].hash);
                assert(0 <= i < n && file_outdated(hashes[i], files[i].hash@) && cur[j] == (files[i].path, files[i].hash));
            } else {
                assert(cur[j] == last);
                assert(file_outdated(hashes[n - 1], files[n - 1].hash@));
            }
        }
    }
}

/// Every data file among the first `n` whose local copy is missing or has
/// another hash is to be downloaded, and every file to download is such a
/// file of the manifest.
pub proof fn lemma_outdated_data_exact(files: Seq<DataFileEntry>, hashes: Seq<Option<String>>, n: int)
    requires
        0 <= n <= files.len(),
        hashes.len() == files.len(),
    ensures
        forall|i: int|
            0 <= i < n && file_outdated(hashes[i], #[trigger] files[i].hash@) ==> outdated_data(files, hashes, n).contains(
                files[i],
            ),
        forall|j: int|
            0 <= j < outdated_data(files, hashes, n).len() ==> exists|i: int|
                0 <= i < n && file_outdated(hashes[i], files[i].hash@) && #[trigger] outdated_data(files, hashes, n)[j]
                    == files[i],
    decreases n,
{
    if n > 0 {
        lemma_outdated_data_exact(files, hashes, n - 1);
        let prev = outdated_data(files, hashes, n - 1);
        let cur = outdated_data(files, hashes, n);
        if file_outdated(hashes[n - 1], files[n - 1].hash@) {
            assert(cur == prev.push(files[n - 1]));
            assert(cur[prev.len() as int] == files[n - 1]);
            assert forall|i: int|
                0 <= i < n && file_outdated(hashes[i], #[trigger] files[i].hash@) implies cur.contains(files[i]) by {
                if i < n - 1 {
                    let k = choose|k: int| 0 <= k < prev.len() && prev[k] == files[i];
                    assert(cur[k] == prev[k]);
                } else {
                    assert(cur[prev.len() as int] == files[i]);
                }
            }
        } else {
            assert(cur == prev);
        }
        assert forall|j: int| 0 <= j < cur.len() implies exists|i: int|
            0 <= i < n && file_outdated(hashes[i], files[i].hash@) && #[trigger] cur[j] == files[i] by {
            if j < prev.len() {
                assert(cur[j] == prev[j]);
                let i = choose|i: int| 0 <= i < n - 1 && file_outdated(hashes[i], files[i].hash@) && prev[j] == files[i];
                assert(0 <= i < n && file_outdated(hashes[i], files[i].hash@) && cur[j] == files[i]);
            } else {
                assert(cur[j] == files[n - 1]);
                assert(file_outdated(hashes[n - 1], files[n - 1].hash@));
            }
        }
    }
}

/// The application update is due exactly when forced, when no version is
/// recorded, or when the recorded version is not the latest one; a recorded
/// latest version is never updated unless forced.
pub proof fn lemma_app_update_due(force: bool, local: Option<String>, latest: Seq<char>)
    ensures
        force ==> app_update_due(force, local, latest),
        local is None ==> app_update_due(force, local, latest),
        (local is Some && local->0@ != latest) ==> app_update_due(force, local, latest),
        (!force && local is Some && local->0@ == latest) ==> !app_update_due(force, local, latest),
{
}

/// A file is outdated exactly when its local copy is missing or its hash
/// differs from the expected one.
pub proof fn lemma_file_outdated(local: Option<String>, expected: Seq<char>)
    ensures
        local is None ==> file_outdated(local, expected),
        (local is Some && local->0@ != expected) ==> file_outdated(local, expected),
        (local is Some && local->0@ == expected) ==> !file_outdated(local, expected),
{
}

/// A channel file URL starts with the file server (without trailing
/// slashes) and a `/`, ends with `<section>/<file>`; on the stable channel the
/// version directory follows the server, and on the beta channel the URL
/// does not depend on the version.
pub proof fn lemma_channel_file_url(
    base: Seq<char>,
    version: Seq<char>,
    channel: Seq<char>,
    section: Seq<char>,
    file: Seq<char>,
    other_version: Seq<char>,
)
    ensures
        ({
            let u = channel_file_url_text(base, version, channel, section, file);
            let tb = trim_trailing_slashes(base);
            &&& u.take(tb.len() as int) == tb
            &&& u[tb.len() as int] == '/'
            &&& u.skip(u.len() - section.len() - 1 - file.len()) == section + seq!['/'] + file
            &&& channel != "beta"@ ==> u.subrange(tb.len() + 1 as int, tb.len() + 1 + version.len() as int) == version
                && u[tb.len() + 1 + version.len() as int] == '/'
            &&& channel == "beta"@ ==> u == channel_file_url_text(base, other_version, channel, section, file)
        }),
{
    let u = channel_file_url_text(base, version, channel, section, file);
    let tb = trim_trailing_slashes(base);
    if channel == "beta"@ {
        assert(u.take(tb.len() as int) =~= tb);
        assert(u.skip(u.len() - section.len() - 1 - file.len()) =~= section + seq!['/'] + file);
    } else {
        assert(u.take(tb.len() as int) =~= tb);
        assert(u.skip(u.len() - section.len() - 1 - file.len()) =~= section + seq!['/'] + file);
        assert(u.subrange(tb.len() + 1 as int, tb.len() + 1 + version.len() as int) =~= version);
    }
}

/// The binary chosen for a platform is built for that operating system and
/// architecture, and no binary before it in the list is; when none is
/// chosen, no binary of the list is built for the platform.
pub proof fn lemma_first_binary_for(b: Seq<BinaryEntry>, os: Seq<char>, arch: Seq<char>)
    ensures
        0 <= first_binary_for(b, os, arch) <= b.len(),
        first_binary_for(b, os, arch) < b.len() ==> b[first_binary_for(b, os, arch)].os@ == os && b[first_binary_for(
            b,
            os,
            arch,
        )].arch@ == arch,
        forall|j: int|
            0 <= j < first_binary_for(b, os, arch) ==> !(#[trigger] b[j].os@ == os && b[j].arch@ == arch),
    decreases b.len(),
{
    if b.len() > 0 && !(b[0].os@ == os && b[0].arch@ == arch) {
        lemma_first_binary_for(b.drop_first(), os, arch);
        assert forall|j: int| 0 <= j < first_binary_for(b, os, arch) implies !(#[trigger] b[j].os@ == os && b[j].arch@
            == arch) by {
            if j > 0 {
                assert(b[j] == b.drop_first()[j - 1]);
            }
        }
    }
}

/// The directory chosen for a major version has that major version, and no
/// directory before it in the (newest first) list has; when none is chosen,
/// no directory of the list has it.
pub proof fn lemma_first_with_major(v: Seq<VersionDirectory>, major: u32)
    ensures
        0 <= first_with_major(v, major) <= v.len(),
        first_with_major(v, major) < v.len() ==> v[first_with_major(v, major)].manifest.major_version == Some(major),
        forall|j: int|
            0 <= j < first_with_major(v, major) ==> #[trigger] v[j].manifest.major_version != Some(major),
    decreases v.len(),
{
    if v.len() > 0 && v[0].manifest.major_version != Some(major) {
        lemma_first_with_major(v.drop_first(), major);
        assert forall|j: int| 0 <= j < first_with_major(v, major) implies #[trigger] v[j].manifest.major_version
            != Some(major) by {
            if j > 0 {
                assert(v[j] == v.drop_first()[j - 1]);
            }
        }
    }
}

} // verus!
