//! Module libraries (dynamic libraries) and their manifest: which libraries
//! belong to this platform, which must be downloaded, where they are
//! fetched from, and the local record of what was installed.

use vstd::prelude::*;
use crate::text::{chars_equal, chars_to_string, join_path, path_extension, path_extension_of, push_all, str_chars};
use crate::update::download::{channel_file_url, channel_file_url_text};

verus! {

/// File name of the modules manifest, on the server and in the local
/// modules directory.
pub const MODULES_MANIFEST_FILENAME: &'static str = "modules_manifest.toml";

/// One module library of the modules manifest.
#[derive(Debug)]
pub struct ModulesFileEntry {
    pub name: String,
    /// Version of the crate that produced the library.
    pub version: String,
    pub hash: String,
    pub hash_type: String,
    pub size: u64,
}

impl Clone for ModulesFileEntry {
    fn clone(&self) -> (r: Self)
        ensures
            r == *self,
    {
        ModulesFileEntry {
            name: self.name.clone(),
            version: self.version.clone(),
            hash: self.hash.clone(),
            hash_type: self.hash_type.clone(),
            size: self.size,
        }
    }
}

/// The modules manifest (server side, or the local snapshot of what was
/// installed).
#[derive(Debug)]
pub struct ModulesManifest {
    pub modules_version: String,
    pub platform: String,
    pub files: Vec<ModulesFileEntry>,
}

/// Result of a module update check.
#[derive(Debug)]
pub struct ModulesCheckResult {
    pub modules_version: Option<String>,
    pub has_modules_update: bool,
    pub modules_files_to_update: Vec<ModulesFileEntry>,
}

impl Default for ModulesCheckResult {
    fn default() -> (r: Self)
        ensures
            r.modules_version is None,
            !r.has_modules_update,
            r.modules_files_to_update@.len() == 0,
    {
        ModulesCheckResult { modules_version: None, has_modules_update: false, modules_files_to_update: Vec::new() }
    }
}

/// The snapshot used when no local one can be read: no version, no
/// platform, no files.
pub fn empty_snapshot() -> (r: ModulesManifest)
    ensures
        r.modules_version@.len() == 0,
        r.platform@.len() == 0,
        r.files@.len() == 0,
{
    ModulesManifest { modules_version: String::new(), platform: String::new(), files: Vec::new() }
}

/// A library belongs to the platform by its extension (as `Path::extension`
/// reads it on that platform, where Windows also separates at `\`):
/// `dylib` on macOS, `so` on Linux, `dll` on Windows; any library on another
/// system.
pub open spec fn platform_accepts(os: Seq<char>, name: Seq<char>) -> bool {
    if os == "macos"@ {
        path_extension(name, false) == "dylib"@
    } else if os == "linux"@ {
        path_extension(name, false) == "so"@
    } else if os == "windows"@ {
        path_extension(name, true) == "dll"@
    } else {
        true
    }
}

/// Whether a module library belongs to the platform `os` (the value of
/// `std::env::consts::OS`); see `platform_accepts`.
pub fn matches_local_platform(name: &str, os: &str) -> (r: bool)
    ensures
        r == platform_accepts(os@, name@),
{
    let o = str_chars(os);
    if chars_equal(&o, &str_chars("macos")) {
        chars_equal(&path_extension_of(name, false), &str_chars("dylib"))
    } else if chars_equal(&o, &str_chars("linux")) {
        chars_equal(&path_extension_of(name, false), &str_chars("so"))
    } else if chars_equal(&o, &str_chars("windows")) {
        chars_equal(&path_extension_of(name, true), &str_chars("dll"))
    } else {
        true
    }
}

/// Index of the first entry named `name`, or the length when there is none.
pub open spec fn first_named(files: Seq<ModulesFileEntry>, name: Seq<char>) -> int
    decreases files.len(),
{
    if files.len() == 0 {
        0
    } else if files[0].name@ == name {
        0
    } else {
        1 + first_named(files.drop_first(), name)
    }
}

/// The first entry named `name`, if any.
pub open spec fn lookup(files: Seq<ModulesFileEntry>, name: Seq<char>) -> Option<ModulesFileEntry> {
    let i = first_named(files, name);
    if i < files.len() {
        Some(files[i])
    } else {
        None
    }
}

/// The first index of a name is within the manifest; the entry there has
/// that name, and no entry before it does.
pub proof fn lemma_first_named(files: Seq<ModulesFileEntry>, name: Seq<char>)
    ensures
        0 <= first_named(files, name) <= files.len(),
        first_named(files, name) < files.len() ==> files[first_named(files, name)].name@ == name,
        forall|j: int| 0 <= j < first_named(files, name) ==> #[trigger] files[j].name@ != name,
    decreases files.len(),
{
    if files.len() > 0 && files[0].name@ != name {
        lemma_first_named(files.drop_first(), name);
        assert forall|j: int| 0 <= j < first_named(files, name) implies #[trigger] files[j].name@ != name by {
            if j > 0 {
                assert(files[j] == files.drop_first()[j - 1]);
            }
        }
    }
}

proof fn lemma_first_named_at(files: Seq<ModulesFileEntry>, name: Seq<char>, k: int)
    requires
        0 <= k <= files.len(),
        k < files.len() ==> files[k].name@ == name,
        forall|j: int| 0 <= j < k ==> #[trigger] files[j].name@ != name,
    ensures
        first_named(files, name) == k,
    decreases files.len(),
{
    if files.len() > 0 && k > 0 {
        assert(files[0].name@ != name);
        assert forall|j: int| 0 <= j < k - 1 implies #[trigger] files.drop_first()[j].name@ != name by {
            assert(files.drop_first()[j] == files[j + 1]);
        }
        lemma_first_named_at(files.drop_first(), name, k - 1);
    }
}

fn find_named(files: &Vec<ModulesFileEntry>, name: &str) -> (r: usize)
    ensures
        r == first_named(files@, name@),
{
    proof {
        lemma_first_named(files@, name@);
    }
    let target = str_chars(name);
    let mut i: usize = 0;
    while i < files.len() && !chars_equal(&str_chars(files[i].name.as_str()), &target)
        invariant
            i <= files@.len(),
            target@ == name@,
            forall|j: int| 0 <= j < i ==> #[trigger] files@[j].name@ != name@,
        decreases files.len() - i,
    {
        i += 1;
    }
    proof {
        lemma_first_named_at(files@, name@, i as int);
    }
    i
}

/// A library must be downloaded when its file is missing locally, when the
/// local snapshot has no entry of that name, when the snapshot records
/// another (non-empty) version, or else when it records another hash.
pub open spec fn module_outdated(entry: ModulesFileEntry, local: Seq<ModulesFileEntry>, present: bool) -> bool {
    if !present {
        true
    } else {
        match lookup(local, entry.name@) {
            Some(l) => if l.version@.len() > 0 && l.version@ != entry.version@ {
                true
            } else {
                l.hash@ != entry.hash@
            },
            None => true,
        }
    }
}

impl ModulesFileEntry {
    /// Whether this library must be downloaded, given the local snapshot
    /// and whether its file is present in the local modules directory.
    pub fn needs_update(&self, local_manifest: &ModulesManifest, present: bool) -> (r: bool)
        ensures
            r == module_outdated(*self, local_manifest.files@, present),
    {
        if !present {
            return true;
        }
        let i = find_named(&local_manifest.files, self.name.as_str());
        if i < local_manifest.files.len() {
            let local = &local_manifest.files[i];
            let lv = str_chars(local.version.as_str());
            if lv.len() > 0 && !chars_equal(&lv, &str_chars(self.version.as_str())) {
                return true;
            }
            !chars_equal(&str_chars(local.hash.as_str()), &str_chars(self.hash.as_str()))
        } else {
            true
        }
    }
}

/// The libraries among the first `n` of `files` that belong to the platform
/// and must be downloaded (all of them that belong to it when forced), in
/// manifest order; `present[i]` tells whether the i-th file exists locally.
pub open spec fn modules_to_update(
    files: Seq<ModulesFileEntry>,
    local: Seq<ModulesFileEntry>,
    present: Seq<bool>,
    os: Seq<char>,
    force: bool,
    n: int,
) -> Seq<ModulesFileEntry>
    decreases n,
{
    if n <= 0 {
        Seq::empty()
    } else {
        let r = modules_to_update(files, local, present, os, force, n - 1);
        let e = files[n - 1];
        if platform_accepts(os, e.name@) && (force || module_outdated(e, local, present[n - 1])) {
            r.push(e)
        } else {
            r
        }
    }
}

/// Only libraries of the platform are selected, each an entry of the server
/// manifest, and forcing selects every library of the platform.
pub proof fn lemma_modules_to_update_platform(
    files: Seq<ModulesFileEntry>,
    local: Seq<ModulesFileEntry>,
    present: Seq<bool>,
    os: Seq<char>,
    force: bool,
    n: int,
)
    requires
        0 <= n <= files.len(),
    ensures
        forall|k: int|
            0 <= k < modules_to_update(files, local, present, os, force, n).len() ==> {
                let e = #[trigger] modules_to_update(files, local, present, os, force, n)[k];
                platform_accepts(os, e.name@) && files.take(n).contains(e)
            },
        force ==> modules_to_update(files, local, present, os, force, n) == files.take(n).filter(
            |e: ModulesFileEntry| platform_accepts(os, e.name@),
        ),
    decreases n,
{
    reveal(Seq::filter);
    if n > 0 {
        lemma_modules_to_update_platform(files, local, present, os, force, n - 1);
        let prev = modules_to_update(files, local, present, os, force, n - 1);
        let cur = modules_to_update(files, local, present, os, force, n);
        assert(files.take(n).drop_last() =~= files.take(n - 1));
        assert forall|k: int| 0 <= k < cur.len() implies {
            let e = #[trigger] cur[k];
            platform_accepts(os, e.name@) && files.take(n).contains(e)
        } by {
            if k < prev.len() {
                assert(cur[k] == prev[k]);
                let j = choose|j: int| 0 <= j < files.take(n - 1).len() && #[trigger] files.take(n - 1)[j] == prev[k];
                assert(files.take(n)[j] == prev[k]);
            } else {
                assert(files.take(n)[n - 1] == files[n - 1]);
            }
        }
    } else {
        assert(files.take(0) =~= Seq::<ModulesFileEntry>::empty());
    }
}

/// The result of a module update check, from the server's modules manifest,
/// the local snapshot, which manifest files exist locally, the platform and
/// the force flag.
pub fn select_modules_updates(
    manifest: &ModulesManifest,
    local_manifest: &ModulesManifest,
    present: &Vec<bool>,
    os: &str,
    force: bool,
) -> (r: ModulesCheckResult)
    requires
        present@.len() == manifest.files@.len(),
    ensures
        r.modules_files_to_update@ == modules_to_update(
            manifest.files@,
            local_manifest.files@,
            present@,
            os@,
            force,
            manifest.files@.len() as int,
        ),
        r.has_modules_update == (r.modules_files_to_update@.len() > 0),
        r.modules_version == (if r.has_modules_update {
            Some(manifest.modules_version)
        } else {
            None
        }),
{
    let mut needed: Vec<ModulesFileEntry> = Vec::new();
    let mut i: usize = 0;
    while i < manifest.files.len()
        invariant
            i <= manifest.files@.len(),
            present@.len() == manifest.files@.len(),
            needed@ == modules_to_update(manifest.files@, local_manifest.files@, present@, os@, force, i as int),
        decreases manifest.files.len() - i,
    {
        let entry = &manifest.files[i];
        if matches_local_platform(entry.name.as_str(), os) {
            if force || entry.needs_update(local_manifest, present[i]) {
                needed.push(entry.clone());
            }
        }
        i += 1;
    }
    if needed.len() > 0 {
        ModulesCheckResult {
            modules_version: Some(manifest.modules_version.clone()),
            has_modules_update: true,
            modules_files_to_update: needed,
        }
    } else {
        ModulesCheckResult::default()
    }
}

/// URL of the modules manifest of an application version on a channel.
pub fn modules_manifest_url(file_base_url: &str, app_version: &str, channel: &str) -> (r: String)
    ensures
        r@ == channel_file_url_text(file_base_url@, app_version@, channel@, "modules"@, MODULES_MANIFEST_FILENAME@),
{
    channel_file_url(file_base_url, app_version, channel, "modules", MODULES_MANIFEST_FILENAME)
}

/// URL of a module library of an application version on a channel.
pub fn module_file_url(file_base_url: &str, app_version: &str, channel: &str, name: &str) -> (r: String)
    ensures
        r@ == channel_file_url_text(file_base_url@, app_version@, channel@, "modules"@, name@),
{
    channel_file_url(file_base_url, app_version, channel, "modules", name)
}

/// Path of the local modules snapshot: the modules manifest file inside the
/// local modules directory.
pub fn local_snapshot_path(local_dir: &str) -> (r: String)
    ensures
        r@ == join_path(local_dir@, MODULES_MANIFEST_FILENAME@),
{
    crate::text::join_path_exec(local_dir, MODULES_MANIFEST_FILENAME)
}

/// Records one installed library: it replaces the first entry of that name,
/// or is appended when there is none.
pub open spec fn merge_entry(files: Seq<ModulesFileEntry>, e: ModulesFileEntry) -> Seq<ModulesFileEntry> {
    let i = first_named(files, e.name@);
    if i < files.len() {
        files.update(i, e)
    } else {
        files.push(e)
    }
}

/// Records the installed libraries one after the other.
pub open spec fn merge_entries(files: Seq<ModulesFileEntry>, installed: Seq<ModulesFileEntry>) -> Seq<
    ModulesFileEntry,
>
    decreases installed.len(),
{
    if installed.len() == 0 {
        files
    } else {
        merge_entry(merge_entries(files, installed.drop_last()), installed.last())
    }
}

/// Updates the local snapshot after an installation: the application
/// version becomes its modules version and each installed library replaces
/// its entry (or is added).
pub fn merge_installed(snapshot: &mut ModulesManifest, app_version: &str, installed: &Vec<ModulesFileEntry>)
    ensures
        final(snapshot).modules_version@ == app_version@,
        final(snapshot).platform == old(snapshot).platform,
        final(snapshot).files@ == merge_entries(old(snapshot).files@, installed@),
{
    snapshot.modules_version = String::from_str(app_version);
    let ghost start = snapshot.files@;
    let mut i: usize = 0;
    while i < installed.len()
        invariant
            i <= installed@.len(),
            snapshot.files@ == merge_entries(start, installed@.take(i as int)),
            snapshot.modules_version@ == app_version@,
            snapshot.platform == old(snapshot).platform,
        decreases installed.len() - i,
    {
        let e = &installed[i];
        let j = find_named(&snapshot.files, e.name.as_str());
        if j < snapshot.files.len() {
            snapshot.files.set(j, e.clone());
        } else {
            snapshot.files.push(e.clone());
        }
        assert(installed@.take(i + 1).drop_last() =~= installed@.take(i as int));
        i += 1;
    }
    assert(installed@.take(installed@.len() as int) =~= installed@);
}

/// Index of the last entry named `name`, or -1.
pub open spec fn last_named(s: Seq<ModulesFileEntry>, name: Seq<char>) -> int
    decreases s.len(),
{
    if s.len() == 0 {
        -1
    } else if s.last().name@ == name {
        s.len() - 1
    } else {
        last_named(s.drop_last(), name)
    }
}

/// Recording a library makes it the entry found under its name, and leaves
/// the entry found under every other name as it was.
pub proof fn lemma_merge_entry_lookup(files: Seq<ModulesFileEntry>, e: ModulesFileEntry, name: Seq<char>)
    ensures
        lookup(merge_entry(files, e), e.name@) == Some(e),
        name != e.name@ ==> lookup(merge_entry(files, e), name) == lookup(files, name),
{
    let i = first_named(files, e.name@);
    let m = merge_entry(files, e);
    lemma_first_named(files, e.name@);
    lemma_first_named(files, name);
    lemma_first_named_at(m, e.name@, i);
    if name != e.name@ {
        let k = first_named(files, name);
        if i < files.len() {
            assert forall|j: int| 0 <= j < k implies #[trigger] m[j].name@ != name by {
                if j != i {
                    assert(m[j] == files[j]);
                }
            }
            if k < files.len() {
                assert(k != i);
                assert(m[k] == files[k]);
            }
            lemma_first_named_at(m, name, k);
        } else {
            if k < files.len() {
                assert(m[k] == files[k]);
                lemma_first_named_at(m, name, k);
            } else {
                lemma_first_named_at(m, name, m.len() as int);
            }
        }
    }
}

/// After an installation the entry found under a name is the last installed
/// library of that name, or the snapshot's entry when none was installed.
pub proof fn lemma_merge_entries_lookup(
    files: Seq<ModulesFileEntry>,
    installed: Seq<ModulesFileEntry>,
    name: Seq<char>,
)
    ensures
        lookup(merge_entries(files, installed), name) == if last_named(installed, name) >= 0 {
            Some(installed[last_named(installed, name)])
        } else {
            lookup(files, name)
        },
    decreases installed.len(),
{
    if installed.len() > 0 {
        let rest = installed.drop_last();
        let e = installed.last();
        lemma_merge_entries_lookup(files, rest, name);
        lemma_merge_entry_lookup(merge_entries(files, rest), e, name);
        if e.name@ != name {
            lemma_last_named_bounds(rest, name);
            let k = last_named(rest, name);
            if k >= 0 {
                assert(installed[k] == rest[k]);
            }
        }
    }
}

proof fn lemma_last_named_bounds(s: Seq<ModulesFileEntry>, name: Seq<char>)
    ensures
        -1 <= last_named(s, name) < s.len(),
    decreases s.len(),
{
    if s.len() > 0 {
        lemma_last_named_bounds(s.drop_last(), name);
    }
}

/// A library is taken on macOS exactly when its extension is `dylib`, on
/// Linux exactly when it is `so`, and on Windows exactly when it is `dll`
/// (reading `\` as a separator there); so no `so` or `dll` library is ever
/// taken on macOS, no `dylib` or `dll` library on Linux, and no library is
/// taken on both macOS and Linux.
pub proof fn lemma_platform_extensions(name: Seq<char>)
    ensures
        platform_accepts("macos"@, name) <==> path_extension(name, false) == "dylib"@,
        platform_accepts("linux"@, name) <==> path_extension(name, false) == "so"@,
        platform_accepts("windows"@, name) <==> path_extension(name, true) == "dll"@,
        (path_extension(name, false) == "so"@ || path_extension(name, false) == "dll"@) ==> !platform_accepts(
            "macos"@,
            name,
        ),
        (path_extension(name, false) == "dylib"@ || path_extension(name, false) == "dll"@) ==> !platform_accepts(
            "linux"@,
            name,
        ),
        !(platform_accepts("macos"@, name) && platform_accepts("linux"@, name)),
{
    reveal_strlit("macos");
    reveal_strlit("linux");
    reveal_strlit("windows");
    reveal_strlit("dylib");
    reveal_strlit("so");
    reveal_strlit("dll");
    assert("macos"@.len() != "linux"@.len() || "macos"@[0] != "linux"@[0]);
    assert("macos"@.len() != "windows"@.len());
    assert("linux"@.len() != "windows"@.len());
    assert("dylib"@.len() != "so"@.len());
    assert("dylib"@.len() != "dll"@.len());
    assert("so"@.len() != "dll"@.len());
}

/// The libraries selected for update carry the platform's extension:
/// `dylib` on macOS, `so` on Linux, `dll` on Windows.
pub proof fn lemma_selected_extensions(
    files: Seq<ModulesFileEntry>,
    local: Seq<ModulesFileEntry>,
    present: Seq<bool>,
    os: Seq<char>,
    force: bool,
)
    ensures
        forall|k: int|
            0 <= k < modules_to_update(files, local, present, os, force, files.len() as int).len() ==> {
                let e = #[trigger] modules_to_update(files, local, present, os, force, files.len() as int)[k];
                &&& os == "macos"@ ==> path_extension(e.name@, false) == "dylib"@
                &&& os == "linux"@ ==> path_extension(e.name@, false) == "so"@
                &&& os == "windows"@ ==> path_extension(e.name@, true) == "dll"@
            },
{
    lemma_modules_to_update_platform(files, local, present, os, force, files.len() as int);
    let sel = modules_to_update(files, local, present, os, force, files.len() as int);
    assert forall|k: int| 0 <= k < sel.len() implies {
        let e = #[trigger] sel[k];
        &&& os == "macos"@ ==> path_extension(e.name@, false) == "dylib"@
        &&& os == "linux"@ ==> path_extension(e.name@, false) == "so"@
        &&& os == "windows"@ ==> path_extension(e.name@, true) == "dll"@
    } by {
        lemma_platform_extensions(sel[k].name@);
    }
}

} // verus!
