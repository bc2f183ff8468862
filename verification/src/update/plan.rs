//! The plan of an application update: the files to download (each path
//! once), where each is installed, the package fallback of an unsupported
//! platform, and the version record written afterwards.

use vstd::prelude::*;
use crate::text::{chars_equal, str_chars};
use crate::update::download::{
    BinaryEntry, CompressedPackageEntry, LocalVersionInfo, Manifest, determine_final_binary_name, final_binary_name,
};

verus! {

/// The files of a list as a map from path to hash, a later entry of a path
/// replacing an earlier one.
pub open spec fn as_map(s: Seq<(String, String)>) -> Map<Seq<char>, Seq<char>>
    decreases s.len(),
{
    if s.len() == 0 {
        Map::empty()
    } else {
        as_map(s.drop_last()).insert(s.last().0@, s.last().1@)
    }
}

/// No path occurs twice.
pub open spec fn unique_paths(s: Seq<(String, String)>) -> bool {
    forall|i: int, j: int| 0 <= i < j < s.len() ==> #[trigger] s[i].0@ != #[trigger] s[j].0@
}

/// Index of the entry of path `p`, or the length.
pub open spec fn index_of_path(s: Seq<(String, String)>, p: Seq<char>) -> int
    decreases s.len(),
{
    if s.len() == 0 {
        0
    } else if s[0].0@ == p {
        0
    } else {
        1 + index_of_path(s.drop_first(), p)
    }
}

proof fn lemma_index_of_path(s: Seq<(String, String)>, p: Seq<char>)
    ensures
        0 <= index_of_path(s, p) <= s.len(),
        index_of_path(s, p) < s.len() ==> s[index_of_path(s, p)].0@ == p,
        index_of_path(s, p) == s.len() ==> forall|j: int| 0 <= j < s.len() ==> #[trigger] s[j].0@ != p,
    decreases s.len(),
{
    if s.len() > 0 && s[0].0@ != p {
        lemma_index_of_path(s.drop_first(), p);
        if index_of_path(s, p) == s.len() {
            assert forall|j: int| 0 <= j < s.len() implies #[trigger] s[j].0@ != p by {
                if j > 0 {
                    assert(s[j] == s.drop_first()[j - 1]);
                }
            }
        }
    }
}

proof fn lemma_as_map_push_new(s: Seq<(String, String)>, x: (String, String))
    requires
        unique_paths(s),
        forall|j: int| 0 <= j < s.len() ==> #[trigger] s[j].0@ != x.0@,
    ensures
        unique_paths(s.push(x)),
        as_map(s.push(x)) == as_map(s).insert(x.0@, x.1@),
{
    assert(s.push(x).drop_last() =~= s);
    let t = s.push(x);
    assert forall|i: int, j: int| 0 <= i < j < t.len() implies #[trigger] t[i].0@ != #[trigger] t[j].0@ by {
        if j == s.len() {
            assert(t[i] == s[i]);
        } else {
            assert(t[i] == s[i] && t[j] == s[j]);
        }
    }
}

proof fn lemma_as_map_update(s: Seq<(String, String)>, j: int, x: (String, String))
    requires
        unique_paths(s),
        0 <= j < s.len(),
        s[j].0@ == x.0@,
    ensures
        unique_paths(s.update(j, x)),
        as_map(s.update(j, x)) == as_map(s).insert(x.0@, x.1@),
    decreases s.len(),
{
    let t = s.update(j, x);
    assert forall|a: int, b: int| 0 <= a < b < t.len() implies #[trigger] t[a].0@ != #[trigger] t[b].0@ by {
        assert(t[a].0@ == s[a].0@ && t[b].0@ == s[b].0@);
    }
    let d = s.drop_last();
    if j == s.len() - 1 {
        assert(t.drop_last() =~= d);
        assert(as_map(t) =~= as_map(s).insert(x.0@, x.1@));
    } else {
        assert forall|a: int, b: int| 0 <= a < b < d.len() implies #[trigger] d[a].0@ != #[trigger] d[b].0@ by {
            assert(d[a] == s[a] && d[b] == s[b]);
        }
        lemma_as_map_update(d, j, x);
        assert(t.drop_last() =~= d.update(j, x));
        assert(s.last().0@ != x.0@);
        assert(as_map(t) =~= as_map(s).insert(x.0@, x.1@));
    }
}

fn find_path(s: &Vec<(String, String)>, p: &Vec<char>) -> (r: usize)
    ensures
        r == index_of_path(s@, p@),
{
    let mut i: usize = 0;
    assert(s@.skip(0) =~= s@);
    while i < s.len() && !chars_equal(&str_chars(s[i].0.as_str()), p)
        invariant
            i <= s@.len(),
            index_of_path(s@, p@) == i + index_of_path(s@.skip(i as int), p@),
        decreases s.len() - i,
    {
        assert(s@.skip(i as int).drop_first() =~= s@.skip(i + 1));
        i += 1;
    }
    if i == s.len() {
        assert(s@.skip(i as int).len() == 0);
    }
    i
}

fn clone_pair(x: &(String, String)) -> (r: (String, String))
    ensures
        r == *x,
{
    (x.0.clone(), x.1.clone())
}

/// The files to download for an application update, each path once: the
/// outdated accompanying files (for a path listed twice, the later hash) and
/// the outdated binary, whose hash wins over an accompanying file of the
/// same path.
pub fn collect_updates(binary: &Option<(String, String)>, others: &Vec<(String, String)>) -> (r: Vec<
    (String, String),
>)
    ensures
        unique_paths(r@),
        as_map(r@) == (match binary {
            Some(b) => as_map(others@).insert(b.0@, b.1@),
            None => as_map(others@),
        }),
{
    let mut r: Vec<(String, String)> = Vec::new();
    let mut bin_path: Vec<char> = Vec::new();
    let has_bin = match binary {
        Some(b) => {
            r.push(clone_pair(b));
            bin_path = str_chars(b.0.as_str());
            true
        },
        None => false,
    };
    proof {
        let empty = Seq::<(String, String)>::empty();
        assert(others@.take(0) =~= empty);
        if has_bin {
            assert(r@.drop_last() =~= empty);
        }
    }
    let mut i: usize = 0;
    while i < others.len()
        invariant
            i <= others@.len(),
            has_bin == binary is Some,
            binary matches Some(b) ==> bin_path@ == b.0@,
            binary matches Some(b) ==> r@.len() > 0 && r@[0].0@ == b.0@,
            unique_paths(r@),
            as_map(r@) == (match binary {
                Some(b) => as_map(others@.take(i as int)).insert(b.0@, b.1@),
                None => as_map(others@.take(i as int)),
            }),
        decreases others.len() - i,
    {
        let x = &others[i];
        let p = str_chars(x.0.as_str());
        let ghost before = r@;
        assert(others@.take(i + 1).drop_last() =~= others@.take(i as int));
        assert(others@.take(i + 1).last() == *x);
        if has_bin && chars_equal(&p, &bin_path) {
            proof {
                let b = binary->0;
                assert(as_map(others@.take(i + 1)).insert(b.0@, b.1@) =~= as_map(others@.take(i as int)).insert(
                    b.0@,
                    b.1@,
                ));
            }
        } else {
            let j = find_path(&r, &p);
            proof {
                lemma_index_of_path(r@, p@);
            }
            if j < r.len() {
                proof {
                    lemma_as_map_update(r@, j as int, *x);
                }
                r.set(j, clone_pair(x));
                proof {
                    if has_bin {
                        assert(j != 0);
                    }
                }
            } else {
                proof {
                    lemma_as_map_push_new(r@, *x);
                }
                r.push(clone_pair(x));
            }
            proof {
                assert(as_map(r@) == as_map(before).insert(x.0@, x.1@));
                match binary {
                    Some(b) => {
                        assert(x.0@ != b.0@);
                        assert(as_map(r@) =~= as_map(others@.take(i + 1)).insert(b.0@, b.1@));
                    },
                    None => {},
                }
            }
        }
        i += 1;
    }
    assert(others@.take(others@.len() as int) =~= others@);
    r
}

/// Where a downloaded file is installed, relative to the application
/// directory: the binary under its platform name, any other file under its
/// own path.
pub open spec fn install_name(rel_path: Seq<char>, binary: Option<BinaryEntry>, os: Seq<char>) -> Seq<char> {
    match binary {
        Some(b) => if rel_path == b.path@ {
            final_binary_name(b.path@, os)
        } else {
            rel_path
        },
        None => rel_path,
    }
}

/// The installation path of a downloaded file (see `install_name`).
pub fn install_target_name(rel_path: &str, binary: Option<&BinaryEntry>, os: &str) -> (r: Result<String, String>)
    ensures
        r matches Ok(n) && n@ == install_name(
            rel_path@,
            match binary {
                Some(b) => Some(*b),
                None => None,
            },
            os@,
        ),
{
    match binary {
        Some(b) => {
            if chars_equal(&str_chars(rel_path), &str_chars(b.path.as_str())) {
                match determine_final_binary_name(b.path.as_str(), os) {
                    Ok(n) => Ok(n),
                    Err(e) => Err(e),
                }
            } else {
                Ok(String::from_str(rel_path))
            }
        },
        None => Ok(String::from_str(rel_path)),
    }
}

/// `当前系统不受支持，且服务器上未找到可用的压缩包。`
pub open spec fn no_package_message() -> Seq<char> {
    "当前系统不受支持，且服务器上未找到可用的压缩包。"@
}

/// The compressed package used on a platform without a binary of its own;
/// an error when the manifest has none.
pub fn package_for_unsupported_platform(manifest: &Manifest) -> (r: Result<&CompressedPackageEntry, String>)
    ensures
        manifest.compressed_package matches Some(p) ==> r == Ok::<&CompressedPackageEntry, String>(&p),
        manifest.compressed_package is None ==> (r matches Err(m) && m@ == no_package_message()),
{
    match &manifest.compressed_package {
        Some(p) => Ok(p),
        None => Err(String::from_str("当前系统不受支持，且服务器上未找到可用的压缩包。")),
    }
}

/// The local version record after an application update: the installed
/// version, the channel, and the major version of its manifest; the data
/// version is kept by the data update.
pub fn installed_version_record(target_version: &str, channel: &str, major: Option<u32>) -> (r: LocalVersionInfo)
    ensures
        r.version matches Some(v) && v@ == target_version@,
        r.major_version is None,
        r.channel@ == channel@,
        r.last_checked_version matches Some(v) && v@ == target_version@,
        r.last_checked_major == major,
        r.data_version is None,
{
    LocalVersionInfo {
        version: Some(String::from_str(target_version)),
        major_version: None,
        channel: String::from_str(channel),
        last_checked_version: Some(String::from_str(target_version)),
        last_checked_major: major,
        data_version: None,
    }
}

} // verus!
