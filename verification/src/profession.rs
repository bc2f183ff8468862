//! Profession data files: file name rules and the profession list.

use vstd::prelude::*;
use crate::text::{char_index, chars_equal, chars_to_string, ends_with_chars, extension_text, file_extension, find_char, has_suffix, join_path, join_path_exec, push_all, str_chars, take_chars};
use crate::xinfa::{VersionInfo, XinfaSummary};

verus! {

pub open spec fn toml_suffix() -> Seq<char> {
    seq!['.', 't', 'o', 'm', 'l']
}

/// The group a profession data file belongs to: the file name without
/// `.toml`, up to its first `_`.  Files that are not `.toml`, and files whose
/// name starts with `_`, belong to no group.
pub open spec fn group_key_of(file_name: Seq<char>) -> Option<Seq<char>> {
    if !has_suffix(file_name, toml_suffix()) {
        None
    } else {
        let stem = file_name.take(file_name.len() - 5);
        if stem.len() > 0 && stem[0] == '_' {
            None
        } else {
            Some(stem.take(char_index(stem, '_') as int))
        }
    }
}

fn toml_suffix_chars() -> (r: Vec<char>)
    ensures
        r@ == toml_suffix(),
{
    let mut r: Vec<char> = Vec::new();
    r.push('.');
    r.push('t');
    r.push('o');
    r.push('m');
    r.push('l');
    assert(r@ =~= toml_suffix());
    r
}

/// The group key of a profession data file name.
pub fn group_key(filename: &str) -> (r: Option<String>)
    ensures
        match group_key_of(filename@) {
            Some(k) => r matches Some(s) && s@ == k,
            None => r is None,
        },
{
    let f = str_chars(filename);
    let suffix = toml_suffix_chars();
    if !ends_with_chars(&f, &suffix) {
        return None;
    }
    let stem = take_chars(&f, f.len() - 5);
    if stem.len() > 0 && stem[0] == '_' {
        return None;
    }
    let cut = find_char(&stem, '_');
    let key = take_chars(&stem, cut);
    Some(chars_to_string(&key))
}

/// The group of an entry of the data directory: its group key when its
/// extension is `toml`, none otherwise.
pub open spec fn profession_file_key_of(file_name: Seq<char>) -> Option<Seq<char>> {
    if extension_text(file_name) == "toml"@ {
        group_key_of(file_name)
    } else {
        None
    }
}

/// The group of an entry of the data directory (see
/// `profession_file_key_of`).
pub fn profession_file_key(file_name: &str) -> (r: Option<String>)
    ensures
        match profession_file_key_of(file_name@) {
            Some(k) => r matches Some(s) && s@ == k,
            None => r is None,
        },
{
    if chars_equal(&file_extension(file_name), &str_chars("toml")) {
        group_key(file_name)
    } else {
        None
    }
}

pub open spec fn profession_char_ok(c: char) -> bool {
    ('a' <= c <= 'z') || ('A' <= c <= 'Z') || ('0' <= c <= '9') || c == '_' || c == '-'
}

/// Whether a profession file name (without `.toml`) may be read or written.
pub open spec fn profession_name_ok(name: Seq<char>) -> bool {
    &&& name.len() > 0
    &&& name[0] != '_'
    &&& name != seq!['.']
    &&& name != seq!['.', '.']
    &&& forall|i: int| 0 <= i < name.len() ==> profession_char_ok(#[trigger] name[i])
}

pub open spec fn invalid_profession_message() -> Seq<char> {
    seq!['心', '法', '文', '件', '名', '无', '效']
}

/// Checks a profession file name: non-empty, not starting with `_`, not `.`
/// or `..`, and made of ASCII letters, digits, `_` and `-` only.
pub fn validate_profession_name(profession: &str) -> (r: Result<(), String>)
    ensures
        profession_name_ok(profession@) ==> r is Ok,
        !profession_name_ok(profession@) ==> (r matches Err(m) && m@ == invalid_profession_message()),
{
    let p = str_chars(profession);
    let mut ok = p.len() > 0 && p[0] != '_';
    if ok && p.len() == 1 && p[0] == '.' {
        ok = false;
    }
    if ok && p.len() == 2 && p[0] == '.' && p[1] == '.' {
        ok = false;
    }
    let mut i: usize = 0;
    while ok && i < p.len()
        invariant
            i <= p@.len(),
            ok ==> forall|k: int| 0 <= k < i ==> profession_char_ok(#[trigger] p@[k]),
            !ok ==> !profession_name_ok(p@),
            ok ==> p@.len() > 0 && p@[0] != '_' && p@ != seq!['.'] && p@ != seq!['.', '.'],
        decreases p.len() - i,
    {
        let c = p[i];
        if !(('a' <= c && c <= 'z') || ('A' <= c && c <= 'Z') || ('0' <= c && c <= '9') || c == '_' || c == '-') {
            ok = false;
        }
        i += 1;
    }
    if ok {
        Ok(())
    } else {
        let mut m: Vec<char> = Vec::new();
        m.push('心');
        m.push('法');
        m.push('文');
        m.push('件');
        m.push('名');
        m.push('无');
        m.push('效');
        assert(m@ =~= invalid_profession_message());
        Err(chars_to_string(&m))
    }
}

/// The data file of a profession in the data directory `dir`:
/// `<dir>/<profession>.toml`.
pub open spec fn profession_path_text(dir: Seq<char>, profession: Seq<char>) -> Seq<char> {
    join_path(dir, profession + toml_suffix())
}

/// The data file of a profession, for the attribute editor; an error when
/// the name is not a valid profession file name.
pub fn attribute_config_path(dir: &str, profession: &str) -> (r: Result<String, String>)
    ensures
        profession_name_ok(profession@) ==> (r matches Ok(p) && p@ == profession_path_text(dir@, profession@)),
        !profession_name_ok(profession@) ==> (r matches Err(m) && m@ == invalid_profession_message()),
{
    match validate_profession_name(profession) {
        Err(e) => Err(e),
        Ok(()) => {
            let mut f = str_chars(profession);
            push_all(&mut f, &toml_suffix_chars());
            let file = chars_to_string(&f);
            Ok(join_path_exec(dir, file.as_str()))
        },
    }
}

/// The characters that `char::is_whitespace` accepts (the Unicode
/// `White_Space` property).
pub open spec fn is_white_space(c: char) -> bool {
    ('\u{9}' <= c <= '\u{d}') || c == ' ' || c == '\u{85}' || c == '\u{a0}' || c == '\u{1680}' || ('\u{2000}'
        <= c <= '\u{200a}') || c == '\u{2028}' || c == '\u{2029}' || c == '\u{202f}' || c == '\u{205f}' || c
        == '\u{3000}'
}

/// Text that is empty once trimmed: white space only.
pub open spec fn is_blank_text(s: Seq<char>) -> bool {
    forall|i: int| 0 <= i < s.len() ==> is_white_space(#[trigger] s[i])
}

fn is_blank_exec(s: &str) -> (r: bool)
    ensures
        r == is_blank_text(s@),
{
    let c = str_chars(s);
    let mut i: usize = 0;
    while i < c.len()
        invariant
            i <= c@.len(),
            c@ == s@,
            forall|k: int| 0 <= k < i ==> is_white_space(#[trigger] c@[k]),
        decreases c.len() - i,
    {
        let x = c[i];
        if !(('\u{9}' <= x && x <= '\u{d}') || x == ' ' || x == '\u{85}' || x == '\u{a0}' || x == '\u{1680}' || (
        '\u{2000}' <= x && x <= '\u{200a}') || x == '\u{2028}' || x == '\u{2029}' || x == '\u{202f}' || x
            == '\u{205f}' || x == '\u{3000}') {
            return false;
        }
        i += 1;
    }
    true
}

/// `配置缺少 [xinfa] 心法信息`.
pub open spec fn missing_xinfa_message() -> Seq<char> {
    "配置缺少 [xinfa] 心法信息"@
}

/// `配置至少需要一个 [[skill]] 技能条目`.
pub open spec fn missing_skill_message() -> Seq<char> {
    "配置至少需要一个 [[skill]] 技能条目"@
}

/// Checks an edited profession file before it is saved: the profession's
/// name and base attribute must not be blank, and there must be a skill.
pub fn check_attribute_config(xinfa_name: &str, xinfa_nom: &str, skill_count: usize) -> (r: Result<(), String>)
    ensures
        (is_blank_text(xinfa_name@) || is_blank_text(xinfa_nom@)) ==> (r matches Err(m) && m@
            == missing_xinfa_message()),
        !(is_blank_text(xinfa_name@) || is_blank_text(xinfa_nom@)) && skill_count == 0 ==> (r matches Err(m) && m@
            == missing_skill_message()),
        !(is_blank_text(xinfa_name@) || is_blank_text(xinfa_nom@)) && skill_count > 0 ==> r is Ok,
{
    if is_blank_exec(xinfa_name) || is_blank_exec(xinfa_nom) {
        return Err(String::from_str("配置缺少 [xinfa] 心法信息"));
    }
    if skill_count == 0 {
        return Err(String::from_str("配置至少需要一个 [[skill]] 技能条目"));
    }
    Ok(())
}

/// Version order: by level, then season, then modification date.
pub open spec fn version_before(a: VersionInfo, b: VersionInfo) -> bool {
    a.level < b.level || (a.level == b.level && (a.season < b.season || (a.season == b.season
        && a.modified < b.modified)))
}

/// Candidate `i` is the one kept for its group: every earlier candidate of
/// the group has an older version, and no later one has a newer version.
#[verifier::opaque]
pub open spec fn is_group_pick(s: Seq<XinfaSummary>, i: int) -> bool {
    &&& forall|j: int|
        0 <= j < i && #[trigger] s[j].value@ == s[i].value@ ==> version_before(s[j].version, s[i].version)
    &&& forall|j: int|
        i < j < s.len() && #[trigger] s[j].value@ == s[i].value@ ==> !version_before(s[i].version, s[j].version)
}

/// The kept candidates among the first `n`, in their original order.
pub open spec fn group_picks(s: Seq<XinfaSummary>, n: int) -> Seq<XinfaSummary>
    decreases n,
{
    if n <= 0 {
        Seq::empty()
    } else if is_group_pick(s, n - 1) {
        group_picks(s, n - 1).push(s[n - 1])
    } else {
        group_picks(s, n - 1)
    }
}

fn version_before_exec(a: VersionInfo, b: VersionInfo) -> (r: bool)
    ensures
        r == version_before(a, b),
{
    a.level < b.level || (a.level == b.level && (a.season < b.season || (a.season == b.season
        && a.modified < b.modified)))
}

/// The profession list: for each group of candidate files (same `value`),
/// the one with the newest data version; among equally new ones, the first.
pub fn get_xinfa_list(candidates: &Vec<XinfaSummary>) -> (r: Vec<XinfaSummary>)
    ensures
        r@ == profession_list(candidates@),
{
    let ghost s = candidates@;
    let n = candidates.len();
    let mut r: Vec<XinfaSummary> = Vec::new();
    let mut i: usize = 0;
    while i < n
        invariant
            n == s.len(),
            s == candidates@,
            i <= n,
            r@ == group_picks(s, i as int),
        decreases n - i,
    {
        let mut pick = true;
        let mut j: usize = 0;
        while j < n
            invariant
                n == s.len(),
                s == candidates@,
                i < n,
                j <= n,
                pick ==> forall|k: int|
                    0 <= k < j && k < i && #[trigger] s[k].value@ == s[i as int].value@ ==> version_before(
                        s[k].version,
                        s[i as int].version,
                    ),
                pick ==> forall|k: int|
                    i < k < j && #[trigger] s[k].value@ == s[i as int].value@ ==> !version_before(
                        s[i as int].version,
                        s[k].version,
                    ),
                !pick ==> !is_group_pick(s, i as int),
            decreases n - j,
        {
            proof {
                reveal(is_group_pick);
            }
            if j != i && candidates[j].value == candidates[i].value {
                if j < i && !version_before_exec(candidates[j].version, candidates[i].version) {
                    pick = false;
                }
                if j > i && version_before_exec(candidates[i].version, candidates[j].version) {
                    pick = false;
                }
            }
            j += 1;
        }
        proof {
            reveal(is_group_pick);
        }
        if pick {
            r.push(candidates[i].clone());
        }
        i += 1;
    }
    r
}

/// Index of the newest candidate with value `v` among the first `n` (the
/// first of the newest), or -1.
pub open spec fn newest_index(s: Seq<XinfaSummary>, v: Seq<char>, n: int) -> int
    decreases n,
{
    if n <= 0 {
        -1
    } else {
        let t = newest_index(s, v, n - 1);
        if s[n - 1].value@ == v && (t < 0 || version_before(s[t].version, s[n - 1].version)) {
            n - 1
        } else {
            t
        }
    }
}

proof fn lemma_newest_index(s: Seq<XinfaSummary>, v: Seq<char>, n: int)
    requires
        0 <= n <= s.len(),
    ensures
        -1 <= newest_index(s, v, n) < n,
        newest_index(s, v, n) >= 0 ==> s[newest_index(s, v, n)].value@ == v,
        newest_index(s, v, n) < 0 ==> forall|j: int| 0 <= j < n ==> #[trigger] s[j].value@ != v,
        newest_index(s, v, n) >= 0 ==> forall|j: int|
            0 <= j < n && #[trigger] s[j].value@ == v ==> !version_before(
                s[newest_index(s, v, n)].version,
                s[j].version,
            ),
        newest_index(s, v, n) >= 0 ==> forall|j: int|
            0 <= j < newest_index(s, v, n) && #[trigger] s[j].value@ == v ==> version_before(
                s[j].version,
                s[newest_index(s, v, n)].version,
            ),
    decreases n,
{
    if n > 0 {
        lemma_newest_index(s, v, n - 1);
    }
}

/// Source positions of the kept candidates among the first `n`.
pub open spec fn pick_indices(s: Seq<XinfaSummary>, n: int) -> Seq<int>
    decreases n,
{
    if n <= 0 {
        Seq::empty()
    } else if is_group_pick(s, n - 1) {
        pick_indices(s, n - 1).push(n - 1)
    } else {
        pick_indices(s, n - 1)
    }
}

proof fn lemma_pick_indices(s: Seq<XinfaSummary>, n: int)
    requires
        0 <= n <= s.len(),
    ensures
        pick_indices(s, n).len() == group_picks(s, n).len(),
        forall|k: int|
            #![trigger pick_indices(s, n)[k]]
            0 <= k < pick_indices(s, n).len() ==> 0 <= pick_indices(s, n)[k] < n && is_group_pick(
                s,
                pick_indices(s, n)[k],
            ) && group_picks(s, n)[k] == s[pick_indices(s, n)[k]],
        forall|k1: int, k2: int|
            0 <= k1 < k2 < pick_indices(s, n).len() ==> #[trigger] pick_indices(s, n)[k1]
                < #[trigger] pick_indices(s, n)[k2],
        forall|t: int|
            0 <= t < n && is_group_pick(s, t) ==> exists|k: int|
                0 <= k < pick_indices(s, n).len() && #[trigger] pick_indices(s, n)[k] == t,
    decreases n,
{
    if n > 0 {
        lemma_pick_indices(s, n - 1);
        let a = pick_indices(s, n - 1);
        let b = pick_indices(s, n);
        if is_group_pick(s, n - 1) {
            assert forall|t: int| 0 <= t < n && is_group_pick(s, t) implies exists|k: int|
                0 <= k < b.len() && #[trigger] b[k] == t by {
                if t == n - 1 {
                    assert(b[a.len() as int] == t);
                } else {
                    let k = choose|k: int| 0 <= k < a.len() && #[trigger] a[k] == t;
                    assert(b[k] == t);
                }
            }
        }
    }
}

/// The profession list of a sequence of candidates.
pub open spec fn profession_list(s: Seq<XinfaSummary>) -> Seq<XinfaSummary> {
    group_picks(s, s.len() as int)
}

/// The profession list has exactly one entry per group of candidates; each
/// entry is one of the candidates, and no candidate of its group is newer.
pub proof fn lemma_profession_list_per_group(s: Seq<XinfaSummary>)
    ensures
        forall|i: int|
            #![trigger s[i]]
            0 <= i < s.len() ==> exists|k: int|
                #![trigger profession_list(s)[k]]
                0 <= k < profession_list(s).len() && profession_list(s)[k].value@ == s[i].value@
                    && !version_before(profession_list(s)[k].version, s[i].version),
        forall|k1: int, k2: int|
            0 <= k1 < k2 < profession_list(s).len() ==> #[trigger] profession_list(s)[k1].value@
                != #[trigger] profession_list(s)[k2].value@,
        forall|k: int|
            #![trigger profession_list(s)[k]]
            0 <= k < profession_list(s).len() ==> exists|i: int|
                #![trigger s[i]]
                0 <= i < s.len() && profession_list(s)[k] == s[i],
{
    let n = s.len() as int;
    let r = profession_list(s);
    lemma_pick_indices(s, n);
    let idx = pick_indices(s, n);
    assert forall|k: int| #![trigger r[k]] 0 <= k < r.len() implies exists|i: int|
        #![trigger s[i]]
        0 <= i < s.len() && r[k] == s[i] by {
        let i = idx[k];
        assert(r[k] == s[i]);
    }
    assert forall|k1: int, k2: int| 0 <= k1 < k2 < r.len() implies #[trigger] r[k1].value@
        != #[trigger] r[k2].value@ by {
        let i1 = idx[k1];
        let i2 = idx[k2];
        assert(i1 < i2);
        assert(is_group_pick(s, i1));
        assert(is_group_pick(s, i2));
        if s[i1].value@ == s[i2].value@ {
            reveal(is_group_pick);
            assert(version_before(s[i1].version, s[i2].version));
            assert(!version_before(s[i1].version, s[i2].version));
        }
    }
    assert forall|i: int| #![trigger s[i]] 0 <= i < s.len() implies exists|k: int|
        #![trigger r[k]]
        0 <= k < r.len() && r[k].value@ == s[i].value@ && !version_before(r[k].version, s[i].version) by {
        let v = s[i].value@;
        lemma_newest_index(s, v, n);
        let t = newest_index(s, v, n);
        assert(t >= 0);
        assert(is_group_pick(s, t)) by {
            reveal(is_group_pick);
        }
        let k = choose|k: int| 0 <= k < idx.len() && #[trigger] idx[k] == t;
        assert(r[k] == s[t]);
    }
}

} // verus!
