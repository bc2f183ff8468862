//! Version directories of the update server: which links of the directory
//! listing name a version, and the newest-first order of the directories.

use vstd::prelude::*;
use crate::text::{lemma_insert_to_multiset, str_chars, views};
use crate::update::download::VersionDirectory;

verus! {

/// The links of an HTML directory listing: capture group 1 is the target of
/// an `<a href=...>` that holds no `/`, quote, space or `>`.
pub const HREF_PATTERN: &'static str = r#"(?i)<a\s+[^>]*href\s*=\s*["']([^"'/\s>]+)[^>]*>"#;

/// The name of a version directory: `v<major>.<minor>.<patch>`.
pub const VERSION_DIR_PATTERN: &'static str = r"^v\d+\.\d+\.\d+$";

/// What `regex::Regex::new(pattern)` followed by `captures_iter(text)`
/// yields for capture group `group`: one entry per match, in order, `None`
/// where the group did not take part in the match; `None` as a whole when
/// the pattern does not compile.
pub uninterp spec fn regex_group_captures(pattern: Seq<char>, text: Seq<char>, group: nat) -> Option<Seq<Option<Seq<char>>>>;

/// What `regex::Regex::new(pattern)` followed by `is_match(text)` returns;
/// `None` when the pattern does not compile.
pub uninterp spec fn regex_is_match(pattern: Seq<char>, text: Seq<char>) -> Option<bool>;

/// The character sequences of optional strings.
pub open spec fn opt_views(s: Seq<Option<String>>) -> Seq<Option<Seq<char>>> {
    s.map_values(|o: Option<String>| match o {
        Some(x) => Some(x@),
        None => None,
    })
}

/// Calls `regex::Regex::new(pattern)` and collects group `group` of every
/// match of `captures_iter(text)`; the contract equates the result with
/// `regex_group_captures` and says nothing more of it. A pattern that does
/// not compile gives the regex error's text.
#[verifier::external_body]
fn regex_captures(pattern: &str, text: &str, group: usize) -> (r: Result<Vec<Option<String>>, String>)
    ensures
        r is Err <==> regex_group_captures(pattern@, text@, group as nat) is None,
        r matches Ok(v) ==> regex_group_captures(pattern@, text@, group as nat) == Some(opt_views(v@)),
{
    match regex::Regex::new(pattern) {
        Ok(re) => {
            let mut out: Vec<Option<String>> = Vec::new();
            for caps in re.captures_iter(text) {
                out.push(caps.get(group).map(|m| m.as_str().to_string()));
            }
            Ok(out)
        },
        Err(e) => Err(e.to_string()),
    }
}

/// Calls `regex::Regex::new(pattern)` and then `is_match(text)`; the
/// contract equates the result with `regex_is_match` and says nothing more.
#[verifier::external_body]
fn regex_matches(pattern: &str, text: &str) -> (r: Option<bool>)
    ensures
        r == regex_is_match(pattern@, text@),
{
    match regex::Regex::new(pattern) {
        Ok(re) => Some(re.is_match(text)),
        Err(_) => None,
    }
}

/// A link names a version directory: it starts with `v` and matches
/// `VERSION_DIR_PATTERN`.
pub open spec fn is_version_dir_name(s: Seq<char>) -> bool {
    s.len() > 0 && s[0] == 'v' && regex_is_match(VERSION_DIR_PATTERN@, s) == Some(true)
}

/// The version directory names among the links, in order.
pub open spec fn version_links(links: Seq<Option<Seq<char>>>) -> Seq<Seq<char>>
    decreases links.len(),
{
    if links.len() == 0 {
        Seq::empty()
    } else {
        let r = version_links(links.drop_last());
        match links.last() {
            Some(s) => if is_version_dir_name(s) {
                r.push(s)
            } else {
                r
            },
            None => r,
        }
    }
}

/// Whether a link names a version directory (see `is_version_dir_name`).
pub fn is_version_dir(name: &str) -> (r: bool)
    ensures
        r == is_version_dir_name(name@),
{
    let c = str_chars(name);
    if c.len() == 0 || c[0] != 'v' {
        return false;
    }
    match regex_matches(VERSION_DIR_PATTERN, name) {
        Some(b) => b,
        None => false,
    }
}

/// The version directory names among the captured links of a listing, in
/// listing order.
pub fn version_dir_names(links: &Vec<Option<String>>) -> (r: Vec<String>)
    ensures
        views(r@) == version_links(opt_views(links@)),
{
    let mut r: Vec<String> = Vec::new();
    let mut i: usize = 0;
    while i < links.len()
        invariant
            i <= links@.len(),
            views(r@) == version_links(opt_views(links@.take(i as int))),
        decreases links.len() - i,
    {
        proof {
            assert(opt_views(links@.take(i + 1)).drop_last() =~= opt_views(links@.take(i as int)));
        }
        match &links[i] {
            Some(name) => {
                if is_version_dir(name.as_str()) {
                    r.push(name.clone());
                    assert(views(r@) =~= version_links(opt_views(links@.take(i as int))).push(name@));
                }
            },
            None => {},
        }
        i += 1;
    }
    assert(links@.take(links@.len() as int) =~= links@);
    r
}

/// The version directory names linked from the body of a directory listing
/// page, in page order; an error when the link pattern does not compile.
pub fn version_dir_candidates(body: &str) -> (r: Result<Vec<String>, String>)
    ensures
        r is Err <==> regex_group_captures(HREF_PATTERN@, body@, 1) is None,
        r matches Ok(v) ==> views(v@) == version_links(regex_group_captures(HREF_PATTERN@, body@, 1)->0),
{
    match regex_captures(HREF_PATTERN, body, 1) {
        Ok(links) => Ok(version_dir_names(&links)),
        Err(e) => Err(e),
    }
}

/// An ASCII decimal digit.
pub open spec fn is_ascii_digit(c: char) -> bool {
    '0' <= c <= '9'
}

/// The number written by a sequence of decimal digits (0 for the empty one).
pub open spec fn chars_value(s: Seq<char>) -> nat
    decreases s.len(),
{
    if s.len() == 0 {
        0
    } else {
        chars_value(s.drop_last()) * 10 + (s.last() as int - 48) as nat
    }
}

/// A version number field: one or more ASCII digits whose value fits in
/// 64 bits.
pub open spec fn number_field(s: Seq<char>) -> Option<u64> {
    if s.len() > 0 && (forall|i: int| 0 <= i < s.len() ==> is_ascii_digit(#[trigger] s[i])) && chars_value(s)
        <= u64::MAX {
        Some(chars_value(s) as u64)
    } else {
        None
    }
}

/// Index of the first `.` in `s`, or `s.len()` if there is none.
pub open spec fn first_dot(s: Seq<char>) -> nat
    decreases s.len(),
{
    if s.len() == 0 {
        0
    } else if s[0] == '.' {
        0
    } else {
        1 + first_dot(s.drop_first())
    }
}

/// The version `(major, minor, patch)` named by a directory name
/// `v<major>.<minor>.<patch>` (ASCII digits, each number within 64 bits);
/// `None` for any other name.
pub open spec fn version_key(name: Seq<char>) -> Option<(u64, u64, u64)> {
    if name.len() == 0 || name[0] != 'v' {
        None
    } else {
        let t = name.drop_first();
        let p = first_dot(t);
        let u = t.skip(p + 1 as int);
        let q = first_dot(u);
        if p >= t.len() || q >= u.len() {
            None
        } else {
            match (number_field(t.take(p as int)), number_field(u.take(q as int)), number_field(u.skip(q + 1 as int))) {
                (Some(a), Some(b), Some(c)) => Some((a, b, c)),
                _ => None,
            }
        }
    }
}

/// Version order, oldest first: versions compare by major, then minor, then
/// patch number; a name that is no version comes before every version.
pub open spec fn version_le(x: Option<(u64, u64, u64)>, y: Option<(u64, u64, u64)>) -> bool {
    match x {
        None => true,
        Some(a) => match y {
            None => false,
            Some(b) => a.0 < b.0 || (a.0 == b.0 && (a.1 < b.1 || (a.1 == b.1 && a.2 <= b.2))),
        },
    }
}

/// The version of a directory, read from its name.
pub open spec fn dir_key(d: VersionDirectory) -> Option<(u64, u64, u64)> {
    version_key(d.dir_name@)
}

proof fn lemma_value_prefix(s: Seq<char>, i: int)
    requires
        0 <= i <= s.len(),
        forall|j: int| 0 <= j < s.len() ==> is_ascii_digit(#[trigger] s[j]),
    ensures
        chars_value(s.take(i)) <= chars_value(s),
    decreases s.len() - i,
{
    if i < s.len() {
        lemma_value_prefix(s, i + 1);
        assert(s.take(i + 1).drop_last() =~= s.take(i));
        assert(is_ascii_digit(s[i]));
    } else {
        assert(s.take(i) =~= s);
    }
}

/// Reads the number field `c[s..e]` (see `number_field`).
fn read_number_field(c: &Vec<char>, s: usize, e: usize) -> (r: Option<u64>)
    requires
        s <= e <= c@.len(),
    ensures
        r == number_field(c@.subrange(s as int, e as int)),
{
    let ghost sub = c@.subrange(s as int, e as int);
    if s == e {
        return None;
    }
    let mut i = s;
    while i < e
        invariant
            s <= i <= e <= c@.len(),
            sub == c@.subrange(s as int, e as int),
            forall|j: int| 0 <= j < i - s ==> is_ascii_digit(#[trigger] sub[j]),
        decreases e - i,
    {
        if !('0' <= c[i] && c[i] <= '9') {
            assert(!is_ascii_digit(sub[i - s]));
            return None;
        }
        i += 1;
    }
    let mut acc: u64 = 0;
    let mut i = s;
    assert(sub.take(0) =~= Seq::<char>::empty());
    while i < e
        invariant
            s <= i <= e <= c@.len(),
            sub == c@.subrange(s as int, e as int),
            forall|j: int| 0 <= j < sub.len() ==> is_ascii_digit(#[trigger] sub[j]),
            acc as nat == chars_value(sub.take(i - s)),
        decreases e - i,
    {
        let d = c[i];
        assert(is_ascii_digit(sub[i - s]));
        assert(sub.take(i - s + 1).drop_last() =~= sub.take(i - s));
        let dv: u64 = (d as u32 - 48) as u64;
        match acc.checked_mul(10) {
            None => {
                proof {
                    lemma_value_prefix(sub, i - s + 1);
                }
                return None;
            },
            Some(m) => match m.checked_add(dv) {
                None => {
                    proof {
                        lemma_value_prefix(sub, i - s + 1);
                    }
                    return None;
                },
                Some(v) => {
                    acc = v;
                },
            },
        }
        i += 1;
    }
    assert(sub.take(sub.len() as int) =~= sub);
    Some(acc)
}

/// The index of the first `.` of `c` at or after `s`, or the length.
fn find_dot(c: &Vec<char>, s: usize) -> (r: usize)
    requires
        s <= c@.len(),
    ensures
        s <= r <= c@.len(),
        r - s == first_dot(c@.subrange(s as int, c@.len() as int)),
{
    let mut i = s;
    while i < c.len() && c[i] != '.'
        invariant
            s <= i <= c@.len(),
            first_dot(c@.subrange(s as int, c@.len() as int)) == (i - s) + first_dot(
                c@.subrange(i as int, c@.len() as int),
            ),
        decreases c.len() - i,
    {
        assert(c@.subrange(i as int, c@.len() as int).drop_first() =~= c@.subrange(i + 1, c@.len() as int));
        i += 1;
    }
    i
}

/// The version named by a directory name (see `version_key`).
pub fn version_of(name: &str) -> (r: Option<(u64, u64, u64)>)
    ensures
        r == version_key(name@),
{
    let c = str_chars(name);
    let n = c.len();
    if n == 0 || c[0] != 'v' {
        return None;
    }
    let ghost t = name@.drop_first();
    assert(t =~= c@.subrange(1, n as int));
    let pa = find_dot(&c, 1);
    if pa >= n {
        return None;
    }
    let ghost p = first_dot(t);
    let ghost u = t.skip(p + 1 as int);
    assert(u =~= c@.subrange(pa + 1, n as int));
    let qa = find_dot(&c, pa + 1);
    if qa >= n {
        return None;
    }
    let ghost q = first_dot(u);
    assert(t.take(p as int) =~= c@.subrange(1, pa as int));
    assert(u.take(q as int) =~= c@.subrange(pa + 1, qa as int));
    assert(u.skip(q + 1 as int) =~= c@.subrange(qa + 1, n as int));
    let a = read_number_field(&c, 1, pa);
    let b = read_number_field(&c, pa + 1, qa);
    let d = read_number_field(&c, qa + 1, n);
    match (a, b, d) {
        (Some(a), Some(b), Some(d)) => Some((a, b, d)),
        _ => None,
    }
}

/// Whether version `x` is older than or the same as `y` (see `version_le`).
fn version_le_exec(x: Option<(u64, u64, u64)>, y: Option<(u64, u64, u64)>) -> (r: bool)
    ensures
        r == version_le(x, y),
{
    match x {
        None => true,
        Some(a) => match y {
            None => false,
            Some(b) => a.0 < b.0 || (a.0 == b.0 && (a.1 < b.1 || (a.1 == b.1 && a.2 <= b.2))),
        },
    }
}

/// Newest first: each directory's version is not older than that of any
/// directory after it.
pub open spec fn newest_first(s: Seq<VersionDirectory>) -> bool {
    forall|a: int, b: int| 0 <= a < b < s.len() ==> version_le(#[trigger] dir_key(s[b]), #[trigger] dir_key(s[a]))
}

/// The predicate "has version `k`".
pub open spec fn versioned(k: Option<(u64, u64, u64)>) -> spec_fn(VersionDirectory) -> bool {
    |d: VersionDirectory| dir_key(d) == k
}

/// The directories of version `k`, in order.
pub open spec fn with_version(s: Seq<VersionDirectory>, k: Option<(u64, u64, u64)>) -> Seq<VersionDirectory> {
    s.filter(versioned(k))
}

proof fn lemma_filter_insert(r: Seq<VersionDirectory>, p: int, d: VersionDirectory, k: Option<(u64, u64, u64)>)
    requires
        0 <= p <= r.len(),
        dir_key(d) == k ==> forall|q: int| p <= q < r.len() ==> dir_key(r[q]) != k,
    ensures
        with_version(r.insert(p, d), k) == if dir_key(d) == k {
            with_version(r, k).push(d)
        } else {
            with_version(r, k)
        },
{
    broadcast use vstd::seq_lib::group_filter_ensures;
    let f = versioned(k);
    let a = r.take(p);
    let b = r.skip(p);
    assert(r =~= a + b);
    assert(r.insert(p, d) =~= a.push(d) + b);
    Seq::filter_distributes_over_add(a, b, f);
    Seq::filter_distributes_over_add(a.push(d), b, f);
    a.lemma_filter_push(d, f);
    if dir_key(d) == k {
        assert forall|q: int| 0 <= q < b.len() implies !f(#[trigger] b[q]) by {
            assert(b[q] == r[p + q]);
        }
        b.lemma_all_neg_filter_empty(f);
        assert(b.filter(f) =~= Seq::<VersionDirectory>::empty());
        assert(a.filter(f) + b.filter(f) =~= a.filter(f));
        assert(a.filter(f).push(d) + b.filter(f) =~= a.filter(f).push(d));
    }
}

/// Sorts version directories newest first: by the version that each name
/// states, major, then minor, then patch number, compared as integers and
/// descending; names that state no version come last. Directories of the
/// same version keep their listing order.
pub fn sort_version_directories(dirs: Vec<VersionDirectory>) -> (r: Vec<VersionDirectory>)
    ensures
        r@.to_multiset() == dirs@.to_multiset(),
        newest_first(r@),
        forall|k: Option<(u64, u64, u64)>| #[trigger] with_version(r@, k) == with_version(dirs@, k),
{
    broadcast use vstd::seq_lib::group_to_multiset_ensures;
    let ghost all = dirs@;
    let mut rest = dirs;
    let mut r: Vec<VersionDirectory> = Vec::new();
    let n = rest.len();
    let mut i: usize = 0;
    assert(all.skip(0) =~= all);
    while i < n
        invariant
            n == all.len(),
            i <= n,
            rest@ == all.skip(i as int),
            r@.to_multiset() == all.take(i as int).to_multiset(),
            newest_first(r@),
            forall|k: Option<(u64, u64, u64)>| #[trigger] with_version(r@, k) == with_version(all.take(i as int), k),
        decreases n - i,
    {
        let d = rest.remove(0);
        assert(rest@ =~= all.skip(i + 1));
        assert(d == all[i as int]);
        let dk = version_of(d.dir_name.as_str());
        let mut p: usize = 0;
        while p < r.len() && version_le_exec(dk, version_of(r[p].dir_name.as_str()))
            invariant
                p <= r@.len(),
                dk == dir_key(d),
                forall|q: int| 0 <= q < p ==> version_le(dir_key(d), #[trigger] dir_key(r@[q])),
            decreases r.len() - p,
        {
            p += 1;
        }
        let ghost old_r = r@;
        proof {
            assert forall|q: int| p <= q < old_r.len() implies #[trigger] dir_key(old_r[q]) != dir_key(d) by {
                if dir_key(old_r[q]) == dir_key(d) {
                    if q > p {
                        assert(version_le(dir_key(old_r[q]), dir_key(old_r[p as int])));
                    }
                    assert(version_le(dir_key(d), dir_key(old_r[p as int])));
                }
            }
        }
        r.insert(p, d);
        proof {
            assert(r@ == old_r.insert(p as int, d));
            old_r.insert_ensures(p as int, d);
            let w = r@;
            assert forall|a: int, b: int| 0 <= a < b < w.len() implies version_le(
                #[trigger] dir_key(w[b]),
                #[trigger] dir_key(w[a]),
            ) by {
                if b < p {
                    assert(w[a] == old_r[a] && w[b] == old_r[b]);
                } else if b == p {
                    assert(w[a] == old_r[a]);
                } else if a == p {
                    assert(w[b] == old_r[b - 1]);
                    if b - 1 > p {
                        assert(version_le(dir_key(old_r[b - 1]), dir_key(old_r[p as int])));
                    }
                } else if a < p {
                    assert(w[a] == old_r[a] && w[b] == old_r[b - 1]);
                } else {
                    assert(w[a] == old_r[a - 1] && w[b] == old_r[b - 1]);
                }
            }
            lemma_insert_to_multiset(old_r, p as int, d);
            assert(all.take(i + 1) =~= all.take(i as int).push(d));
            all.take(i as int).to_multiset_ensures();
            assert forall|k: Option<(u64, u64, u64)>| #[trigger] with_version(w, k) == with_version(all.take(i + 1), k) by {
                lemma_filter_insert(old_r, p as int, d, k);
                all.take(i as int).lemma_filter_push(d, versioned(k));
            }
        }
        i += 1;
    }
    assert(all.take(n as int) =~= all);
    r
}

proof fn lemma_first_dot_after(a: Seq<char>, b: Seq<char>)
    requires
        forall|i: int| 0 <= i < a.len() ==> is_ascii_digit(#[trigger] a[i]),
    ensures
        first_dot(a + b) == a.len() + first_dot(b),
    decreases a.len(),
{
    if a.len() > 0 {
        assert(is_ascii_digit(a[0]));
        assert((a + b).drop_first() =~= a.drop_first() + b);
        lemma_first_dot_after(a.drop_first(), b);
    } else {
        assert(a + b =~= b);
    }
}

/// The name `v<major>.<minor>.<patch>` states the version whose major,
/// minor and patch numbers are the values of its three digit groups, in
/// that order.
pub proof fn lemma_version_key_of(major: Seq<char>, minor: Seq<char>, patch: Seq<char>)
    requires
        number_field(major) is Some,
        number_field(minor) is Some,
        number_field(patch) is Some,
    ensures
        version_key(seq!['v'] + major + seq!['.'] + minor + seq!['.'] + patch) == Some(
            (chars_value(major) as u64, chars_value(minor) as u64, chars_value(patch) as u64),
        ),
{
    let name = seq!['v'] + major + seq!['.'] + minor + seq!['.'] + patch;
    let t = name.drop_first();
    let rest = seq!['.'] + minor + seq!['.'] + patch;
    assert(t =~= major + rest);
    lemma_first_dot_after(major, rest);
    assert(first_dot(rest) == 0);
    let p = first_dot(t);
    assert(p == major.len());
    assert(t.take(p as int) =~= major);
    let u = t.skip(p + 1 as int);
    let rest2 = seq!['.'] + patch;
    assert(u =~= minor + rest2);
    lemma_first_dot_after(minor, rest2);
    assert(first_dot(rest2) == 0);
    let q = first_dot(u);
    assert(u.take(q as int) =~= minor);
    assert(u.skip(q + 1 as int) =~= patch);
}

} // verus!
