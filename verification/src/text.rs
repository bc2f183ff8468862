//! Character-level string helpers with exact specifications.

use vstd::prelude::*;

verus! {

/// The ASCII digit for a value below ten.
pub open spec fn digit_char(d: nat) -> char {
    if d == 0 { '0' }
    else if d == 1 { '1' }
    else if d == 2 { '2' }
    else if d == 3 { '3' }
    else if d == 4 { '4' }
    else if d == 5 { '5' }
    else if d == 6 { '6' }
    else if d == 7 { '7' }
    else if d == 8 { '8' }
    else { '9' }
}

/// Decimal representation of a natural number, without leading zeros.
pub open spec fn dec_digits(n: nat) -> Seq<char>
    decreases n,
{
    if n < 10 {
        seq![digit_char(n)]
    } else {
        dec_digits(n / 10).push(digit_char(n % 10))
    }
}

/// `n` in decimal, left-padded with '0' to at least `width` characters.
pub open spec fn dec_padded(n: nat, width: nat) -> Seq<char> {
    let d = dec_digits(n);
    if d.len() < width {
        Seq::new((width - d.len()) as nat, |i: int| '0') + d
    } else {
        d
    }
}

/// Calls `String::push`; the contract claims that the string's characters
/// gain `c` at the end and are otherwise unchanged.
#[verifier::external_body]
pub(crate) fn string_push(s: &mut String, c: char)
    ensures
        final(s)@ == old(s)@.push(c),
{
    s.push(c);
}

/// The characters of a string slice, in order.
pub fn str_chars(s: &str) -> (v: Vec<char>)
    ensures
        v@ == s@,
{
    let mut v: Vec<char> = Vec::new();
    for c in it: s.chars()
        invariant
            v@ == it.seq().take(it.index() as int),
            it.seq() == s@,
    {
        v.push(c);
    }
    v
}

/// Builds a string from a sequence of characters.
pub fn chars_to_string(v: &Vec<char>) -> (s: String)
    ensures
        s@ == v@,
{
    let mut s = String::new();
    let mut i: usize = 0;
    while i < v.len()
        invariant
            i <= v.len(),
            s@ == v@.take(i as int),
        decreases v.len() - i,
    {
        string_push(&mut s, v[i]);
        assert(v@.take(i + 1) == v@.take(i as int).push(v@[i as int]));
        i += 1;
    }
    assert(v@.take(v.len() as int) == v@);
    s
}

fn digit_of(d: u64) -> (c: char)
    requires
        d < 10,
    ensures
        c == digit_char(d as nat),
{
    if d == 0 { '0' }
    else if d == 1 { '1' }
    else if d == 2 { '2' }
    else if d == 3 { '3' }
    else if d == 4 { '4' }
    else if d == 5 { '5' }
    else if d == 6 { '6' }
    else if d == 7 { '7' }
    else if d == 8 { '8' }
    else { '9' }
}

/// Decimal digits of `n`.
pub fn decimal_chars(n: u64) -> (v: Vec<char>)
    ensures
        v@ == dec_digits(n as nat),
    decreases n,
{
    if n < 10 {
        let mut v = Vec::new();
        v.push(digit_of(n));
        v
    } else {
        let mut v = decimal_chars(n / 10);
        v.push(digit_of(n % 10));
        v
    }
}

/// Decimal digits of `n`, left-padded with '0' to `width` characters.
pub fn decimal_chars_padded(n: u64, width: usize) -> (v: Vec<char>)
    ensures
        v@ == dec_padded(n as nat, width as nat),
{
    let d = decimal_chars(n);
    if d.len() < width {
        let mut v: Vec<char> = Vec::new();
        let pad = width - d.len();
        let mut i: usize = 0;
        while i < pad
            invariant
                i <= pad,
                v@ == Seq::new(i as nat, |j: int| '0'),
            decreases pad - i,
        {
            v.push('0');
            i += 1;
        }
        let mut k: usize = 0;
        while k < d.len()
            invariant
                k <= d.len(),
                v@ == Seq::new(pad as nat, |j: int| '0') + d@.take(k as int),
            decreases d.len() - k,
        {
            v.push(d[k]);
            assert(d@.take(k + 1) == d@.take(k as int).push(d@[k as int]));
            k += 1;
        }
        assert(d@.take(d.len() as int) == d@);
        v
    } else {
        d
    }
}

/// Appends every character of `src` to `dst`.
pub fn push_all(dst: &mut Vec<char>, src: &Vec<char>)
    ensures
        final(dst)@ == old(dst)@ + src@,
{
    let mut i: usize = 0;
    while i < src.len()
        invariant
            i <= src.len(),
            dst@ == old(dst)@ + src@.take(i as int),
        decreases src.len() - i,
    {
        dst.push(src[i]);
        assert(src@.take(i + 1) == src@.take(i as int).push(src@[i as int]));
        i += 1;
    }
    assert(src@.take(src.len() as int) == src@);
}

/// Index of the first `c` in `s`, or `s.len()` if there is none.
pub open spec fn char_index(s: Seq<char>, c: char) -> nat
    decreases s.len(),
{
    if s.len() == 0 {
        0
    } else if s[0] == c {
        0
    } else {
        1 + char_index(s.drop_first(), c)
    }
}

pub open spec fn has_suffix(s: Seq<char>, suffix: Seq<char>) -> bool {
    suffix.len() <= s.len() && s.subrange(s.len() - suffix.len(), s.len() as int) == suffix
}

/// Position of the first `c` in `v`, or `v.len()`.
pub fn find_char(v: &Vec<char>, c: char) -> (r: usize)
    ensures
        r == char_index(v@, c),
        r <= v@.len(),
{
    let mut i: usize = 0;
    assert(v@.skip(0) =~= v@);
    while i < v.len() && v[i] != c
        invariant
            i <= v@.len(),
            char_index(v@, c) == i + char_index(v@.skip(i as int), c),
        decreases v.len() - i,
    {
        assert(v@.skip(i as int).drop_first() =~= v@.skip(i + 1));
        i += 1;
    }
    if i == v.len() {
        assert(v@.skip(i as int).len() == 0);
    }
    i
}

/// Whether `v` ends with `suffix`.
pub fn ends_with_chars(v: &Vec<char>, suffix: &Vec<char>) -> (r: bool)
    ensures
        r == has_suffix(v@, suffix@),
{
    if suffix.len() > v.len() {
        return false;
    }
    let off = v.len() - suffix.len();
    let mut j: usize = 0;
    while j < suffix.len()
        invariant
            off + suffix@.len() == v@.len(),
            off + suffix.len() == v.len(),
            j <= suffix@.len(),
            forall|k: int| 0 <= k < j ==> v@[off + k] == suffix@[k],
        decreases suffix.len() - j,
    {
        if v[off + j] != suffix[j] {
            assert(v@.subrange(off as int, v@.len() as int)[j as int] != suffix@[j as int]);
            return false;
        }
        j += 1;
    }
    assert(v@.subrange(off as int, v@.len() as int) =~= suffix@);
    true
}

/// The first `n` characters of `v`.
pub fn take_chars(v: &Vec<char>, n: usize) -> (r: Vec<char>)
    requires
        n <= v@.len(),
    ensures
        r@ == v@.take(n as int),
{
    let mut r: Vec<char> = Vec::new();
    let mut i: usize = 0;
    while i < n
        invariant
            i <= n <= v@.len(),
            r@ == v@.take(i as int),
        decreases n - i,
    {
        r.push(v[i]);
        assert(v@.take(i + 1) =~= v@.take(i as int).push(v@[i as int]));
        i += 1;
    }
    r
}

/// The characters of `v` from position `n` on.
pub fn skip_chars(v: &Vec<char>, n: usize) -> (r: Vec<char>)
    requires
        n <= v@.len(),
    ensures
        r@ == v@.skip(n as int),
{
    let mut r: Vec<char> = Vec::new();
    let mut i: usize = n;
    while i < v.len()
        invariant
            n <= i <= v@.len(),
            r@ == v@.subrange(n as int, i as int),
        decreases v.len() - i,
    {
        r.push(v[i]);
        assert(v@.subrange(n as int, i + 1) =~= v@.subrange(n as int, i as int).push(v@[i as int]));
        i += 1;
    }
    assert(v@.subrange(n as int, v@.len() as int) =~= v@.skip(n as int));
    r
}

/// Whether two character sequences are equal.
pub fn chars_equal(a: &Vec<char>, b: &Vec<char>) -> (r: bool)
    ensures
        r == (a@ == b@),
{
    if a.len() != b.len() {
        return false;
    }
    let mut i: usize = 0;
    while i < a.len()
        invariant
            a@.len() == b@.len(),
            i <= a@.len(),
            forall|k: int| 0 <= k < i ==> a@[k] == b@[k],
        decreases a.len() - i,
    {
        if a[i] != b[i] {
            return false;
        }
        i += 1;
    }
    assert(a@ =~= b@);
    true
}

/// Lexicographic order of character sequences by code point (the order of
/// `str` comparison in Rust).
pub open spec fn chars_le(a: Seq<char>, b: Seq<char>) -> bool
    decreases a.len(),
{
    if a.len() == 0 {
        true
    } else if b.len() == 0 {
        false
    } else if a[0] != b[0] {
        a[0] < b[0]
    } else {
        chars_le(a.drop_first(), b.drop_first())
    }
}

/// Code point order is total: of two strings, one comes before or equals
/// the other.
pub proof fn lemma_chars_le_total(a: Seq<char>, b: Seq<char>)
    ensures
        chars_le(a, b) || chars_le(b, a),
    decreases a.len(),
{
    if a.len() > 0 && b.len() > 0 {
        if a[0] == b[0] {
            lemma_chars_le_total(a.drop_first(), b.drop_first());
        } else {
            assert((a[0] as int) != (b[0] as int));
        }
    }
}

/// Code point order is transitive.
pub proof fn lemma_chars_le_trans(a: Seq<char>, b: Seq<char>, c: Seq<char>)
    requires
        chars_le(a, b),
        chars_le(b, c),
    ensures
        chars_le(a, c),
    decreases a.len(),
{
    if a.len() > 0 && b.len() > 0 && c.len() > 0 && a[0] == b[0] && b[0] == c[0] {
        lemma_chars_le_trans(a.drop_first(), b.drop_first(), c.drop_first());
    }
}

/// Whether `a` comes before or equals `b` in code point order.
pub fn chars_le_exec(a: &Vec<char>, b: &Vec<char>) -> (r: bool)
    ensures
        r == chars_le(a@, b@),
{
    let mut i: usize = 0;
    assert(a@.skip(0) =~= a@);
    assert(b@.skip(0) =~= b@);
    while i < a.len() && i < b.len() && a[i] == b[i]
        invariant
            i <= a@.len(),
            i <= b@.len(),
            chars_le(a@, b@) == chars_le(a@.skip(i as int), b@.skip(i as int)),
        decreases a.len() - i,
    {
        assert(a@.skip(i as int).drop_first() =~= a@.skip(i + 1));
        assert(b@.skip(i as int).drop_first() =~= b@.skip(i + 1));
        i += 1;
    }
    if i == a.len() {
        true
    } else if i == b.len() {
        false
    } else {
        a[i] < b[i]
    }
}

/// The character sequences of a sequence of strings.
pub open spec fn views(s: Seq<String>) -> Seq<Seq<char>> {
    s.map_values(|x: String| x@)
}

/// Ascending code point order.
pub open spec fn strings_sorted(s: Seq<Seq<char>>) -> bool {
    forall|i: int, j: int| 0 <= i < j < s.len() ==> chars_le(#[trigger] s[i], #[trigger] s[j])
}

/// Inserting an item anywhere in a sequence adds it once to its multiset.
pub proof fn lemma_insert_to_multiset<A>(s: Seq<A>, p: int, x: A)
    requires
        0 <= p <= s.len(),
    ensures
        s.insert(p, x).to_multiset() == s.to_multiset().insert(x),
{
    broadcast use vstd::seq_lib::group_to_multiset_ensures;
    let a = s.take(p);
    let b = s.skip(p);
    assert(s.insert(p, x) =~= a.push(x) + b);
    assert(s =~= a + b);
    vstd::seq_lib::lemma_multiset_commutative(a.push(x), b);
    vstd::seq_lib::lemma_multiset_commutative(a, b);
    assert(a.push(x).to_multiset() =~= a.to_multiset().insert(x));
}

/// The strings of `v` in ascending code point order.
pub fn sort_strings(v: &Vec<String>) -> (r: Vec<String>)
    ensures
        r@.len() == v@.len(),
        strings_sorted(views(r@)),
        views(r@).to_multiset() == views(v@).to_multiset(),
{
    broadcast use vstd::seq_lib::group_to_multiset_ensures;
    let mut r: Vec<String> = Vec::new();
    let mut i: usize = 0;
    while i < v.len()
        invariant
            i <= v@.len(),
            r@.len() == i,
            strings_sorted(views(r@)),
            views(r@).to_multiset() == views(v@.take(i as int)).to_multiset(),
        decreases v.len() - i,
    {
        let x = v[i].clone();
        let xc = str_chars(x.as_str());
        let mut p: usize = 0;
        while p < r.len() && chars_le_exec(&str_chars(r[p].as_str()), &xc)
            invariant
                p <= r@.len(),
                xc@ == x@,
                forall|k: int| 0 <= k < p ==> chars_le(#[trigger] r@[k]@, x@),
            decreases r.len() - p,
        {
            p += 1;
        }
        let ghost old_r = r@;
        proof {
            if p < old_r.len() {
                lemma_chars_le_total(old_r[p as int]@, x@);
            }
        }
        r.insert(p, x);
        proof {
            assert(r@ == old_r.insert(p as int, x));
            old_r.insert_ensures(p as int, x);
            let w = views(r@);
            let wo = views(old_r);
            assert(w =~= wo.insert(p as int, x@));
            assert forall|a: int, b: int| 0 <= a < b < w.len() implies chars_le(#[trigger] w[a], #[trigger] w[b]) by {
                if b < p {
                    assert(w[a] == wo[a] && w[b] == wo[b]);
                } else if b == p {
                    assert(w[a] == wo[a]);
                } else if a == p {
                    assert(w[b] == wo[b - 1]);
                    if b - 1 > p {
                        lemma_chars_le_trans(x@, wo[p as int], wo[b - 1]);
                    }
                } else if a < p {
                    assert(w[a] == wo[a] && w[b] == wo[b - 1]);
                } else {
                    assert(w[a] == wo[a - 1] && w[b] == wo[b - 1]);
                }
            }
            lemma_insert_to_multiset(wo, p as int, x@);
            assert(v@.take(i + 1) =~= v@.take(i as int).push(v@[i as int]));
            assert(views(v@.take(i + 1)) =~= views(v@.take(i as int)).push(v@[i as int]@));
            assert(x@ == v@[i as int]@);
            views(v@.take(i as int)).to_multiset_ensures();
            assert(views(v@.take(i as int)).push(x@).to_multiset() =~= views(v@.take(i as int)).to_multiset().insert(x@));
            assert(views(v@.take(i + 1)).to_multiset() =~= views(v@.take(i as int)).to_multiset().insert(x@));
            assert(w.to_multiset() =~= wo.to_multiset().insert(x@));
        }
        i += 1;
    }
    assert(v@.take(v@.len() as int) =~= v@);
    r
}

/// `<dir>/<file>` for `/`-separated paths: the file alone when the directory
/// is empty, no second `/` when the directory ends with one.
pub open spec fn join_path(dir: Seq<char>, file: Seq<char>) -> Seq<char> {
    if dir.len() == 0 {
        file
    } else if dir.last() == '/' {
        dir + file
    } else {
        dir + seq!['/'] + file
    }
}

/// Joins a file name to a `/`-separated directory path (see `join_path`).
pub fn join_path_exec(dir: &str, file: &str) -> (r: String)
    ensures
        r@ == join_path(dir@, file@),
{
    let mut v = str_chars(dir);
    if v.len() > 0 && v[v.len() - 1] != '/' {
        v.push('/');
    }
    push_all(&mut v, &str_chars(file));
    chars_to_string(&v)
}

/// Index of the last occurrence of `c` in `s`, or -1.
pub open spec fn last_index_of(s: Seq<char>, c: char) -> int
    decreases s.len(),
{
    if s.len() == 0 {
        -1
    } else if s.last() == c {
        s.len() - 1
    } else {
        last_index_of(s.drop_last(), c)
    }
}

/// A path separator: `/`, and also `\` on Windows.
pub open spec fn is_path_sep(c: char, windows: bool) -> bool {
    c == '/' || (windows && c == '\\')
}

/// Index of the last separator of `s`, or -1.
pub open spec fn last_sep(s: Seq<char>, windows: bool) -> int
    decreases s.len(),
{
    if s.len() == 0 {
        -1
    } else if is_path_sep(s.last(), windows) {
        s.len() - 1
    } else {
        last_sep(s.drop_last(), windows)
    }
}

/// The last separator lies within the path, or is -1.
pub proof fn lemma_last_sep_bounds(s: Seq<char>, windows: bool)
    ensures
        -1 <= last_sep(s, windows) < s.len(),
    decreases s.len(),
{
    if s.len() > 0 {
        lemma_last_sep_bounds(s.drop_last(), windows);
    }
}

/// The file name of a path, as `Path::file_name` gives it: its last
/// component, where separators at the end and `.` components after the
/// first are ignored; none when the path is empty, is only separators or
/// `.`, or ends in `..`.
pub open spec fn path_file_name(s: Seq<char>, windows: bool) -> Option<Seq<char>>
    decreases s.len(),
{
    if s.len() == 0 {
        None
    } else if is_path_sep(s.last(), windows) {
        path_file_name(s.drop_last(), windows)
    } else {
        let k = last_sep(s, windows);
        let c = s.skip(k + 1);
        if c == seq!['.'] {
            if k < 0 {
                None
            } else {
                proof {
                    lemma_last_sep_bounds(s, windows);
                }
                path_file_name(s.take(k), windows)
            }
        } else if c == seq!['.', '.'] {
            None
        } else {
            Some(c)
        }
    }
}

/// The extension of a path, as `Path::extension` gives it (empty when it
/// gives none): what follows the last `.` of the file name, when that name
/// has a `.` other than a leading one.
pub open spec fn path_extension(s: Seq<char>, windows: bool) -> Seq<char> {
    match path_file_name(s, windows) {
        None => Seq::empty(),
        Some(f) => {
            let d = last_index_of(f, '.');
            if d <= 0 {
                Seq::empty()
            } else {
                f.skip(d + 1)
            }
        },
    }
}

/// The extension of a file name, with `/` as the only separator (see
/// `path_extension`).
pub open spec fn extension_text(name: Seq<char>) -> Seq<char> {
    path_extension(name, false)
}

/// One past the index of the last separator of `c[..end]` (zero when there
/// is none).
fn after_last_sep(c: &Vec<char>, end: usize, windows: bool) -> (r: usize)
    requires
        end <= c@.len(),
    ensures
        r == last_sep(c@.take(end as int), windows) + 1,
{
    let mut k: usize = end;
    while k > 0 && !(c[k - 1] == '/' || (windows && c[k - 1] == '\\'))
        invariant
            k <= end <= c@.len(),
            last_sep(c@.take(end as int), windows) == last_sep(c@.take(k as int), windows),
        decreases k,
    {
        assert(c@.take(k as int).drop_last() =~= c@.take(k - 1));
        k -= 1;
    }
    if k == 0 {
        assert(c@.take(0).len() == 0);
    } else {
        assert(c@.take(k as int).last() == c@[k - 1]);
    }
    k
}

/// The position `[a, b)` of the file name of the path `c[..end]` (see
/// `path_file_name`).
fn file_name_range(c: &Vec<char>, end: usize, windows: bool) -> (r: Option<(usize, usize)>)
    requires
        end <= c@.len(),
    ensures
        match path_file_name(c@.take(end as int), windows) {
            None => r is None,
            Some(f) => r matches Some(p) && p.0 <= p.1 <= end && c@.subrange(p.0 as int, p.1 as int) == f,
        },
    decreases end,
{
    let ghost s = c@.take(end as int);
    if end == 0 {
        return None;
    }
    assert(s.last() == c@[end - 1]);
    if c[end - 1] == '/' || (windows && c[end - 1] == '\\') {
        assert(s.drop_last() =~= c@.take(end - 1));
        return file_name_range(c, end - 1, windows);
    }
    let k1 = after_last_sep(c, end, windows);
    proof {
        lemma_last_sep_bounds(s, windows);
    }
    let ghost comp = s.skip(k1 as int);
    assert(comp =~= c@.subrange(k1 as int, end as int));
    if end - k1 == 1 && c[k1] == '.' {
        assert(comp =~= seq!['.']);
        if k1 == 0 {
            return None;
        }
        assert(s.take(k1 - 1) =~= c@.take(k1 - 1));
        return file_name_range(c, k1 - 1, windows);
    }
    assert(comp != seq!['.']) by {
        if comp == seq!['.'] {
            assert(comp.len() == 1 && comp[0] == '.');
        }
    }
    if end - k1 == 2 && c[k1] == '.' && c[k1 + 1] == '.' {
        assert(comp =~= seq!['.', '.']);
        return None;
    }
    assert(comp != seq!['.', '.']) by {
        if comp == seq!['.', '.'] {
            assert(comp.len() == 2 && comp[0] == '.' && comp[1] == '.');
        }
    }
    Some((k1, end))
}

/// The extension of a path (see `path_extension`); `windows` makes `\` a
/// separator too.
pub fn path_extension_of(name: &str, windows: bool) -> (r: Vec<char>)
    ensures
        r@ == path_extension(name@, windows),
{
    let n = str_chars(name);
    assert(n@.take(n@.len() as int) =~= n@);
    match file_name_range(&n, n.len(), windows) {
        None => Vec::new(),
        Some((a, b)) => {
            let f = skip_chars(&take_chars(&n, b), a);
            assert(f@ =~= n@.subrange(a as int, b as int));
            proof {
                lemma_last_index_bounds(f@, '.');
            }
            let d = after_last(&f, '.');
            if d <= 1 {
                Vec::new()
            } else {
                skip_chars(&f, d)
            }
        },
    }
}

/// One past the index of the last `c` in `s` (zero when there is none).
pub fn after_last(s: &Vec<char>, c: char) -> (r: usize)
    ensures
        r == last_index_of(s@, c) + 1,
{
    let mut k: usize = s.len();
    assert(s@.take(s@.len() as int) =~= s@);
    while k > 0 && s[k - 1] != c
        invariant
            k <= s@.len(),
            last_index_of(s@, c) == last_index_of(s@.take(k as int), c),
        decreases k,
    {
        assert(s@.take(k as int).drop_last() =~= s@.take(k - 1));
        k -= 1;
    }
    if k == 0 {
        assert(s@.take(0).len() == 0);
    } else {
        assert(s@.take(k as int).last() == c);
    }
    k
}

/// The extension of a file name (see `extension_text`).
pub fn file_extension(name: &str) -> (r: Vec<char>)
    ensures
        r@ == extension_text(name@),
{
    path_extension_of(name, false)
}

/// The last index of a character lies within the string, or is -1.
pub proof fn lemma_last_index_bounds(s: Seq<char>, c: char)
    ensures
        -1 <= last_index_of(s, c) < s.len(),
    decreases s.len(),
{
    if s.len() > 0 {
        lemma_last_index_bounds(s.drop_last(), c);
    }
}

} // verus!
