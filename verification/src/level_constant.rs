//! Level constants: the snapshot text format and its parser.
//!
//! A snapshot is a sequence of lines.  A line that starts with `#` is a
//! comment; a line that is blank after trimming spaces, tabs and carriage
//! returns is skipped; every other line is `key = value`, where the value may
//! be followed by a `#` comment.  The nine keys `level`, `pofang_xishu`,
//! `huixin_xishu`, `huixiao_xishu`, `yujin_xishu`, `yuhui_xishu`,
//! `huajin_xishu`, `fangyu_xishu` and `pvp_global_jianshang` must each occur
//! exactly once.  `level` is an unsigned 32-bit integer; the other values are
//! decimals `digits` or `digits.digits`, kept exactly as a mantissa and a
//! power-of-ten scale.

use vstd::prelude::*;
use vstd::string::StringSliceAdditionalSpecFns;

verus! {

/// The exact decimal number `mantissa / 10^scale`.
#[derive(Clone, Copy, Debug, PartialEq, Eq, Structural)]
pub struct Decimal {
    pub mantissa: u64,
    pub scale: usize,
}

/// The level constants (denominators of the attribute conversions, and the
/// global PVP damage factor).
#[derive(Clone, Copy, Debug, PartialEq, Eq, Structural)]
pub struct LevelConstant {
    pub pofang_xishu: Decimal,
    pub huixin_xishu: Decimal,
    pub huixiao_xishu: Decimal,
    pub yujin_xishu: Decimal,
    pub yuhui_xishu: Decimal,
    pub huajin_xishu: Decimal,
    pub fangyu_xishu: Decimal,
    pub pvp_global_jianshang: Decimal,
}

/// Why a snapshot text was rejected.
#[derive(Clone, Copy, Debug, PartialEq, Eq, Structural)]
pub enum SnapshotError {
    /// A line is neither a comment, blank, nor `key = value`.
    MissingAssignment,
    /// A key outside the nine known keys.
    UnknownKey,
    /// A key that occurs twice.
    DuplicateKey,
    /// One of the nine keys is absent.
    MissingField,
    /// A value with no digits.
    EmptyValue,
    /// An integer value with a character other than a digit.
    InvalidInteger,
    /// An integer value above the representable range.
    IntegerOutOfRange,
    /// A decimal value with an unexpected character.
    InvalidDecimal,
    /// A decimal point not followed by digits.
    MissingFractionDigits,
    /// A fractional decimal whose mantissa is 2^24 or more.
    MantissaOutOfRange,
}

pub open spec fn is_digit(c: u8) -> bool {
    48 <= c <= 57
}

pub open spec fn is_blank(c: u8) -> bool {
    c == 32 || c == 9 || c == 13
}

pub open spec fn all_digits(s: Seq<u8>) -> bool {
    forall|i: int| 0 <= i < s.len() ==> is_digit(#[trigger] s[i])
}

/// The number written by a sequence of decimal digits (0 for the empty one).
pub open spec fn digits_value(s: Seq<u8>) -> nat
    decreases s.len(),
{
    if s.len() == 0 {
        0
    } else {
        digits_value(s.drop_last()) * 10 + (s.last() - 48) as nat
    }
}

pub open spec fn pow10(k: nat) -> nat
    decreases k,
{
    if k == 0 { 1 } else { 10 * pow10((k - 1) as nat) }
}

/// Index of the first occurrence of `c` in `s`, or `s.len()` if there is none.
pub open spec fn first_index(s: Seq<u8>, c: u8) -> nat
    decreases s.len(),
{
    if s.len() == 0 {
        0
    } else if s[0] == c {
        0
    } else {
        1 + first_index(s.drop_first(), c)
    }
}

pub open spec fn trim_front(s: Seq<u8>) -> Seq<u8>
    decreases s.len(),
{
    if s.len() > 0 && is_blank(s[0]) { trim_front(s.drop_first()) } else { s }
}

pub open spec fn trim_back(s: Seq<u8>) -> Seq<u8>
    decreases s.len(),
{
    if s.len() > 0 && is_blank(s.last()) { trim_back(s.drop_last()) } else { s }
}

/// `s` without leading and trailing spaces, tabs and carriage returns.
pub open spec fn trim(s: Seq<u8>) -> Seq<u8> {
    trim_back(trim_front(s))
}

/// The bytes of the key with the given number (0 is `level`).
pub open spec fn key_name(k: nat) -> Seq<u8> {
    if k == 0 {
        seq![108u8, 101, 118, 101, 108]
    } else if k == 1 {
        seq![112u8, 111, 102, 97, 110, 103, 95, 120, 105, 115, 104, 117]
    } else if k == 2 {
        seq![104u8, 117, 105, 120, 105, 110, 95, 120, 105, 115, 104, 117]
    } else if k == 3 {
        seq![104u8, 117, 105, 120, 105, 97, 111, 95, 120, 105, 115, 104, 117]
    } else if k == 4 {
        seq![121u8, 117, 106, 105, 110, 95, 120, 105, 115, 104, 117]
    } else if k == 5 {
        seq![121u8, 117, 104, 117, 105, 95, 120, 105, 115, 104, 117]
    } else if k == 6 {
        seq![104u8, 117, 97, 106, 105, 110, 95, 120, 105, 115, 104, 117]
    } else if k == 7 {
        seq![102u8, 97, 110, 103, 121, 117, 95, 120, 105, 115, 104, 117]
    } else {
        seq![112u8, 118, 112, 95, 103, 108, 111, 98, 97, 108, 95, 106, 105, 97, 110, 115, 104, 97, 110, 103]
    }
}

/// The number of the key `key`, if it is one of the nine keys.
pub open spec fn key_index(key: Seq<u8>) -> Option<nat> {
    if exists|k: nat| k < 9 && key == key_name(k) {
        Some(choose|k: nat| k < 9 && key == key_name(k))
    } else {
        None
    }
}

/// The value of a `level` entry.
pub open spec fn integer_value(s: Seq<u8>) -> Result<u32, SnapshotError> {
    if s.len() == 0 {
        Err(SnapshotError::EmptyValue)
    } else if !all_digits(s) {
        Err(SnapshotError::InvalidInteger)
    } else if digits_value(s) > u32::MAX {
        Err(SnapshotError::IntegerOutOfRange)
    } else {
        Ok(digits_value(s) as u32)
    }
}

/// The value of a decimal entry.
pub open spec fn decimal_value(s: Seq<u8>) -> Result<Decimal, SnapshotError> {
    let d = first_index(s, 46);
    let int_part = s.take(d as int);
    if s.len() == 0 {
        Err(SnapshotError::EmptyValue)
    } else if !all_digits(int_part) {
        Err(SnapshotError::InvalidDecimal)
    } else if d == s.len() {
        if digits_value(int_part) > u64::MAX {
            Err(SnapshotError::IntegerOutOfRange)
        } else {
            Ok(Decimal { mantissa: digits_value(int_part) as u64, scale: 0 })
        }
    } else {
        let frac = s.skip((d + 1) as int);
        let m = digits_value(int_part) * pow10(frac.len()) + digits_value(frac);
        if frac.len() == 0 {
            Err(SnapshotError::MissingFractionDigits)
        } else if !all_digits(frac) {
            Err(SnapshotError::InvalidDecimal)
        } else if int_part.len() == 0 && digits_value(frac) == 0 {
            Err(SnapshotError::EmptyValue)
        } else if m >= 0x100_0000 {
            Err(SnapshotError::MantissaOutOfRange)
        } else {
            Ok(Decimal { mantissa: m as u64, scale: frac.len() as usize })
        }
    }
}

/// The entries read so far: the level, and the eight decimals in key order.
pub struct SnapshotFields {
    pub level: Option<u32>,
    pub values: Seq<Option<Decimal>>,
}

pub open spec fn empty_fields() -> SnapshotFields {
    SnapshotFields { level: None, values: Seq::new(8, |i: int| None) }
}

pub open spec fn field_is_set(st: SnapshotFields, k: nat) -> bool {
    if k == 0 { st.level is Some } else { st.values[k - 1] is Some }
}

/// Records the value text of key `k`.
pub open spec fn assign_field(st: SnapshotFields, k: nat, value: Seq<u8>) -> Result<
    SnapshotFields,
    SnapshotError,
> {
    if field_is_set(st, k) {
        Err(SnapshotError::DuplicateKey)
    } else if k == 0 {
        match integer_value(value) {
            Ok(v) => Ok(SnapshotFields { level: Some(v), values: st.values }),
            Err(e) => Err(e),
        }
    } else {
        match decimal_value(value) {
            Ok(v) => Ok(SnapshotFields { level: st.level, values: st.values.update(k - 1, Some(v)) }),
            Err(e) => Err(e),
        }
    }
}

/// The effect of one line (without its newline).
pub open spec fn read_line(line: Seq<u8>, st: SnapshotFields) -> Result<SnapshotFields, SnapshotError> {
    let t = trim(line);
    let eq = first_index(t, 61);
    if line.len() > 0 && line[0] == 35 {
        Ok(st)
    } else if t.len() == 0 {
        Ok(st)
    } else if eq == 0 || eq + 1 >= t.len() {
        Err(SnapshotError::MissingAssignment)
    } else {
        let key = trim(t.take(eq as int));
        let after = t.skip((eq + 1) as int);
        let value = trim(after.take(first_index(after, 35) as int));
        match key_index(key) {
            None => Err(SnapshotError::UnknownKey),
            Some(k) => assign_field(st, k, value),
        }
    }
}

/// The effect of all the lines of `text`, from the state `st`.
pub open spec fn read_lines(text: Seq<u8>, st: SnapshotFields) -> Result<SnapshotFields, SnapshotError>
    decreases text.len(),
{
    if text.len() == 0 {
        Ok(st)
    } else {
        let e = first_index(text, 10);
        match read_line(text.take(e as int), st) {
            Err(err) => Err(err),
            Ok(st2) => if e < text.len() {
                read_lines(text.skip((e + 1) as int), st2)
            } else {
                Ok(st2)
            },
        }
    }
}

pub open spec fn all_fields_set(st: SnapshotFields) -> bool {
    st.level is Some && forall|i: int| 0 <= i < 8 ==> st.values[i] is Some
}

pub open spec fn fields_to_constant(st: SnapshotFields) -> LevelConstant {
    LevelConstant {
        pofang_xishu: st.values[0]->0,
        huixin_xishu: st.values[1]->0,
        huixiao_xishu: st.values[2]->0,
        yujin_xishu: st.values[3]->0,
        yuhui_xishu: st.values[4]->0,
        huajin_xishu: st.values[5]->0,
        fangyu_xishu: st.values[6]->0,
        pvp_global_jianshang: st.values[7]->0,
    }
}

/// The meaning of a snapshot text: its level and constants, or the first
/// reason it is rejected.
pub open spec fn snapshot_meaning(text: Seq<u8>) -> Result<(u32, LevelConstant), SnapshotError> {
    match read_lines(text, empty_fields()) {
        Err(e) => Err(e),
        Ok(st) => if all_fields_set(st) {
            Ok((st.level->0, fields_to_constant(st)))
        } else {
            Err(SnapshotError::MissingField)
        },
    }
}

/// Strips blanks from both ends of `b[s..e]`; returns the remaining range.
pub fn trim_range(b: &[u8], s: usize, e: usize) -> (r: (usize, usize))
    requires
        s <= e <= b@.len(),
    ensures
        s <= r.0 <= r.1 <= e,
        b@.subrange(r.0 as int, r.1 as int) == trim(b@.subrange(s as int, e as int)),
        r.0 == r.1 ==> r.0 == e,
{
    let mut lo = s;
    while lo < e && (b[lo] == 32 || b[lo] == 9 || b[lo] == 13)
        invariant
            s <= lo <= e <= b@.len(),
            trim_front(b@.subrange(s as int, e as int)) == trim_front(b@.subrange(lo as int, e as int)),
        decreases e - lo,
    {
        assert(b@.subrange(lo as int, e as int).drop_first() =~= b@.subrange(lo + 1, e as int));
        lo += 1;
    }
    let mut hi = e;
    while hi > lo && (b[hi - 1] == 32 || b[hi - 1] == 9 || b[hi - 1] == 13)
        invariant
            s <= lo <= hi <= e <= b@.len(),
            lo == e || (lo < hi && !is_blank(b@[lo as int])),
            trim_front(b@.subrange(s as int, e as int)) == b@.subrange(lo as int, e as int),
            trim(b@.subrange(s as int, e as int)) == trim_back(b@.subrange(lo as int, hi as int)),
        decreases hi - lo,
    {
        assert(b@.subrange(lo as int, hi as int).drop_last() =~= b@.subrange(lo as int, hi - 1));
        hi -= 1;
    }
    (lo, hi)
}

/// First position of `c` in `b[s..e]`, or `e` if it does not occur.
pub fn find_byte(b: &[u8], s: usize, e: usize, c: u8) -> (r: usize)
    requires
        s <= e <= b@.len(),
    ensures
        s <= r <= e,
        r - s == first_index(b@.subrange(s as int, e as int), c),
{
    let mut i = s;
    while i < e && b[i] != c
        invariant
            s <= i <= e <= b@.len(),
            first_index(b@.subrange(s as int, e as int), c) == (i - s) + first_index(b@.subrange(i as int, e as int), c),
        decreases e - i,
    {
        assert(b@.subrange(i as int, e as int).drop_first() =~= b@.subrange(i + 1, e as int));
        i += 1;
    }
    i
}

/// Whether `b[s..e]` is exactly `lit`.
pub fn key_matches(b: &[u8], s: usize, e: usize, lit: &[u8]) -> (r: bool)
    requires
        s <= e <= b@.len(),
    ensures
        r == (b@.subrange(s as int, e as int) == lit@),
{
    if e - s != lit.len() {
        return false;
    }
    let mut j: usize = 0;
    while j < lit.len()
        invariant
            e - s == lit@.len(),
            s <= e <= b@.len(),
            j <= lit@.len(),
            forall|k: int| 0 <= k < j ==> b@[s + k] == lit@[k],
        decreases lit.len() - j,
    {
        if b[s + j] != lit[j] {
            assert(b@.subrange(s as int, e as int)[j as int] != lit@[j as int]);
            return false;
        }
        j += 1;
    }
    assert(b@.subrange(s as int, e as int) =~= lit@);
    true
}

proof fn lemma_key_names_distinct(k1: nat, k2: nat)
    requires
        k1 < 9,
        k2 < 9,
        k1 != k2,
    ensures
        key_name(k1) != key_name(k2),
{
    let a = key_name(k1);
    let b = key_name(k2);
    if a.len() == b.len() {
        if a.len() == 12 {
            assert(a[0] != b[0] || a[2] != b[2]);
        } else if a.len() == 11 {
            assert(a[2] != b[2]);
        }
    }
}

proof fn lemma_key_index_is(key: Seq<u8>, k: nat)
    requires
        k < 9,
        key == key_name(k),
    ensures
        key_index(key) == Some(k),
{
    let c = choose|j: nat| j < 9 && key == key_name(j);
    if c != k {
        lemma_key_names_distinct(c, k);
    }
}

/// The number of the key written in `b[s..e]`, if it is one of the nine keys.
fn key_number(b: &[u8], s: usize, e: usize) -> (r: Option<usize>)
    requires
        s <= e <= b@.len(),
    ensures
        r matches Some(k) ==> key_index(b@.subrange(s as int, e as int)) == Some(k as nat),
        r is None ==> key_index(b@.subrange(s as int, e as int)) is None,
{
    let ghost key = b@.subrange(s as int, e as int);
    let n0: [u8; 5] = [108, 101, 118, 101, 108];
    let n1: [u8; 12] = [112, 111, 102, 97, 110, 103, 95, 120, 105, 115, 104, 117];
    let n2: [u8; 12] = [104, 117, 105, 120, 105, 110, 95, 120, 105, 115, 104, 117];
    let n3: [u8; 13] = [104, 117, 105, 120, 105, 97, 111, 95, 120, 105, 115, 104, 117];
    let n4: [u8; 11] = [121, 117, 106, 105, 110, 95, 120, 105, 115, 104, 117];
    let n5: [u8; 11] = [121, 117, 104, 117, 105, 95, 120, 105, 115, 104, 117];
    let n6: [u8; 12] = [104, 117, 97, 106, 105, 110, 95, 120, 105, 115, 104, 117];
    let n7: [u8; 12] = [102, 97, 110, 103, 121, 117, 95, 120, 105, 115, 104, 117];
    let n8: [u8; 20] = [112, 118, 112, 95, 103, 108, 111, 98, 97, 108, 95, 106, 105, 97, 110, 115, 104, 97, 110, 103];
    assert((&n0)@ == key_name(0));
    assert((&n1)@ == key_name(1));
    assert((&n2)@ == key_name(2));
    assert((&n3)@ == key_name(3));
    assert((&n4)@ == key_name(4));
    assert((&n5)@ == key_name(5));
    assert((&n6)@ == key_name(6));
    assert((&n7)@ == key_name(7));
    assert((&n8)@ == key_name(8));
    let r = if key_matches(b, s, e, &n0) {
        Some(0)
    } else if key_matches(b, s, e, &n1) {
        Some(1)
    } else if key_matches(b, s, e, &n2) {
        Some(2)
    } else if key_matches(b, s, e, &n3) {
        Some(3)
    } else if key_matches(b, s, e, &n4) {
        Some(4)
    } else if key_matches(b, s, e, &n5) {
        Some(5)
    } else if key_matches(b, s, e, &n6) {
        Some(6)
    } else if key_matches(b, s, e, &n7) {
        Some(7)
    } else if key_matches(b, s, e, &n8) {
        Some(8)
    } else {
        None
    };
    proof {
        match r {
            Some(k) => lemma_key_index_is(key, k as nat),
            None => {
                assert forall|k: nat| k < 9 implies key != key_name(k) by {
                    if k == 0 {} else if k == 1 {} else if k == 2 {} else if k == 3 {}
                    else if k == 4 {} else if k == 5 {} else if k == 6 {} else if k == 7 {} else {}
                }
            },
        }
    }
    r
}

/// Whether every byte of `b[s..e]` is a decimal digit.
fn all_digits_in(b: &[u8], s: usize, e: usize) -> (r: bool)
    requires
        s <= e <= b@.len(),
    ensures
        r == all_digits(b@.subrange(s as int, e as int)),
{
    let mut i = s;
    while i < e
        invariant
            s <= i <= e <= b@.len(),
            forall|k: int| s <= k < i ==> is_digit(b@[k]),
        decreases e - i,
    {
        if b[i] < 48 || b[i] > 57 {
            assert(!is_digit(b@.subrange(s as int, e as int)[i - s]));
            return false;
        }
        i += 1;
    }
    assert forall|k: int| 0 <= k < e - s implies is_digit(#[trigger] b@.subrange(s as int, e as int)[k]) by {
        assert(is_digit(b@[s + k]));
    }
    true
}

proof fn lemma_digits_prefix(s: Seq<u8>, j: int)
    requires
        0 <= j <= s.len(),
    ensures
        digits_value(s.take(j)) <= digits_value(s),
    decreases s.len(),
{
    if j < s.len() {
        assert(s.take(j) =~= s.drop_last().take(j));
        lemma_digits_prefix(s.drop_last(), j);
    } else {
        assert(s.take(j) =~= s);
    }
}

/// The value of the digits `b[s..e]`, when it fits in 64 bits.
fn digits_value_checked(b: &[u8], s: usize, e: usize) -> (r: Option<u64>)
    requires
        s <= e <= b@.len(),
        all_digits(b@.subrange(s as int, e as int)),
    ensures
        r matches Some(v) ==> v as nat == digits_value(b@.subrange(s as int, e as int)),
        r is None ==> digits_value(b@.subrange(s as int, e as int)) > u64::MAX,
{
    let ghost sub = b@.subrange(s as int, e as int);
    let mut v: u64 = 0;
    let mut i = s;
    assert(sub.take(0) =~= Seq::<u8>::empty());
    while i < e
        invariant
            s <= i <= e <= b@.len(),
            sub == b@.subrange(s as int, e as int),
            all_digits(sub),
            v as nat == digits_value(sub.take(i - s)),
        decreases e - i,
    {
        assert(is_digit(sub[i - s]));
        assert(sub[i - s] == b@[i as int]);
        let d = b[i] - 48;
        assert(sub.take(i - s + 1).drop_last() =~= sub.take(i - s));
        if v > (u64::MAX - d as u64) / 10 {
            proof {
                lemma_digits_prefix(sub, i - s + 1);
            }
            return None;
        }
        v = v * 10 + d as u64;
        i += 1;
    }
    assert(sub.take(e - s) =~= sub);
    Some(v)
}

/// Reads an unsigned 32-bit integer from `b[s..e]`, or the reason it is not one.
fn read_u32(b: &[u8], s: usize, e: usize) -> (r: Result<u32, SnapshotError>)
    requires
        s <= e <= b@.len(),
    ensures
        r == integer_value(b@.subrange(s as int, e as int)),
{
    if s >= e {
        return Err(SnapshotError::EmptyValue);
    }
    if !all_digits_in(b, s, e) {
        return Err(SnapshotError::InvalidInteger);
    }
    match digits_value_checked(b, s, e) {
        None => Err(SnapshotError::IntegerOutOfRange),
        Some(v) => if v > 0xffff_ffff {
            Err(SnapshotError::IntegerOutOfRange)
        } else {
            Ok(v as u32)
        },
    }
}

proof fn lemma_pow10_pos(k: nat)
    ensures
        pow10(k) >= 1,
    decreases k,
{
    if k > 0 {
        lemma_pow10_pos((k - 1) as nat);
    }
}

proof fn lemma_scaled_ge(x: nat, k: nat)
    ensures
        x * pow10(k) >= x,
{
    lemma_pow10_pos(k);
    assert(x * pow10(k) >= x * 1) by (nonlinear_arith)
        requires
            pow10(k) >= 1,
    ;
}

/// `iv * 10^k` when it is below 2^24.
fn scale_up(iv: u64, k: usize) -> (r: Option<u64>)
    ensures
        r matches Some(m) ==> m as nat == iv as nat * pow10(k as nat) && m < 0x100_0000,
        r is None ==> iv as nat * pow10(k as nat) >= 0x100_0000,
{
    if iv >= 0x100_0000 {
        proof {
            lemma_scaled_ge(iv as nat, k as nat);
        }
        return None;
    }
    let mut acc: u64 = iv;
    let mut p: usize = 0;
    assert(pow10(0) == 1);
    assert(iv as nat * 1 == iv as nat);
    while p < k
        invariant
            p <= k,
            acc < 0x100_0000,
            acc as nat == iv as nat * pow10(p as nat),
        decreases k - p,
    {
        proof {
            assert(iv as nat * pow10((p + 1) as nat) == (iv as nat * pow10(p as nat)) * 10) by (nonlinear_arith)
                requires
                    pow10((p + 1) as nat) == 10 * pow10(p as nat),
            ;
        }
        if acc >= 0x19_999a {
            proof {
                let rest = (k - (p + 1)) as nat;
                assert(pow10(k as nat) == pow10((p + 1) as nat) * pow10(rest)) by {
                    lemma_pow10_add((p + 1) as nat, rest);
                }
                lemma_scaled_ge(acc as nat * 10, rest);
                assert(iv as nat * pow10(k as nat) == (acc as nat * 10) * pow10(rest)) by (nonlinear_arith)
                    requires
                        pow10(k as nat) == pow10((p + 1) as nat) * pow10(rest),
                        acc as nat * 10 == iv as nat * pow10((p + 1) as nat),
                ;
            }
            return None;
        }
        acc = acc * 10;
        p += 1;
    }
    Some(acc)
}

proof fn lemma_pow10_add(a: nat, b: nat)
    ensures
        pow10(a + b) == pow10(a) * pow10(b),
    decreases a,
{
    if a > 0 {
        lemma_pow10_add((a - 1) as nat, b);
        assert(pow10(a + b) == 10 * pow10((a - 1 + b) as nat));
        assert(pow10(a) == 10 * pow10((a - 1) as nat));
        assert(10 * (pow10((a - 1) as nat) * pow10(b)) == (10 * pow10((a - 1) as nat)) * pow10(b)) by (nonlinear_arith);
    } else {
        assert(pow10(0) == 1);
        assert(a + b == b);
        assert(1 * pow10(b) == pow10(b));
    }
}

/// Reads a decimal `digits` or `digits.digits` from `b[s..e]`, or the reason
/// it is not one.
fn read_decimal(b: &[u8], s: usize, e: usize) -> (r: Result<Decimal, SnapshotError>)
    requires
        s <= e <= b@.len(),
    ensures
        r == decimal_value(b@.subrange(s as int, e as int)),
{
    let ghost sub = b@.subrange(s as int, e as int);
    if s >= e {
        return Err(SnapshotError::EmptyValue);
    }
    let d = find_byte(b, s, e, 46);
    assert(sub.take(d - s) =~= b@.subrange(s as int, d as int));
    if !all_digits_in(b, s, d) {
        return Err(SnapshotError::InvalidDecimal);
    }
    if d == e {
        return match digits_value_checked(b, s, d) {
            None => Err(SnapshotError::IntegerOutOfRange),
            Some(v) => Ok(Decimal { mantissa: v, scale: 0 }),
        };
    }
    assert(sub.skip(d - s + 1) =~= b@.subrange(d + 1, e as int));
    let k = e - (d + 1);
    if k == 0 {
        return Err(SnapshotError::MissingFractionDigits);
    }
    if !all_digits_in(b, d + 1, e) {
        return Err(SnapshotError::InvalidDecimal);
    }
    let ghost iv_spec = digits_value(b@.subrange(s as int, d as int));
    let ghost fv_spec = digits_value(b@.subrange(d + 1, e as int));
    let fv = digits_value_checked(b, d + 1, e);
    if d == s {
        if let Some(0) = fv {
            return Err(SnapshotError::EmptyValue);
        }
    }
    proof {
        lemma_scaled_ge(iv_spec, k as nat);
    }
    let fv = match fv {
        None => {
            return Err(SnapshotError::MantissaOutOfRange);
        },
        Some(v) => v,
    };
    let iv = match digits_value_checked(b, s, d) {
        None => {
            return Err(SnapshotError::MantissaOutOfRange);
        },
        Some(v) => v,
    };
    let scaled = match scale_up(iv, k) {
        None => {
            return Err(SnapshotError::MantissaOutOfRange);
        },
        Some(m) => m,
    };
    if fv >= 0x100_0000 || scaled + fv >= 0x100_0000 {
        return Err(SnapshotError::MantissaOutOfRange);
    }
    Ok(Decimal { mantissa: scaled + fv, scale: k })
}

/// Reads the unsigned 32-bit integer written in `b[s..e]`: one or more
/// ASCII digits whose value fits in 32 bits.
pub fn parse_u32(b: &[u8], s: usize, e: usize) -> (r: u32)
    requires
        s <= e <= b@.len(),
        integer_value(b@.subrange(s as int, e as int)) is Ok,
    ensures
        integer_value(b@.subrange(s as int, e as int)) == Ok::<u32, SnapshotError>(r),
{
    read_u32(b, s, e).unwrap()
}

/// Reads the decimal written in `b[s..e]`: `digits` or `digits.digits`,
/// not zero when the whole part is empty, with a mantissa below 2^24 when
/// there is a fraction.
pub fn parse_decimal(b: &[u8], s: usize, e: usize) -> (r: Decimal)
    requires
        s <= e <= b@.len(),
        decimal_value(b@.subrange(s as int, e as int)) is Ok,
    ensures
        decimal_value(b@.subrange(s as int, e as int)) == Ok::<Decimal, SnapshotError>(r),
{
    read_decimal(b, s, e).unwrap()
}

pub open spec fn fields_of(level: Option<u32>, vals: Seq<Option<Decimal>>) -> SnapshotFields {
    SnapshotFields { level, values: vals }
}

/// Applies the line `b[s..e]` to the entries read so far.
fn read_one_line(
    b: &[u8],
    s: usize,
    e: usize,
    level: Option<u32>,
    vals: Vec<Option<Decimal>>,
) -> (r: Result<(Option<u32>, Vec<Option<Decimal>>), SnapshotError>)
    requires
        s <= e <= b@.len(),
        vals@.len() == 8,
    ensures
        match read_line(b@.subrange(s as int, e as int), fields_of(level, vals@)) {
            Ok(st) => r matches Ok(out) && fields_of(out.0, out.1@) == st && out.1@.len() == 8,
            Err(x) => r == Err::<(Option<u32>, Vec<Option<Decimal>>), SnapshotError>(x),
        },
{
    let ghost line = b@.subrange(s as int, e as int);
    if s < e && b[s] == 35 {
        return Ok((level, vals));
    }
    let (ls, le) = trim_range(b, s, e);
    let ghost t = b@.subrange(ls as int, le as int);
    if ls >= le {
        return Ok((level, vals));
    }
    let eq = find_byte(b, ls, le, 61);
    if eq == ls || eq >= le - 1 {
        return Err(SnapshotError::MissingAssignment);
    }
    assert(t.take(eq - ls) =~= b@.subrange(ls as int, eq as int));
    assert(t.skip(eq - ls + 1) =~= b@.subrange(eq + 1, le as int));
    let (ks, ke) = trim_range(b, ls, eq);
    let ve0 = find_byte(b, eq + 1, le, 35);
    assert(b@.subrange(eq + 1, le as int).take(ve0 - (eq + 1)) =~= b@.subrange(eq + 1, ve0 as int));
    let (vs, ve) = trim_range(b, eq + 1, ve0);
    let k = match key_number(b, ks, ke) {
        None => {
            return Err(SnapshotError::UnknownKey);
        },
        Some(k) => k,
    };
    if k == 0 {
        if level.is_some() {
            return Err(SnapshotError::DuplicateKey);
        }
        match read_u32(b, vs, ve) {
            Ok(v) => Ok((Some(v), vals)),
            Err(x) => Err(x),
        }
    } else {
        if vals[k - 1].is_some() {
            return Err(SnapshotError::DuplicateKey);
        }
        match read_decimal(b, vs, ve) {
            Ok(v) => {
                let mut vals = vals;
                vals.set(k - 1, Some(v));
                Ok((level, vals))
            },
            Err(x) => Err(x),
        }
    }
}

/// Parses a well-formed level constant snapshot text (every line a comment,
/// blank, or one of the nine keys with a valid value, each key exactly once)
/// into its level and constants.
pub fn parse_snapshot(text: &str) -> (r: (u32, LevelConstant))
    requires
        snapshot_meaning(text.spec_bytes()) is Ok,
    ensures
        snapshot_meaning(text.spec_bytes()) == Ok::<(u32, LevelConstant), SnapshotError>(r),
{
    parse_snapshot_bytes(text.as_bytes()).unwrap()
}

/// Parses a level constant snapshot text, or gives the first reason it is
/// not a well-formed snapshot.
pub fn try_parse_snapshot(text: &str) -> (r: Result<(u32, LevelConstant), SnapshotError>)
    ensures
        r == snapshot_meaning(text.spec_bytes()),
{
    parse_snapshot_bytes(text.as_bytes())
}

/// Parses the bytes of a level constant snapshot text.
pub fn parse_snapshot_bytes(b: &[u8]) -> (r: Result<(u32, LevelConstant), SnapshotError>)
    ensures
        r == snapshot_meaning(b@),
{
    let n = b.len();
    let mut level: Option<u32> = None;
    let mut vals: Vec<Option<Decimal>> = Vec::new();
    let mut j: usize = 0;
    while j < 8
        invariant
            j <= 8,
            vals@ == Seq::new(j as nat, |i: int| None::<Decimal>),
        decreases 8 - j,
    {
        vals.push(None);
        j += 1;
    }
    assert(fields_of(level, vals@) == empty_fields());
    assert(b@.subrange(0, n as int) =~= b@);
    let mut i: usize = 0;
    while i < n
        invariant
            i <= n == b@.len(),
            vals@.len() == 8,
            read_lines(b@, empty_fields()) == read_lines(b@.subrange(i as int, n as int), fields_of(level, vals@)),
        decreases n - i,
    {
        let ghost rest = b@.subrange(i as int, n as int);
        let e = find_byte(b, i, n, 10);
        assert(rest.take(e - i) =~= b@.subrange(i as int, e as int));
        match read_one_line(b, i, e, level, vals) {
            Err(x) => {
                return Err(x);
            },
            Ok(out) => {
                level = out.0;
                vals = out.1;
            },
        }
        if e < n {
            assert(rest.skip(e - i + 1) =~= b@.subrange(e + 1, n as int));
            i = e + 1;
        } else {
            assert(b@.subrange(n as int, n as int).len() == 0);
            i = n;
        }
    }
    assert(read_lines(b@.subrange(n as int, n as int), fields_of(level, vals@)) == Ok::<SnapshotFields, SnapshotError>(fields_of(level, vals@)));
    let ghost st = fields_of(level, vals@);
    let level = match level {
        None => {
            return Err(SnapshotError::MissingField);
        },
        Some(v) => v,
    };
    let mut k: usize = 0;
    while k < 8
        invariant
            k <= 8,
            vals@.len() == 8,
            forall|x: int| 0 <= x < k ==> vals@[x] is Some,
            read_lines(b@, empty_fields()) == Ok::<SnapshotFields, SnapshotError>(st),
            st == fields_of(Some(level), vals@),
        decreases 8 - k,
    {
        if vals[k].is_none() {
            assert(!all_fields_set(fields_of(Some(level), vals@)));
            return Err(SnapshotError::MissingField);
        }
        k += 1;
    }
    let c = LevelConstant {
        pofang_xishu: vals[0].unwrap(),
        huixin_xishu: vals[1].unwrap(),
        huixiao_xishu: vals[2].unwrap(),
        yujin_xishu: vals[3].unwrap(),
        yuhui_xishu: vals[4].unwrap(),
        huajin_xishu: vals[5].unwrap(),
        fangyu_xishu: vals[6].unwrap(),
        pvp_global_jianshang: vals[7].unwrap(),
    };
    Ok((level, c))
}

/// The level constant snapshot of the current season.
pub const SNAPSHOT_TEXT: &'static str = "level = 130\npofang_xishu = 225957.6\nhuixin_xishu = 197703.0\nhuixiao_xishu = 72844.2\nyujin_xishu = 197703.0\nyuhui_xishu = 55123.2\nhuajin_xishu = 30115.8\nfangyu_xishu = 126007.2\npvp_global_jianshang = 0.9\n";

/// The level of the current snapshot.
pub const LEVEL: u32 = 130;

/// The constants of the current snapshot.
pub open spec fn current_spec() -> LevelConstant {
    LevelConstant {
        pofang_xishu: Decimal { mantissa: 2259576, scale: 1 },
        huixin_xishu: Decimal { mantissa: 1977030, scale: 1 },
        huixiao_xishu: Decimal { mantissa: 728442, scale: 1 },
        yujin_xishu: Decimal { mantissa: 1977030, scale: 1 },
        yuhui_xishu: Decimal { mantissa: 551232, scale: 1 },
        huajin_xishu: Decimal { mantissa: 301158, scale: 1 },
        fangyu_xishu: Decimal { mantissa: 1260072, scale: 1 },
        pvp_global_jianshang: Decimal { mantissa: 9, scale: 1 },
    }
}

/// The constants of the current snapshot, read from its text.
pub fn current() -> (r: LevelConstant)
    ensures
        r == current_spec(),
{
    let text = snapshot_bytes();
    proof {
        lemma_current_is_snapshot();
    }
    parse_snapshot_bytes(text.as_slice()).unwrap().1
}

/// No byte of `s` is `c`.
pub open spec fn free_of(s: Seq<u8>, c: u8) -> bool {
    forall|i: int| 0 <= i < s.len() ==> s[i] != c
}

proof fn lemma_first_index_after(a: Seq<u8>, b: Seq<u8>, c: u8)
    requires
        free_of(a, c),
    ensures
        first_index(a + b, c) == a.len() + first_index(b, c),
    decreases a.len(),
{
    if a.len() > 0 {
        assert((a + b).drop_first() =~= a.drop_first() + b);
        lemma_first_index_after(a.drop_first(), b, c);
    } else {
        assert(a + b =~= b);
    }
}

proof fn lemma_read_lines_cons(l: Seq<u8>, rest: Seq<u8>, st: SnapshotFields)
    requires
        free_of(l, 10),
    ensures
        read_lines(l.push(10) + rest, st) == (match read_line(l, st) {
            Err(e) => Err(e),
            Ok(st2) => read_lines(rest, st2),
        }),
{
    let text = l.push(10) + rest;
    let tail = seq![10u8] + rest;
    assert(text =~= l + tail);
    lemma_first_index_after(l, tail, 10);
    assert(first_index(tail, 10) == 0);
    assert(text.take(l.len() as int) =~= l);
    assert(text.skip(l.len() as int + 1) =~= rest);
}

/// A key character: a lowercase ASCII letter or `_`.
pub open spec fn key_char(c: u8) -> bool {
    c == 95 || (97 <= c <= 122)
}

proof fn lemma_key_name_chars(k: nat)
    requires
        k < 9,
    ensures
        key_name(k).len() > 0,
        forall|i: int| 0 <= i < key_name(k).len() ==> key_char(#[trigger] key_name(k)[i]),
{
    if k == 0 {} else if k == 1 {} else if k == 2 {} else if k == 3 {}
    else if k == 4 {} else if k == 5 {} else if k == 6 {} else if k == 7 {} else {}
}

/// The line `<key> = <value>`.
pub open spec fn entry_line(key: Seq<u8>, value: Seq<u8>) -> Seq<u8> {
    key + seq![32u8, 61u8, 32u8] + value
}

proof fn lemma_read_entry(k: nat, value: Seq<u8>, st: SnapshotFields)
    requires
        k < 9,
        value.len() > 0,
        !is_blank(value[0]),
        !is_blank(value.last()),
        free_of(value, 35),
    ensures
        read_line(entry_line(key_name(k), value), st) == assign_field(st, k, value),
{
    let key = key_name(k);
    lemma_key_name_chars(k);
    let line = entry_line(key, value);
    assert(line[0] == key[0]);
    assert(line.last() == value.last());
    assert(trim_front(line) == line);
    assert(trim_back(line) == line);
    assert(trim(line) == line);
    let a = key.push(32);
    let b = seq![61u8, 32u8] + value;
    assert(line =~= a + b);
    assert(free_of(a, 61)) by {
        assert forall|i: int| 0 <= i < a.len() implies a[i] != 61 by {
            if i < key.len() {
                assert(key_char(key[i]));
            }
        }
    }
    lemma_first_index_after(a, b, 61);
    assert(first_index(b, 61) == 0);
    let eq = first_index(line, 61);
    assert(eq == key.len() + 1);
    assert(line.take(eq as int) =~= a);
    assert(trim_front(a) == a) by {
        assert(a[0] == key[0]);
    }
    assert(trim_back(a) == trim_back(key)) by {
        assert(a.drop_last() =~= key);
    }
    assert(trim_back(key) == key) by {
        assert(key_char(key.last()));
    }
    lemma_key_index_is(key, k);
    let after = line.skip(eq as int + 1);
    assert(after =~= seq![32u8] + value);
    assert(free_of(after, 35)) by {
        assert forall|i: int| 0 <= i < after.len() implies after[i] != 35 by {
            if i > 0 {
                assert(after[i] == value[i - 1]);
            }
        }
    }
    lemma_first_index_after(after, Seq::<u8>::empty(), 35);
    assert(after + Seq::<u8>::empty() =~= after);
    assert(after.take(after.len() as int) =~= after);
    assert(trim_front(after) == trim_front(value)) by {
        assert(after.drop_first() =~= value);
    }
    assert(trim_front(value) == value);
    assert(trim_back(value) == value);
}

/// The decimal text `<ip>.<fp>`.
pub open spec fn dec_text(ip: Seq<u8>, fp: Seq<u8>) -> Seq<u8> {
    ip + seq![46u8] + fp
}

proof fn lemma_dec_text(ip: Seq<u8>, fp: Seq<u8>)
    requires
        ip.len() > 0,
        all_digits(ip),
        fp.len() > 0,
        all_digits(fp),
        digits_value(ip) * pow10(fp.len()) + digits_value(fp) < 0x100_0000,
    ensures
        decimal_value(dec_text(ip, fp)) == Ok::<Decimal, SnapshotError>(
            Decimal { mantissa: (digits_value(ip) * pow10(fp.len()) + digits_value(fp)) as u64, scale: fp.len() as usize },
        ),
        !is_blank(dec_text(ip, fp)[0]),
        !is_blank(dec_text(ip, fp).last()),
        free_of(dec_text(ip, fp), 35),
{
    let s = dec_text(ip, fp);
    let tail = seq![46u8] + fp;
    assert(s =~= ip + tail);
    assert(free_of(ip, 46)) by {
        assert forall|i: int| 0 <= i < ip.len() implies ip[i] != 46 by {
            assert(is_digit(ip[i]));
        }
    }
    lemma_first_index_after(ip, tail, 46);
    assert(first_index(tail, 46) == 0);
    assert(s.take(ip.len() as int) =~= ip);
    assert(s.skip(ip.len() as int + 1) =~= fp);
    assert(is_digit(ip[0]));
    assert(s.last() == fp.last());
    assert(is_digit(fp.last()));
    assert forall|i: int| 0 <= i < s.len() implies s[i] != 35 by {
        if i < ip.len() {
            assert(is_digit(ip[i]));
        } else if i > ip.len() {
            assert(s[i] == fp[i - ip.len() - 1]);
            assert(is_digit(fp[i - ip.len() - 1]));
        }
    }
}

/// The decimal digits of `n`, most significant first, without leading zeros.
pub open spec fn num_text(n: nat) -> Seq<u8>
    decreases n,
{
    if n < 10 {
        seq![(48 + n) as u8]
    } else {
        num_text(n / 10).push((48 + n % 10) as u8)
    }
}

proof fn lemma_num_text(n: nat)
    ensures
        num_text(n).len() > 0,
        all_digits(num_text(n)),
        digits_value(num_text(n)) == n,
        n < 10 ==> num_text(n).len() == 1,
    decreases n,
{
    let t = num_text(n);
    if n < 10 {
        assert(t.drop_last() =~= Seq::<u8>::empty());
        assert(t.last() == 48 + n);
        assert(digits_value(t.drop_last()) == 0);
    } else {
        lemma_num_text(n / 10);
        assert(t.drop_last() =~= num_text(n / 10));
        assert(t.last() == 48 + n % 10);
        assert(n == (n / 10) * 10 + n % 10);
    }
}

/// The whole and the fractional digit of each of the eight decimal values
/// of the current snapshot, in key order.
pub open spec fn snapshot_decimal_parts(k: nat) -> (nat, nat) {
    if k == 1 {
        (225957, 6)
    } else if k == 2 {
        (197703, 0)
    } else if k == 3 {
        (72844, 2)
    } else if k == 4 {
        (197703, 0)
    } else if k == 5 {
        (55123, 2)
    } else if k == 6 {
        (30115, 8)
    } else if k == 7 {
        (126007, 2)
    } else {
        (0, 9)
    }
}

/// The value text of key `k` in the current snapshot.
pub open spec fn snapshot_value(k: nat) -> Seq<u8> {
    if k == 0 {
        num_text(LEVEL as nat)
    } else {
        dec_text(num_text(snapshot_decimal_parts(k).0), num_text(snapshot_decimal_parts(k).1))
    }
}

/// The lines of the current snapshot: `<key> = <value>` for the nine keys
/// in order.
pub open spec fn snapshot_lines() -> Seq<Seq<u8>> {
    Seq::new(9, |k: int| entry_line(key_name(k as nat), snapshot_value(k as nat)))
}

/// The lines from the `i`-th on, each followed by a newline.
pub open spec fn join_from(ls: Seq<Seq<u8>>, i: int) -> Seq<u8>
    decreases ls.len() - i,
{
    if i < 0 || i >= ls.len() {
        Seq::empty()
    } else {
        ls[i].push(10) + join_from(ls, i + 1)
    }
}

/// The bytes of the current snapshot text.
pub open spec fn snapshot_seq() -> Seq<u8> {
    join_from(snapshot_lines(), 0)
}

/// Reading the lines from the `i`-th on, from the state `st`.
pub open spec fn read_from(ls: Seq<Seq<u8>>, i: int, st: SnapshotFields) -> Result<SnapshotFields, SnapshotError>
    decreases ls.len() - i,
{
    if i < 0 || i >= ls.len() {
        Ok(st)
    } else {
        match read_line(ls[i], st) {
            Err(e) => Err(e),
            Ok(st2) => read_from(ls, i + 1, st2),
        }
    }
}

proof fn lemma_read_join(ls: Seq<Seq<u8>>, i: int, st: SnapshotFields)
    requires
        0 <= i <= ls.len(),
        forall|j: int| 0 <= j < ls.len() ==> free_of(#[trigger] ls[j], 10),
    ensures
        read_lines(join_from(ls, i), st) == read_from(ls, i, st),
    decreases ls.len() - i,
{
    if i < ls.len() {
        lemma_read_lines_cons(ls[i], join_from(ls, i + 1), st);
        match read_line(ls[i], st) {
            Ok(st2) => lemma_read_join(ls, i + 1, st2),
            Err(_) => {},
        }
    }
}

/// The decimal of key `k` (from 1) in the current constants.
pub open spec fn current_value(k: nat) -> Decimal {
    let c = current_spec();
    if k == 1 {
        c.pofang_xishu
    } else if k == 2 {
        c.huixin_xishu
    } else if k == 3 {
        c.huixiao_xishu
    } else if k == 4 {
        c.yujin_xishu
    } else if k == 5 {
        c.yuhui_xishu
    } else if k == 6 {
        c.huajin_xishu
    } else if k == 7 {
        c.fangyu_xishu
    } else {
        c.pvp_global_jianshang
    }
}

proof fn lemma_snapshot_value(k: nat)
    requires
        k < 9,
    ensures
        snapshot_value(k).len() > 0,
        !is_blank(snapshot_value(k)[0]),
        !is_blank(snapshot_value(k).last()),
        free_of(snapshot_value(k), 35),
        free_of(snapshot_value(k), 10),
        k == 0 ==> integer_value(snapshot_value(k)) == Ok::<u32, SnapshotError>(LEVEL),
        k > 0 ==> decimal_value(snapshot_value(k)) == Ok::<Decimal, SnapshotError>(current_value(k)),
{
    if k == 0 {
        let v = num_text(LEVEL as nat);
        lemma_num_text(LEVEL as nat);
        assert(is_digit(v[0]));
        assert(is_digit(v.last()));
        assert forall|i: int| 0 <= i < v.len() implies v[i] != 35 && v[i] != 10 by {
            assert(is_digit(v[i]));
        }
    } else {
        let (a, f) = snapshot_decimal_parts(k);
        let ip = num_text(a);
        let fp = num_text(f);
        lemma_num_text(a);
        lemma_num_text(f);
        assert(f < 10);
        assert(pow10(1) == 10) by {
            reveal_with_fuel(pow10, 2);
        }
        assert(a * 10 + f < 0x100_0000);
        lemma_dec_text(ip, fp);
        let v = dec_text(ip, fp);
        assert forall|i: int| 0 <= i < v.len() implies v[i] != 10 by {
            if i < ip.len() {
                assert(is_digit(ip[i]));
            } else if i > ip.len() {
                assert(is_digit(fp[i - ip.len() - 1]));
            }
        }
        assert(current_value(k) == Decimal { mantissa: (a * 10 + f) as u64, scale: 1 }) by {
            if k == 1 {} else if k == 2 {} else if k == 3 {} else if k == 4 {}
            else if k == 5 {} else if k == 6 {} else if k == 7 {} else {}
        }
    }
}

/// The entries read after the first `i` lines of the current snapshot.
pub open spec fn snapshot_state(i: nat) -> SnapshotFields {
    SnapshotFields {
        level: if i > 0 { Some(LEVEL) } else { None },
        values: Seq::new(8, |j: int| if j + 1 < i { Some(current_value((j + 1) as nat)) } else { None }),
    }
}

proof fn lemma_snapshot_line_free(k: nat)
    requires
        k < 9,
    ensures
        free_of(snapshot_lines()[k as int], 10),
{
    lemma_key_name_chars(k);
    lemma_snapshot_value(k);
    let key = key_name(k);
    let v = snapshot_value(k);
    let l = snapshot_lines()[k as int];
    assert(l == entry_line(key, v));
    assert forall|i: int| 0 <= i < l.len() implies l[i] != 10 by {
        if i < key.len() {
            assert(key_char(key[i]));
        } else if i >= key.len() + 3 {
            assert(l[i] == v[i - key.len() - 3]);
        }
    }
}

proof fn lemma_read_snapshot_from(i: nat)
    requires
        i <= 9,
    ensures
        read_from(snapshot_lines(), i as int, snapshot_state(i)) == Ok::<SnapshotFields, SnapshotError>(snapshot_state(9)),
    decreases 9 - i,
{
    let ls = snapshot_lines();
    if i < 9 {
        let st = snapshot_state(i);
        lemma_snapshot_value(i);
        lemma_read_entry(i, snapshot_value(i), st);
        assert(ls[i as int] == entry_line(key_name(i), snapshot_value(i)));
        assert(!field_is_set(st, i));
        if i == 0 {
            assert(snapshot_state(1).values =~= st.values);
        } else {
            assert(snapshot_state(i + 1).values =~= st.values.update(i - 1, Some(current_value(i))));
        }
        assert(assign_field(st, i, snapshot_value(i)) == Ok::<SnapshotFields, SnapshotError>(snapshot_state(i + 1)));
        lemma_read_snapshot_from(i + 1);
    }
}

/// The current level and constants are exactly what the snapshot text
/// says: reading the snapshot text gives `LEVEL` and `current_spec()`.
pub proof fn lemma_current_is_snapshot()
    ensures
        snapshot_meaning(snapshot_seq()) == Ok::<(u32, LevelConstant), SnapshotError>((LEVEL, current_spec())),
{
    let ls = snapshot_lines();
    assert forall|j: int| 0 <= j < ls.len() implies free_of(#[trigger] ls[j], 10) by {
        lemma_snapshot_line_free(j as nat);
    }
    assert(snapshot_state(0).values =~= empty_fields().values);
    lemma_read_join(ls, 0, empty_fields());
    lemma_read_snapshot_from(0);
    let st = snapshot_state(9);
    assert(all_fields_set(st));
    assert(fields_to_constant(st) == current_spec());
}

/// Appends the decimal digits of `n`.
fn push_number(out: &mut Vec<u8>, n: u64)
    ensures
        final(out)@ == old(out)@ + num_text(n as nat),
    decreases n,
{
    if n >= 10 {
        push_number(out, n / 10);
    }
    let d: u8 = (n % 10) as u8;
    out.push(48 + d);
    proof {
        if n >= 10 {
            assert(num_text(n as nat) == num_text((n / 10) as nat).push((48 + n % 10) as u8));
        }
    }
    assert(out@ =~= old(out)@ + num_text(n as nat));
}

/// Appends the bytes of `src`.
fn push_bytes(out: &mut Vec<u8>, src: &[u8])
    ensures
        final(out)@ == old(out)@ + src@,
{
    let mut i: usize = 0;
    while i < src.len()
        invariant
            i <= src@.len(),
            out@ == old(out)@ + src@.take(i as int),
        decreases src.len() - i,
    {
        out.push(src[i]);
        assert(src@.take(i + 1) =~= src@.take(i as int).push(src@[i as int]));
        i += 1;
    }
    assert(src@.take(src@.len() as int) =~= src@);
}

/// Appends the name of key `k`.
fn push_key(out: &mut Vec<u8>, k: usize)
    requires
        k < 9,
    ensures
        final(out)@ == old(out)@ + key_name(k as nat),
{
    if k == 0 {
        let n: [u8; 5] = [108, 101, 118, 101, 108];
        assert((&n)@ == key_name(0));
        push_bytes(out, &n);
    } else if k == 1 {
        let n: [u8; 12] = [112, 111, 102, 97, 110, 103, 95, 120, 105, 115, 104, 117];
        assert((&n)@ == key_name(1));
        push_bytes(out, &n);
    } else if k == 2 {
        let n: [u8; 12] = [104, 117, 105, 120, 105, 110, 95, 120, 105, 115, 104, 117];
        assert((&n)@ == key_name(2));
        push_bytes(out, &n);
    } else if k == 3 {
        let n: [u8; 13] = [104, 117, 105, 120, 105, 97, 111, 95, 120, 105, 115, 104, 117];
        assert((&n)@ == key_name(3));
        push_bytes(out, &n);
    } else if k == 4 {
        let n: [u8; 11] = [121, 117, 106, 105, 110, 95, 120, 105, 115, 104, 117];
        assert((&n)@ == key_name(4));
        push_bytes(out, &n);
    } else if k == 5 {
        let n: [u8; 11] = [121, 117, 104, 117, 105, 95, 120, 105, 115, 104, 117];
        assert((&n)@ == key_name(5));
        push_bytes(out, &n);
    } else if k == 6 {
        let n: [u8; 12] = [104, 117, 97, 106, 105, 110, 95, 120, 105, 115, 104, 117];
        assert((&n)@ == key_name(6));
        push_bytes(out, &n);
    } else if k == 7 {
        let n: [u8; 12] = [102, 97, 110, 103, 121, 117, 95, 120, 105, 115, 104, 117];
        assert((&n)@ == key_name(7));
        push_bytes(out, &n);
    } else {
        let n: [u8; 20] = [112, 118, 112, 95, 103, 108, 111, 98, 97, 108, 95, 106, 105, 97, 110, 115, 104, 97, 110, 103];
        assert((&n)@ == key_name(8));
        push_bytes(out, &n);
    }
}

/// The whole and fractional digits of decimal key `k` of the current snapshot.
fn decimal_parts(k: usize) -> (r: (u64, u64))
    requires
        1 <= k < 9,
    ensures
        r.0 as nat == snapshot_decimal_parts(k as nat).0,
        r.1 as nat == snapshot_decimal_parts(k as nat).1,
{
    if k == 1 {
        (225957, 6)
    } else if k == 2 {
        (197703, 0)
    } else if k == 3 {
        (72844, 2)
    } else if k == 4 {
        (197703, 0)
    } else if k == 5 {
        (55123, 2)
    } else if k == 6 {
        (30115, 8)
    } else if k == 7 {
        (126007, 2)
    } else {
        (0, 9)
    }
}

/// Appends line `k` of the current snapshot and its newline.
fn push_line(out: &mut Vec<u8>, k: usize)
    requires
        k < 9,
    ensures
        final(out)@ == old(out)@ + snapshot_lines()[k as int].push(10),
{
    let ghost start = out@;
    push_key(out, k);
    out.push(32);
    out.push(61);
    out.push(32);
    let ghost mid = out@;
    if k == 0 {
        push_number(out, LEVEL as u64);
    } else {
        let (a, f) = decimal_parts(k);
        push_number(out, a);
        out.push(46);
        push_number(out, f);
    }
    let ghost after = out@;
    out.push(10);
    assert(mid =~= start + key_name(k as nat) + seq![32u8, 61u8, 32u8]);
    assert(after =~= mid + snapshot_value(k as nat));
    assert(out@ =~= old(out)@ + snapshot_lines()[k as int].push(10));
}

/// The bytes of the current snapshot text.
pub fn snapshot_bytes() -> (r: Vec<u8>)
    ensures
        r@ == snapshot_seq(),
{
    let ghost ls = snapshot_lines();
    let mut out: Vec<u8> = Vec::new();
    let mut k: usize = 0;
    assert(out@ + join_from(ls, 0) =~= snapshot_seq());
    while k < 9
        invariant
            k <= 9,
            ls == snapshot_lines(),
            out@ + join_from(ls, k as int) == snapshot_seq(),
        decreases 9 - k,
    {
        let ghost before = out@;
        push_line(&mut out, k);
        assert(join_from(ls, k as int) == ls[k as int].push(10) + join_from(ls, k + 1));
        assert(before + join_from(ls, k as int) =~= out@ + join_from(ls, k + 1));
        k += 1;
    }
    assert(join_from(ls, 9) =~= Seq::<u8>::empty());
    assert(out@ + join_from(ls, 9) =~= out@);
    out
}

proof fn lemma_first_index_found(s: Seq<u8>, c: u8, i: int)
    requires
        0 <= i < s.len(),
        s[i] == c,
    ensures
        first_index(s, c) <= i,
    decreases s.len(),
{
    if s[0] != c {
        assert(s.drop_first()[i - 1] == c);
        lemma_first_index_found(s.drop_first(), c, i - 1);
    }
}

proof fn lemma_first_index_prefix(a: Seq<u8>, r: Seq<u8>, c: u8)
    requires
        first_index(a, c) < a.len(),
    ensures
        first_index(a + r, c) == first_index(a, c),
    decreases a.len(),
{
    if a[0] != c {
        assert((a + r).drop_first() =~= a.drop_first() + r);
        lemma_first_index_prefix(a.drop_first(), r, c);
    }
}

/// Reading whole lines and then the rest is reading both in turn.
proof fn lemma_read_lines_append(a: Seq<u8>, r: Seq<u8>, st: SnapshotFields)
    requires
        a.len() == 0 || a.last() == 10,
    ensures
        read_lines(a + r, st) == (match read_lines(a, st) {
            Err(e) => Err(e),
            Ok(s1) => read_lines(r, s1),
        }),
    decreases a.len(),
{
    if a.len() == 0 {
        assert(a + r =~= r);
    } else {
        lemma_first_index_found(a, 10, a.len() - 1);
        let e = first_index(a, 10);
        lemma_first_index_prefix(a, r, 10);
        let t = a + r;
        assert(t.take(e as int) =~= a.take(e as int));
        assert(t.skip(e + 1 as int) =~= a.skip(e + 1 as int) + r);
        let rest = a.skip(e + 1 as int);
        if rest.len() > 0 {
            assert(rest.last() == a.last());
        }
        match read_line(a.take(e as int), st) {
            Ok(s2) => lemma_read_lines_append(rest, r, s2),
            Err(_) => {},
        }
    }
}

/// A line keeps the eight decimal slots, and a key that is already set
/// keeps its value (a second occurrence is an error).
proof fn lemma_read_line_keeps(l: Seq<u8>, st: SnapshotFields, k: nat)
    requires
        st.values.len() == 8,
        k < 9,
        read_line(l, st) is Ok,
    ensures
        read_line(l, st)->Ok_0.values.len() == 8,
        field_is_set(st, k) ==> (k == 0 ==> read_line(l, st)->Ok_0.level == st.level),
        field_is_set(st, k) ==> (k > 0 ==> read_line(l, st)->Ok_0.values[k - 1] == st.values[k - 1]),
{
}

/// Reading lines keeps the eight decimal slots and the value of every key
/// that is already set.
proof fn lemma_read_lines_keeps(t: Seq<u8>, st: SnapshotFields, k: nat)
    requires
        st.values.len() == 8,
        k < 9,
        read_lines(t, st) is Ok,
    ensures
        read_lines(t, st)->Ok_0.values.len() == 8,
        field_is_set(st, k) ==> (k == 0 ==> read_lines(t, st)->Ok_0.level == st.level),
        field_is_set(st, k) ==> (k > 0 ==> read_lines(t, st)->Ok_0.values[k - 1] == st.values[k - 1]),
    decreases t.len(),
{
    if t.len() > 0 {
        let e = first_index(t, 10);
        let l = t.take(e as int);
        lemma_read_line_keeps(l, st, k);
        let s2 = read_line(l, st)->Ok_0;
        if e < t.len() {
            lemma_read_lines_keeps(t.skip(e + 1 as int), s2, k);
        }
    }
}

/// The constants of a well-formed snapshot are those written on the lines
/// of their own keys: wherever the line `<key> = <v>` stands among the lines
/// of a snapshot that parses, the level is the integer `v` when the key is
/// `level`, and each of the eight constants is the decimal `v` written on the
/// line of its own key (`pofang_xishu`, `huixin_xishu`, `huixiao_xishu`,
/// `yujin_xishu`, `yuhui_xishu`, `huajin_xishu`, `fangyu_xishu`,
/// `pvp_global_jianshang`).
pub proof fn lemma_snapshot_entry_value(a: Seq<u8>, k: nat, v: Seq<u8>, b: Seq<u8>)
    requires
        k < 9,
        a.len() == 0 || a.last() == 10,
        v.len() > 0,
        !is_blank(v[0]),
        !is_blank(v.last()),
        free_of(v, 35),
        free_of(v, 10),
        snapshot_meaning(a + entry_line(key_name(k), v).push(10) + b) is Ok,
    ensures
        ({
            let (level, c) = snapshot_meaning(a + entry_line(key_name(k), v).push(10) + b)->Ok_0;
            &&& k == 0 ==> integer_value(v) == Ok::<u32, SnapshotError>(level)
            &&& k == 1 ==> decimal_value(v) == Ok::<Decimal, SnapshotError>(c.pofang_xishu)
            &&& k == 2 ==> decimal_value(v) == Ok::<Decimal, SnapshotError>(c.huixin_xishu)
            &&& k == 3 ==> decimal_value(v) == Ok::<Decimal, SnapshotError>(c.huixiao_xishu)
            &&& k == 4 ==> decimal_value(v) == Ok::<Decimal, SnapshotError>(c.yujin_xishu)
            &&& k == 5 ==> decimal_value(v) == Ok::<Decimal, SnapshotError>(c.yuhui_xishu)
            &&& k == 6 ==> decimal_value(v) == Ok::<Decimal, SnapshotError>(c.huajin_xishu)
            &&& k == 7 ==> decimal_value(v) == Ok::<Decimal, SnapshotError>(c.fangyu_xishu)
            &&& k == 8 ==> decimal_value(v) == Ok::<Decimal, SnapshotError>(c.pvp_global_jianshang)
        }),
{
    let key = key_name(k);
    let l = entry_line(key, v);
    let text = a + l.push(10) + b;
    lemma_key_name_chars(k);
    assert(free_of(l, 10)) by {
        assert forall|i: int| 0 <= i < l.len() implies l[i] != 10 by {
            if i < key.len() {
                assert(key_char(key[i]));
            } else if i >= key.len() + 3 {
                assert(l[i] == v[i - key.len() - 3]);
            }
        }
    }
    assert(text =~= a + (l.push(10) + b));
    let e0 = empty_fields();
    lemma_read_lines_append(a, l.push(10) + b, e0);
    let s1 = read_lines(a, e0)->Ok_0;
    lemma_read_lines_keeps(a, e0, 0);
    lemma_read_lines_cons(l, b, s1);
    lemma_read_entry(k, v, s1);
    let s2 = assign_field(s1, k, v)->Ok_0;
    lemma_read_lines_keeps(b, s2, k);
}

} // verus!
