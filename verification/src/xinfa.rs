//! Data versions of the profession files and the profession list.

use vstd::prelude::*;
use crate::text::{chars_to_string, decimal_chars, decimal_chars_padded, dec_digits, dec_padded, push_all, str_chars};

verus! {

/// Season version of a profession data file.
#[derive(Clone, Copy, Debug, PartialEq, Eq, Structural)]
pub struct VersionInfo {
    pub level: u32,
    pub season: u32,
    pub modified: u32,
}

impl Default for VersionInfo {
    fn default() -> (r: Self)
        ensures
            r == (VersionInfo { level: 0, season: 0, modified: 0 }),
    {
        VersionInfo { level: 0, season: 0, modified: 0 }
    }
}

/// `level.season.modified` in decimal.
pub open spec fn compact_text(v: VersionInfo) -> Seq<char> {
    dec_digits(v.level as nat) + seq!['.'] + dec_digits(v.season as nat) + seq!['.'] + dec_digits(
        v.modified as nat,
    )
}

/// The modification date `YYYYMMDD` shown as `YYYY-MM-DD`; a date that does
/// not have eight digits after zero-padding is shown padded as it is.
pub open spec fn pretty_date(modified: u32) -> Seq<char> {
    let m = dec_padded(modified as nat, 8);
    if m.len() == 8 {
        m.subrange(0, 4) + seq!['-'] + m.subrange(4, 6) + seq!['-'] + m.subrange(6, 8)
    } else {
        m
    }
}

/// `<level>级第<season>赛季 (<date>)`.
pub open spec fn label_text(v: VersionInfo) -> Seq<char> {
    dec_digits(v.level as nat) + seq!['级', '第'] + dec_digits(v.season as nat) + seq![
        '赛',
        '季',
        ' ',
        '(',
    ] + pretty_date(v.modified) + seq![')']
}

impl VersionInfo {
    /// Data version number `level.season.modified`, e.g. `130.3.20260602`.
    pub fn compact(&self) -> (r: String)
        ensures
            r@ == compact_text(*self),
    {
        let mut v = decimal_chars(self.level as u64);
        v.push('.');
        let s = decimal_chars(self.season as u64);
        push_all(&mut v, &s);
        v.push('.');
        let m = decimal_chars(self.modified as u64);
        push_all(&mut v, &m);
        chars_to_string(&v)
    }

    /// Data version number with a `v` prefix, e.g. `v130.3.20260602`.
    pub fn compact_v(&self) -> (r: String)
        ensures
            r@ == seq!['v'] + compact_text(*self),
    {
        let mut v: Vec<char> = Vec::new();
        v.push('v');
        let c = self.compact();
        let cs = str_chars(c.as_str());
        push_all(&mut v, &cs);
        chars_to_string(&v)
    }

    fn modified_date_pretty(&self) -> (r: Vec<char>)
        ensures
            r@ == pretty_date(self.modified),
    {
        let m = decimal_chars_padded(self.modified as u64, 8);
        if m.len() == 8 {
            let mut v: Vec<char> = Vec::new();
            let mut i: usize = 0;
            while i < 8
                invariant
                    m@.len() == 8,
                    i <= 8,
                    v@ == (if i <= 4 {
                        m@.subrange(0, i as int)
                    } else if i <= 6 {
                        m@.subrange(0, 4) + seq!['-'] + m@.subrange(4, i as int)
                    } else {
                        m@.subrange(0, 4) + seq!['-'] + m@.subrange(4, 6) + seq!['-'] + m@.subrange(6, i as int)
                    }),
                decreases 8 - i,
            {
                if i == 4 || i == 6 {
                    v.push('-');
                }
                v.push(m[i]);
                i += 1;
            }
            v
        } else {
            m
        }
    }

    /// Display label `130级第3赛季 (2026-06-02)`; none when the level is 0.
    pub fn label(&self) -> (r: Option<String>)
        ensures
            self.level > 0 ==> (r matches Some(s) && s@ == label_text(*self)),
            self.level == 0 ==> r is None,
    {
        if self.level > 0 {
            let mut v = decimal_chars(self.level as u64);
            v.push('级');
            v.push('第');
            let s = decimal_chars(self.season as u64);
            push_all(&mut v, &s);
            v.push('赛');
            v.push('季');
            v.push(' ');
            v.push('(');
            let d = self.modified_date_pretty();
            push_all(&mut v, &d);
            v.push(')');
            Some(chars_to_string(&v))
        } else {
            None
        }
    }
}

/// One entry of the profession list.
#[derive(Debug)]
pub struct XinfaSummary {
    pub value: String,
    pub label: String,
    pub nom: String,
    pub version_label: Option<String>,
    pub version: VersionInfo,
}

impl Clone for XinfaSummary {
    fn clone(&self) -> (r: Self)
        ensures
            r == *self,
    {
        XinfaSummary {
            value: self.value.clone(),
            label: self.label.clone(),
            nom: self.nom.clone(),
            version_label: match &self.version_label {
                Some(s) => Some(s.clone()),
                None => None,
            },
            version: self.version,
        }
    }
}

/// The label shown for a data version: none for level 0.
pub open spec fn label_of(v: VersionInfo) -> Option<Seq<char>> {
    if v.level > 0 {
        Some(label_text(v))
    } else {
        None
    }
}

/// The characters of an optional string.
pub open spec fn opt_view(o: Option<String>) -> Option<Seq<char>> {
    match o {
        Some(s) => Some(s@),
        None => None,
    }
}

impl XinfaSummary {
    /// The profession list entry of a data file: its group key, the
    /// profession's name and base attribute, and its data version (zero when
    /// the file records none) with the version's label.
    pub fn of_file(key: String, xinfa_name: String, xinfa_nom: String, version: Option<VersionInfo>) -> (r: Self)
        ensures
            r.value == key,
            r.label == xinfa_name,
            r.nom == xinfa_nom,
            r.version == (match version {
                Some(v) => v,
                None => VersionInfo { level: 0, season: 0, modified: 0 },
            }),
            opt_view(r.version_label) == label_of(r.version),
    {
        let ver = match version {
            Some(v) => v,
            None => VersionInfo::default(),
        };
        let version_label = ver.label();
        XinfaSummary { value: key, label: xinfa_name, nom: xinfa_nom, version_label, version: ver }
    }
}

} // verus!
