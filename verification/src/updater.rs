//! Command line of the binary replacer that finishes an application update:
//! the process to wait for, the old and new program paths and the working
//! directory to restart in.

use vstd::prelude::*;
use crate::text::str_chars;

verus! {

/// The arguments of the replacer.
#[derive(Debug)]
pub struct UpdaterArgs {
    /// Process that must exit before the program is replaced.
    pub parent_pid: u32,
    /// Program to replace (and to start afterwards).
    pub old_path: String,
    /// Downloaded program.
    pub new_path: String,
    /// Working directory of the restarted program.
    pub workdir: String,
}

/// Why the command line was refused.
#[derive(Debug, Clone, Copy, PartialEq, Eq, Structural)]
pub enum UpdaterArgsError {
    /// Fewer than four arguments after the program name.
    Usage,
    /// The process id is not an unsigned 32-bit decimal number.
    InvalidPid,
}

/// Whether every character is an ASCII digit.
pub open spec fn all_dec(s: Seq<char>) -> bool {
    forall|i: int| 0 <= i < s.len() ==> '0' <= #[trigger] s[i] <= '9'
}

/// The value of a string of ASCII digits.
pub open spec fn dec_value(s: Seq<char>) -> nat
    decreases s.len(),
{
    if s.len() == 0 {
        0
    } else {
        dec_value(s.drop_last()) * 10 + ((s.last() as nat) - 48) as nat
    }
}

/// What `u32::from_str` accepts: an optional `+` then one or more ASCII
/// digits whose value fits in 32 bits.
pub open spec fn u32_text_value(s: Seq<char>) -> Option<u32> {
    let d = if s.len() > 0 && s[0] == '+' { s.skip(1) } else { s };
    if d.len() == 0 || !all_dec(d) || dec_value(d) > u32::MAX {
        None
    } else {
        Some(dec_value(d) as u32)
    }
}

proof fn lemma_dec_value_grows(s: Seq<char>, c: char)
    requires
        '0' <= c <= '9',
    ensures
        dec_value(s.push(c)) >= dec_value(s),
        dec_value(s.push(c)) == dec_value(s) * 10 + ((c as nat) - 48),
{
    assert(s.push(c).drop_last() =~= s);
}

proof fn lemma_dec_value_prefix(s: Seq<char>, i: int, j: int)
    requires
        0 <= i <= j <= s.len(),
        all_dec(s),
    ensures
        dec_value(s.take(i)) <= dec_value(s.take(j)),
    decreases j - i,
{
    if i < j {
        lemma_dec_value_prefix(s, i, j - 1);
        assert(s.take(j) =~= s.take(j - 1).push(s[j - 1]));
        lemma_dec_value_grows(s.take(j - 1), s[j - 1]);
    }
}

/// Parses a process id as `u32::from_str` does.
pub fn parse_pid(s: &str) -> (r: Option<u32>)
    ensures
        r == u32_text_value(s@),
{
    let c = str_chars(s);
    let start: usize = if c.len() > 0 && c[0] == '+' { 1 } else { 0 };
    let ghost d = if c@.len() > 0 && c@[0] == '+' { c@.skip(1) } else { c@ };
    assert(d =~= c@.skip(start as int));
    if start == c.len() {
        return None;
    }
    let mut acc: u64 = 0;
    let mut i: usize = start;
    while i < c.len()
        invariant
            start <= i <= c@.len(),
            c@ == s@,
            d == c@.skip(start as int),
            d == (if s@.len() > 0 && s@[0] == '+' { s@.skip(1) } else { s@ }),
            d.len() > 0,
            acc == dec_value(d.take(i - start)),
            acc <= u32::MAX,
            all_dec(d.take(i - start)),
        decreases c.len() - i,
    {
        let x = c[i];
        assert(d.take(i - start + 1) =~= d.take(i - start).push(x));
        if !('0' <= x && x <= '9') {
            assert(!all_dec(d)) by {
                assert(d[i - start] == x);
            }
            return None;
        }
        proof {
            lemma_dec_value_grows(d.take(i - start), x);
        }
        let digit = (x as u64) - 48;
        acc = acc * 10 + digit;
        if acc > 0xffff_ffff {
            proof {
                if all_dec(d) {
                    lemma_dec_value_prefix(d, i - start + 1, d.len() as int);
                    assert(d.take(d.len() as int) =~= d);
                }
            }
            return None;
        }
        i += 1;
    }
    assert(d.take(d.len() as int) =~= d);
    Some(acc as u32)
}

/// Reads the replacer's command line (`args[0]` is the program name):
/// the parent process id, the old and new program paths and the working
/// directory; arguments after these are ignored.
pub fn parse_updater_args(args: &Vec<String>) -> (r: Result<UpdaterArgs, UpdaterArgsError>)
    ensures
        args@.len() < 5 ==> r == Err::<UpdaterArgs, UpdaterArgsError>(UpdaterArgsError::Usage),
        args@.len() >= 5 && u32_text_value(args@[1]@) is None ==> r == Err::<UpdaterArgs, UpdaterArgsError>(
            UpdaterArgsError::InvalidPid,
        ),
        args@.len() >= 5 ==> (u32_text_value(args@[1]@) matches Some(pid) ==> (r matches Ok(a) && a.parent_pid
            == pid && a.old_path == args@[2] && a.new_path == args@[3] && a.workdir == args@[4])),
{
    if args.len() < 5 {
        return Err(UpdaterArgsError::Usage);
    }
    match parse_pid(args[1].as_str()) {
        None => Err(UpdaterArgsError::InvalidPid),
        Some(pid) => Ok(
            UpdaterArgs {
                parent_pid: pid,
                old_path: args[2].clone(),
                new_path: args[3].clone(),
                workdir: args[4].clone(),
            },
        ),
    }
}

/// A process id is read as `u32::from_str` reads it: digits alone or after
/// one `+` give their value when it fits in 32 bits; the empty text, a lone
/// `+`, and a text with any other character (such as `-`) give none.
pub proof fn lemma_pid_text(d: Seq<char>, c: char)
    ensures
        d.len() > 0 && all_dec(d) && dec_value(d) <= u32::MAX ==> u32_text_value(d) == Some(dec_value(d) as u32)
            && u32_text_value(seq!['+'] + d) == Some(dec_value(d) as u32),
        u32_text_value(Seq::<char>::empty()) is None,
        u32_text_value(seq!['+']) is None,
        !('0' <= c <= '9') && c != '+' ==> u32_text_value(seq![c] + d) is None,
        all_dec(d) && dec_value(d) > u32::MAX ==> u32_text_value(d) is None,
{
    assert((seq!['+'] + d).skip(1) =~= d);
    assert(seq!['+'].skip(1) =~= Seq::<char>::empty());
    if !('0' <= c <= '9') && c != '+' {
        assert((seq![c] + d)[0] == c);
    }
}

} // verus!
