//! Turning what the platform's process lookup utilities print into process
//! identifiers, and the texts those utilities and the memory file are named by.
use vstd::prelude::*;
use vstd::string::{StrSliceExecFns, StringExecFns};

use crate::error::ProcError;

verus! {

/// The largest identifier a process can have (the largest positive `pid_t`).
pub const PID_MAX: u32 = 0x7fff_ffff;

pub open spec fn is_blank(c: u8) -> bool {
    c == 32u8 || (9u8 <= c && c <= 13u8)
}

pub open spec fn is_digit(c: u8) -> bool {
    48u8 <= c && c <= 57u8
}

/// The first index at or after `i` that does not hold a blank.
pub open spec fn blank_end(s: Seq<u8>, i: int) -> int
    decreases s.len() - i,
{
    if 0 <= i < s.len() && is_blank(s[i]) {
        blank_end(s, i + 1)
    } else {
        i
    }
}

/// The first index at or after `i` that does not hold a decimal digit.
pub open spec fn digit_end(s: Seq<u8>, i: int) -> int
    decreases s.len() - i,
{
    if 0 <= i < s.len() && is_digit(s[i]) {
        digit_end(s, i + 1)
    } else {
        i
    }
}

/// The first index at or after `i` that holds `c`, or the length of `s`.
pub open spec fn byte_end(s: Seq<u8>, i: int, c: u8) -> int
    decreases s.len() - i,
{
    if 0 <= i < s.len() && s[i] != c {
        byte_end(s, i + 1, c)
    } else {
        i
    }
}

/// The first index in `i .. e` that does not hold `c`, or `e`.
pub open spec fn skip_front(s: Seq<u8>, i: int, e: int, c: u8) -> int
    decreases e - i,
{
    if i < e && s[i] == c {
        skip_front(s, i + 1, e, c)
    } else {
        i
    }
}

/// The end of `lo .. e` once every trailing `c` is dropped.
pub open spec fn skip_back(s: Seq<u8>, lo: int, e: int, c: u8) -> int
    decreases e - lo,
{
    if lo < e && s[e - 1] == c {
        skip_back(s, lo, e - 1, c)
    } else {
        e
    }
}

/// The number that the decimal digits `d` spell.
pub open spec fn decimal_value(d: Seq<u8>) -> nat
    decreases d.len(),
{
    if d.len() == 0 {
        0
    } else {
        decimal_value(d.drop_last()) * 10 + (d.last() - 48) as nat
    }
}

/// The process identifier in the output of `pidof -s`: the number that
/// follows any leading blanks; none when it is zero, absent or too large.
pub open spec fn pidof_pid(out: Seq<u8>) -> Result<u32, ProcError> {
    let lo = blank_end(out, 0);
    let v = decimal_value(out.subrange(lo, digit_end(out, lo)));
    if 0 < v <= PID_MAX {
        Ok(v as u32)
    } else {
        Err(ProcError::NotFound)
    }
}

/// The process identifier in the CSV output of `tasklist /FO CSV /NH`: the
/// second comma-separated field, without its surrounding quotes, which must
/// be a positive decimal number that fits in `u32`.
pub open spec fn tlist_pid(out: Seq<u8>) -> Result<u32, ProcError> {
    let c = byte_end(out, 0, 44u8);
    let e = byte_end(out, c + 1, 44u8);
    let lo = skip_front(out, c + 1, e, 34u8);
    let hi = skip_back(out, lo, e, 34u8);
    let v = decimal_value(out.subrange(lo, hi));
    if c < out.len() && digit_end(out, lo) >= hi && 0 < v <= u32::MAX {
        Ok(v as u32)
    } else {
        Err(ProcError::NotFound)
    }
}

pub open spec fn digit_char(d: nat) -> char {
    (48 + d) as char
}

/// The decimal representation of `n`, without leading zeros.
pub open spec fn decimal_chars(n: nat) -> Seq<char>
    decreases n,
{
    if n < 10 {
        seq![digit_char(n)]
    } else {
        decimal_chars(n / 10).push(digit_char(n % 10))
    }
}

fn blank_end_exec(s: &[u8], i: usize) -> (r: usize)
    requires
        i <= s@.len(),
    ensures
        r == blank_end(s@, i as int),
        i <= r <= s@.len(),
{
    let mut j = i;
    while j < s.len() && (s[j] == 32 || (9 <= s[j] && s[j] <= 13))
        invariant
            i <= j <= s@.len(),
            blank_end(s@, j as int) == blank_end(s@, i as int),
        decreases s@.len() - j,
    {
        j = j + 1;
    }
    j
}

fn digit_end_exec(s: &[u8], i: usize) -> (r: usize)
    requires
        i <= s@.len(),
    ensures
        r == digit_end(s@, i as int),
        i <= r <= s@.len(),
{
    let mut j = i;
    while j < s.len() && 48 <= s[j] && s[j] <= 57
        invariant
            i <= j <= s@.len(),
            digit_end(s@, j as int) == digit_end(s@, i as int),
        decreases s@.len() - j,
    {
        j = j + 1;
    }
    j
}

fn byte_end_exec(s: &[u8], i: usize, c: u8) -> (r: usize)
    requires
        i <= s@.len(),
    ensures
        r == byte_end(s@, i as int, c),
        i <= r <= s@.len(),
{
    let mut j = i;
    while j < s.len() && s[j] != c
        invariant
            i <= j <= s@.len(),
            byte_end(s@, j as int, c) == byte_end(s@, i as int, c),
        decreases s@.len() - j,
    {
        j = j + 1;
    }
    j
}

fn skip_front_exec(s: &[u8], i: usize, e: usize, c: u8) -> (r: usize)
    requires
        i <= e <= s@.len(),
    ensures
        r == skip_front(s@, i as int, e as int, c),
        i <= r <= e,
{
    let mut j = i;
    while j < e && s[j] == c
        invariant
            i <= j <= e <= s@.len(),
            skip_front(s@, j as int, e as int, c) == skip_front(s@, i as int, e as int, c),
        decreases e - j,
    {
        j = j + 1;
    }
    j
}

fn skip_back_exec(s: &[u8], lo: usize, e: usize, c: u8) -> (r: usize)
    requires
        lo <= e <= s@.len(),
    ensures
        r == skip_back(s@, lo as int, e as int, c),
        lo <= r <= e,
{
    let mut j = e;
    while lo < j && s[j - 1] == c
        invariant
            lo <= j <= e <= s@.len(),
            skip_back(s@, lo as int, j as int, c) == skip_back(s@, lo as int, e as int, c),
        decreases j - lo,
    {
        j = j - 1;
    }
    j
}

proof fn lemma_decimal_step(s: Seq<u8>, lo: int, k: int)
    requires
        0 <= lo <= k < s.len(),
    ensures
        decimal_value(s.subrange(lo, k + 1)) == decimal_value(s.subrange(lo, k)) * 10 + (s[k] - 48) as nat,
{
    assert(s.subrange(lo, k + 1).drop_last() =~= s.subrange(lo, k));
}

/// The value of the digits `s[lo..hi]`, or `cap` where it is `cap` or more.
fn decimal_capped(s: &[u8], lo: usize, hi: usize, cap: u64) -> (r: u64)
    requires
        lo <= hi <= s@.len(),
        forall|k: int| lo <= k < hi ==> is_digit(#[trigger] s@[k]),
        cap <= 0x1_0000_0000,
    ensures
        r == (if decimal_value(s@.subrange(lo as int, hi as int)) < cap {
            decimal_value(s@.subrange(lo as int, hi as int))
        } else {
            cap as nat
        }),
{
    let mut acc: u64 = 0;
    let mut k = lo;
    assert(s@.subrange(lo as int, lo as int).len() == 0);
    while k < hi
        invariant
            lo <= k <= hi <= s@.len(),
            forall|j: int| lo <= j < hi ==> is_digit(#[trigger] s@[j]),
            cap <= 0x1_0000_0000,
            acc == (if decimal_value(s@.subrange(lo as int, k as int)) < cap {
                decimal_value(s@.subrange(lo as int, k as int))
            } else {
                cap as nat
            }),
        decreases hi - k,
    {
        proof {
            lemma_decimal_step(s@, lo as int, k as int);
            assert(is_digit(s@[k as int]));
        }
        let d = (s[k] - 48) as u64;
        if acc < cap {
            let n = acc * 10 + d;
            acc = if n < cap { n } else { cap };
        }
        k = k + 1;
    }
    acc
}

/// Reads the process identifier that `pidof -s` printed.
pub fn parse_pidof_output(out: &[u8]) -> (r: Result<u32, ProcError>)
    ensures
        r == pidof_pid(out@),
{
    let lo = blank_end_exec(out, 0);
    let hi = digit_end_exec(out, lo);
    proof {
        assert forall|k: int| lo <= k < hi implies is_digit(#[trigger] out@[k]) by {
            lemma_digit_run(out@, lo as int, k);
        }
    }
    let v = decimal_capped(out, lo, hi, 0x8000_0000);
    if 0 < v && v <= PID_MAX as u64 {
        Ok(v as u32)
    } else {
        Err(ProcError::NotFound)
    }
}

proof fn lemma_digit_run(s: Seq<u8>, i: int, k: int)
    requires
        0 <= i <= k < digit_end(s, i),
    ensures
        is_digit(s[k]),
    decreases k - i,
{
    if k > i {
        lemma_digit_run(s, i + 1, k);
    }
}

/// Reads the process identifier from the CSV line that `tasklist` printed.
pub fn parse_tlist_output(out: &[u8]) -> (r: Result<u32, ProcError>)
    ensures
        r == tlist_pid(out@),
{
    let c = byte_end_exec(out, 0, 44);
    if c >= out.len() {
        return Err(ProcError::NotFound);
    }
    let e = byte_end_exec(out, c + 1, 44);
    let lo = skip_front_exec(out, c + 1, e, 34);
    let hi = skip_back_exec(out, lo, e, 34);
    let d = digit_end_exec(out, lo);
    if d < hi {
        return Err(ProcError::NotFound);
    }
    proof {
        assert forall|k: int| lo <= k < hi implies is_digit(#[trigger] out@[k]) by {
            lemma_digit_run(out@, lo as int, k);
        }
    }
    let v = decimal_capped(out, lo, hi, 0x1_0000_0000);
    if 0 < v && v <= u32::MAX as u64 {
        Ok(v as u32)
    } else {
        Err(ProcError::NotFound)
    }
}

/// The single-character text of decimal digit `d`.
fn digit_str(d: u32) -> (r: &'static str)
    requires
        d < 10,
    ensures
        r@ == seq![digit_char(d as nat)],
{
    proof {
        reveal_strlit("0");
        reveal_strlit("1");
        reveal_strlit("2");
        reveal_strlit("3");
        reveal_strlit("4");
        reveal_strlit("5");
        reveal_strlit("6");
        reveal_strlit("7");
        reveal_strlit("8");
        reveal_strlit("9");
    }
    match d {
        0 => "0",
        1 => "1",
        2 => "2",
        3 => "3",
        4 => "4",
        5 => "5",
        6 => "6",
        7 => "7",
        8 => "8",
        _ => "9",
    }
}

/// Appends the decimal representation of `n` to `s`.
pub fn append_decimal(s: &mut String, n: u32)
    ensures
        final(s)@ == old(s)@ + decimal_chars(n as nat),
    decreases n,
{
    if n >= 10 {
        append_decimal(s, n / 10);
    }
    s.append(digit_str(n % 10));
    proof {
        if n < 10 {
            assert(n % 10 == n);
        } else {
            assert(old(s)@ + decimal_chars(n as nat) =~= old(s)@ + decimal_chars((n / 10) as nat) + seq![
                digit_char((n % 10) as nat),
            ]);
        }
    }
}

/// The text of `s` inside single quotes for `sh`, where a quote cannot be
/// escaped: each `'` closes the quoted part, adds an escaped quote, and
/// opens a new quoted part.
pub open spec fn sh_quoted_body(s: Seq<char>) -> Seq<char>
    decreases s.len(),
{
    if s.len() == 0 {
        Seq::empty()
    } else {
        sh_quoted_body(s.drop_last()) + (if s.last() == '\'' {
            seq!['\'', '\\', '\'', '\'']
        } else {
            seq![s.last()]
        })
    }
}

/// The `sh` command line that asks `pidof` for one identifier of the process
/// named exactly `proc_name`: the name is a single quoted word, so the shell
/// neither splits it nor interprets any character of it.
pub fn pidof_command(proc_name: &str) -> (r: String)
    ensures
        r@ == "pidof -s '"@ + sh_quoted_body(proc_name@) + "'"@,
{
    let mut r = String::from_str("pidof -s '");
    let ghost start = r@;
    let n = proc_name.unicode_len();
    let mut i: usize = 0;
    while i < n
        invariant
            i <= n,
            n == proc_name@.len(),
            r@ == start + sh_quoted_body(proc_name@.subrange(0, i as int)),
        decreases n - i,
    {
        proof {
            assert(proc_name@.subrange(0, i + 1).drop_last() =~= proc_name@.subrange(0, i as int));
            reveal_strlit("'\\''");
        }
        let c = proc_name.get_char(i);
        if c == '\'' {
            r.append("'\\''");
        } else {
            r.append(proc_name.substring_char(i, i + 1));
        }
        i = i + 1;
        proof {
            assert(r@ =~= start + sh_quoted_body(proc_name@.subrange(0, i as int)));
        }
    }
    assert(proc_name@.subrange(0, n as int) =~= proc_name@);
    r.concat("'")
}

/// The `tasklist` filter that selects processes whose image is `proc_name`.exe.
pub fn tasklist_filter(proc_name: &str) -> (r: String)
    ensures
        r@ == "IMAGENAME eq "@ + proc_name@ + ".exe"@,
{
    String::from_str("IMAGENAME eq ").concat(proc_name).concat(".exe")
}

/// The memory pseudo-file of process `pid`.
pub fn mem_path(pid: u32) -> (r: String)
    ensures
        r@ == "/proc/"@ + decimal_chars(pid as nat) + "/mem"@,
{
    let mut r = String::from_str("/proc/");
    append_decimal(&mut r, pid);
    r.concat("/mem")
}

/// A resolved identifier stands for a process only when it is not zero.
pub fn check_pid(pid: u32) -> (r: Result<u32, ProcError>)
    ensures
        r == (if pid == 0 { Err(ProcError::NotFound) } else { Ok::<u32, ProcError>(pid) }),
{
    if pid == 0 {
        Err(ProcError::NotFound)
    } else {
        Ok(pid)
    }
}

/// An acquired handle grants access only when it is not null.
pub fn check_handle(handle: isize) -> (r: Result<isize, ProcError>)
    ensures
        r == (if handle == 0 { Err(ProcError::AccessDenied) } else { Ok::<isize, ProcError>(handle) }),
{
    if handle == 0 {
        Err(ProcError::AccessDenied)
    } else {
        Ok(handle)
    }
}

} // verus!
