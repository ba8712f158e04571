//! `Bash`: what a shell command's run is reported as.
use crate::text::{decimal_int, from_utf8_lossy, i64_decimal, string_of, utf8_lossy};
use crate::tokens::utf8_len_char;
use vstd::string::StringExecFns;
use vstd::prelude::*;

verus! {

pub const DESCRIPTION: &'static str = "Run a shell command via `bash -lc`. Returns stdout + stderr joined. Requires user permission before each call (the runtime will prompt). Use for build/test commands, file listings, environment checks. Default timeout 30s; max 5 min.";

pub const PARAMETERS: &'static str = "{\"type\":\"object\",\"properties\":{\"command\":{\"type\":\"string\",\"description\":\"Shell command to run. Will be invoked as `bash -lc <command>`.\"},\"timeout\":{\"type\":\"integer\",\"description\":\"Optional timeout in milliseconds (default 30000, max 300000).\"}},\"required\":[\"command\"],\"additionalProperties\":false}";

pub const DEFAULT_TIMEOUT_MS: u64 = 30000;
pub const MAX_TIMEOUT_MS: u64 = 300000;
/// Bytes of output kept.
pub const MAX_OUTPUT_BYTES: usize = 102400;

/// The timeout of a run: the requested one (default 30 s), at most 5 min.
pub fn timeout_ms(requested: Option<u64>) -> (r: u64)
    ensures
        r == match requested {
            None => DEFAULT_TIMEOUT_MS,
            Some(t) => if t < MAX_TIMEOUT_MS { t } else { MAX_TIMEOUT_MS },
        },
{
    let t = match requested {
        Some(t) => t,
        None => DEFAULT_TIMEOUT_MS,
    };
    if t < MAX_TIMEOUT_MS { t } else { MAX_TIMEOUT_MS }
}

/// Stdout, then (when stderr is not empty) a newline if stdout does not end
/// one, `[stderr]` and stderr.
pub open spec fn combined_output(out: Seq<char>, err: Seq<char>) -> Seq<char> {
    if err.len() == 0 {
        out
    } else {
        (if out.len() > 0 && out.last() != '\n' { out.push('\n') } else { out }) + "[stderr]\n"@ + err
    }
}

pub fn combine_output(stdout: &[u8], stderr: &[u8]) -> (r: String)
    ensures
        r@ == combined_output(utf8_lossy(stdout@), utf8_lossy(stderr@)),
{
    let mut out = from_utf8_lossy(stdout);
    let err = from_utf8_lossy(stderr);
    if !err.as_str().is_empty() {
        let ov = crate::text::chars_of(out.as_str());
        if ov.len() > 0 && ov[ov.len() - 1] != '\n' {
            crate::text::push_char(&mut out, '\n');
        }
        out.append("[stderr]\n");
        out.append(err.as_str());
    }
    out
}

/// The number of leading characters of `s[k..]` that take exactly `n - acc`
/// more bytes, offset by `k`; `-1` when `n` falls inside a character or past
/// the end.
pub open spec fn char_index_at_byte(s: Seq<char>, n: int, k: int, acc: int) -> int
    decreases s.len() - k,
{
    if acc == n {
        k
    } else if k < 0 || k >= s.len() || acc > n {
        -1
    } else {
        char_index_at_byte(s, n, k + 1, acc + utf8_len_char(s[k]))
    }
}

/// Whether byte `n` of `s` starts a character (or is its end).
pub open spec fn is_byte_boundary(s: Seq<char>, n: int) -> bool {
    char_index_at_byte(s, n, 0, 0) >= 0
}

/// The first `n` bytes of `s` (`String::truncate`), where `n` is a boundary.
pub open spec fn byte_prefix(s: Seq<char>, n: int) -> Seq<char> {
    s.take(char_index_at_byte(s, n, 0, 0))
}

pub(crate) fn char_index_at_byte_of(v: &[char], n: usize) -> (r: Option<usize>)
    ensures
        match r {
            Some(k) => k as int == char_index_at_byte(v@, n as int, 0, 0) && k <= v@.len(),
            None => char_index_at_byte(v@, n as int, 0, 0) < 0,
        },
{
    char_index_at_byte_exec(v, n)
}

fn char_index_at_byte_exec(v: &[char], n: usize) -> (r: Option<usize>)
    ensures
        match r {
            Some(k) => k as int == char_index_at_byte(v@, n as int, 0, 0) && k <= v@.len(),
            None => char_index_at_byte(v@, n as int, 0, 0) < 0,
        },
{
    let mut k: usize = 0;
    let mut acc: usize = 0;
    while acc != n
        invariant
            k <= v@.len(),
            acc <= n,
            char_index_at_byte(v@, n as int, 0, 0) == char_index_at_byte(v@, n as int, k as int, acc as int),
        decreases v@.len() - k,
    {
        if k >= v.len() {
            return None;
        }
        let u = v[k] as u32;
        let b: usize = if u < 0x80 {
            1
        } else if u < 0x800 {
            2
        } else if u < 0x10000 {
            3
        } else {
            4
        };
        if b > n - acc {
            proof {
                assert(char_index_at_byte(v@, n as int, k + 1, acc + b) == -1) by {
                    assert(acc + b > n);
                    if k + 1 < v@.len() || (k + 1) as int == v@.len() {
                    }
                }
            }
            return None;
        }
        acc = acc + b;
        k = k + 1;
    }
    Some(k)
}

pub open spec fn bash_report_text(command: Seq<char>, output: Seq<char>, exit: Option<i32>) -> Seq<char> {
    let truncated = crate::tokens::utf8_len(output) > MAX_OUTPUT_BYTES;
    let body = if truncated {
        byte_prefix(output, MAX_OUTPUT_BYTES as int) + "\n[truncated: output exceeds 100KB]"@
    } else {
        output
    };
    let code: int = match exit {
        Some(c) => c as int,
        None => -1,
    };
    if code != 0 {
        "$ "@ + command + "\n[exit "@ + decimal_int(code) + "]\n"@ + body
    } else {
        "$ "@ + command + "\n"@ + body
    }
}

pub(crate) fn utf8_len_of_str(s: &str) -> (r: Option<usize>)
    ensures
        match r {
            Some(n) => n == crate::tokens::utf8_len(s@),
            None => crate::tokens::utf8_len(s@) > usize::MAX,
        },
{
    let v = crate::text::chars_of(s);
    let mut n: usize = 0;
    let mut i: usize = 0;
    while i < v.len()
        invariant
            v@ == s@,
            i <= v@.len(),
            n == crate::tokens::utf8_len(v@.take(i as int)),
        decreases v@.len() - i,
    {
        let u = v[i] as u32;
        let b: usize = if u < 0x80 {
            1
        } else if u < 0x800 {
            2
        } else if u < 0x10000 {
            3
        } else {
            4
        };
        assert(v@.take(i + 1).drop_last() =~= v@.take(i as int));
        if b > usize::MAX - n {
            proof { lemma_utf8_len_prefix(v@, i + 1); }
            return None;
        }
        n = n + b;
        i = i + 1;
    }
    assert(v@.take(i as int) =~= v@);
    Some(n)
}

proof fn lemma_utf8_len_prefix(s: Seq<char>, k: int)
    requires
        0 <= k <= s.len(),
    ensures
        crate::tokens::utf8_len(s.take(k)) <= crate::tokens::utf8_len(s),
    decreases s.len() - k,
{
    if k < s.len() {
        lemma_utf8_len_prefix(s, k + 1);
        assert(s.take(k + 1).drop_last() =~= s.take(k));
    } else {
        assert(s.take(k) =~= s);
    }
}

/// The report of a run whose combined output is `output`; the output is cut
/// to its first `MAX_OUTPUT_BYTES` bytes, which must end on a character.
pub fn bash_report(command: &str, output: &str, exit: Option<i32>) -> (r: String)
    requires
        crate::tokens::utf8_len(output@) > MAX_OUTPUT_BYTES ==> is_byte_boundary(output@, MAX_OUTPUT_BYTES as int),
    ensures
        r@ == bash_report_text(command@, output@, exit),
{
    let long = match utf8_len_of_str(output) {
        Some(n) => n > MAX_OUTPUT_BYTES,
        None => true,
    };
    let mut body = String::new();
    if long {
        let v = crate::text::chars_of(output);
        let k = match char_index_at_byte_exec(v.as_slice(), MAX_OUTPUT_BYTES) {
            Some(k) => k,
            None => {
                assert(false);
                0
            },
        };
        let head = crate::text::subvec(v.as_slice(), 0, k);
        assert(head@ =~= output@.take(k as int));
        body = string_of(head.as_slice());
        body.append("\n[truncated: output exceeds 100KB]");
    } else {
        body.append(output);
    }
    let code: i32 = match exit {
        Some(c) => c,
        None => -1,
    };
    let mut s = String::from_str("$ ");
    s.append(command);
    if code != 0 {
        s.append("\n[exit ");
        s.append(string_of(i64_decimal(code as i64).as_slice()).as_str());
        s.append("]\n");
    } else {
        s.append("\n");
    }
    s.append(body.as_str());
    s
}

/// The report of a run from its raw output bytes and exit code; `None` when
/// the output would have to be cut inside a character.
pub fn bash_report_from_bytes(command: &str, stdout: &[u8], stderr: &[u8], exit: Option<i32>) -> (r: Option<String>)
    ensures
        ({
            let out = combined_output(utf8_lossy(stdout@), utf8_lossy(stderr@));
            match r {
                Some(s) => s@ == bash_report_text(command@, out, exit),
                None => crate::tokens::utf8_len(out) > MAX_OUTPUT_BYTES && !is_byte_boundary(
                    out,
                    MAX_OUTPUT_BYTES as int,
                ),
            }
        }),
{
    let out = combine_output(stdout, stderr);
    let long = match utf8_len_of_str(out.as_str()) {
        Some(n) => n > MAX_OUTPUT_BYTES,
        None => true,
    };
    if long {
        let v = crate::text::chars_of(out.as_str());
        if char_index_at_byte_exec(v.as_slice(), MAX_OUTPUT_BYTES).is_none() {
            return None;
        }
    }
    Some(bash_report(command, out.as_str(), exit))
}

} // verus!
