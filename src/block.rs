use vstd::prelude::*;
use vstd::string::*;
use vstd::utf8::{decode_utf8, valid_utf8};

verus! {

/// When a unit's probe runs.
pub enum BlockType {
    /// Exactly once, at startup.
    Once,
    /// At startup, then every so many seconds until termination.
    Periodic(u64),
    /// At startup, then on each arrival of the numbered realtime signal.
    Signal(i32),
    /// Both of the above: on a timer and on the numbered realtime signal.
    PeriodicOrSignal(u64, i32),
}

/// The internal probes that a unit can read.
#[derive(Clone, Copy, PartialEq, Eq, Debug)]
pub enum Probe {
    CpuUsage,
    MemoryAvailable,
    MemoryUsed,
    MemoryUsage,
    CurrentTime,
    CurrentDate,
    Uptime,
}

/// What a unit runs to get its text.
pub enum CommandType {
    /// An external program and its arguments.
    Shell(Vec<String>),
    /// An internal probe.
    Function(Probe),
}

/// The configuration of one status unit.
pub struct Block {
    pub kind: BlockType,
    pub command: CommandType,
    pub prefix: String,
    pub suffix: String,
}

/// Whether `c` has the Unicode property White_Space.
pub open spec fn is_white_space(c: char) -> bool {
    ('\u{9}' <= c <= '\u{d}') || c == ' ' || c == '\u{85}' || c == '\u{a0}' || c == '\u{1680}'
        || ('\u{2000}' <= c <= '\u{200a}') || c == '\u{2028}' || c == '\u{2029}' || c
        == '\u{202f}' || c == '\u{205f}' || c == '\u{3000}'
}

/// `s` without its leading white space.
pub open spec fn trim_start(s: Seq<char>) -> Seq<char>
    decreases s.len(),
{
    if s.len() > 0 && is_white_space(s[0]) {
        trim_start(s.drop_first())
    } else {
        s
    }
}

/// `s` without its trailing white space.
pub open spec fn trim_end(s: Seq<char>) -> Seq<char>
    decreases s.len(),
{
    if s.len() > 0 && is_white_space(s.last()) {
        trim_end(s.drop_last())
    } else {
        s
    }
}

/// `s` without its leading and trailing white space.
pub open spec fn trimmed(s: Seq<char>) -> Seq<char> {
    trim_end(trim_start(s))
}

/// Relies on `String::from_utf8`: the bytes decoded as UTF-8, or `None` when
/// they are not valid UTF-8.
#[verifier::external_body]
fn utf8_string(bytes: Vec<u8>) -> (r: Option<String>)
    ensures
        r is Some <==> valid_utf8(bytes@),
        r is Some ==> r->0@ == decode_utf8(bytes@),
{
    String::from_utf8(bytes).ok()
}

/// Whether `c` has the Unicode property White_Space.
fn white_space(c: char) -> (r: bool)
    ensures
        r == is_white_space(c),
{
    ('\u{9}' <= c && c <= '\u{d}') || c == ' ' || c == '\u{85}' || c == '\u{a0}' || c == '\u{1680}'
        || ('\u{2000}' <= c && c <= '\u{200a}') || c == '\u{2028}' || c == '\u{2029}' || c
        == '\u{202f}' || c == '\u{205f}' || c == '\u{3000}'
}

proof fn lemma_trim_start(s: Seq<char>, a: int)
    requires
        0 <= a <= s.len(),
        forall|j: int| 0 <= j < a ==> is_white_space(#[trigger] s[j]),
        a == s.len() || !is_white_space(s[a]),
    ensures
        trim_start(s) == s.subrange(a, s.len() as int),
    decreases a,
{
    if a == 0 {
        assert(s.subrange(0, s.len() as int) =~= s);
    } else {
        let rest = s.drop_first();
        assert forall|j: int| 0 <= j < a - 1 implies is_white_space(#[trigger] rest[j]) by {
            assert(rest[j] == s[j + 1]);
        }
        assert(is_white_space(s[0]));
        lemma_trim_start(rest, a - 1);
        assert(rest.subrange(a - 1, rest.len() as int) =~= s.subrange(a, s.len() as int));
    }
}

proof fn lemma_trim_end(t: Seq<char>, k: int)
    requires
        0 <= k <= t.len(),
        forall|j: int| k <= j < t.len() ==> is_white_space(#[trigger] t[j]),
        k == 0 || !is_white_space(t[k - 1]),
    ensures
        trim_end(t) == t.subrange(0, k),
    decreases t.len() - k,
{
    if k == t.len() {
        assert(t.subrange(0, k) =~= t);
    } else {
        let rest = t.drop_last();
        assert(is_white_space(t[t.len() - 1]));
        assert forall|j: int| k <= j < rest.len() implies is_white_space(#[trigger] rest[j]) by {
            assert(rest[j] == t[j]);
        }
        lemma_trim_end(rest, k);
        assert(rest.subrange(0, k) =~= t.subrange(0, k));
    }
}

/// `s` without leading and trailing white space, as `str::trim` gives it.
pub fn trim(s: &str) -> (r: String)
    ensures
        r@ == trimmed(s@),
{
    let n = s.unicode_len();
    let mut a: usize = 0;
    while a < n
        invariant
            n == s@.len(),
            a <= n,
            forall|j: int| 0 <= j < a ==> is_white_space(#[trigger] s@[j]),
        ensures
            a <= n,
            forall|j: int| 0 <= j < a ==> is_white_space(#[trigger] s@[j]),
            a == n || !is_white_space(s@[a as int]),
        decreases n - a,
    {
        if !white_space(s.get_char(a)) {
            break;
        }
        a = a + 1;
    }
    let mut b: usize = n;
    while b > a
        invariant
            n == s@.len(),
            a <= b <= n,
            forall|j: int| b <= j < n ==> is_white_space(#[trigger] s@[j]),
        ensures
            a <= b <= n,
            forall|j: int| b <= j < n ==> is_white_space(#[trigger] s@[j]),
            b == a || !is_white_space(s@[b - 1]),
        decreases b,
    {
        if !white_space(s.get_char(b - 1)) {
            break;
        }
        b = b - 1;
    }
    proof {
        lemma_trim_start(s@, a as int);
        let t = s@.subrange(a as int, n as int);
        assert forall|j: int| b - a <= j < t.len() implies is_white_space(#[trigger] t[j]) by {
            assert(t[j] == s@[a + j]);
        }
        lemma_trim_end(t, b - a);
        assert(t.subrange(0, b - a) =~= s@.subrange(a as int, b as int));
    }
    String::from_str(s.substring_char(a, b))
}

/// `text` between `prefix` and `suffix`.
pub open spec fn wrapped(prefix: Seq<char>, text: Seq<char>, suffix: Seq<char>) -> Seq<char> {
    prefix + text + suffix
}

/// The fragment of a unit whose probe gave `text` and which decorates
/// with `prefix` and `suffix`: empty text stays empty, undecorated.
pub open spec fn decorated(prefix: Seq<char>, text: Seq<char>, suffix: Seq<char>) -> Seq<char> {
    if text.len() == 0 {
        text
    } else {
        wrapped(prefix, text, suffix)
    }
}

/// A command line split into its program and the program's arguments;
/// `None` when the command line is empty.
pub fn split_command(cmd: &Vec<String>) -> (r: Option<(String, Vec<String>)>)
    ensures
        r is None <==> cmd@.len() == 0,
        r matches Some((program, args)) ==> program == cmd@[0] && args@ == cmd@.drop_first(),
{
    if cmd.len() == 0 {
        return None;
    }
    let mut args: Vec<String> = Vec::new();
    let mut i: usize = 1;
    while i < cmd.len()
        invariant
            1 <= i <= cmd@.len(),
            args@ == cmd@.subrange(1, i as int),
        decreases cmd@.len() - i,
    {
        args.push(cmd[i].clone());
        assert(args@ =~= cmd@.subrange(1, i + 1));
        i = i + 1;
    }
    assert(args@ =~= cmd@.drop_first());
    Some((cmd[0].clone(), args))
}

impl Block {
    /// The fragment for an internal probe's result: `None` when the probe
    /// failed; its text as it is when empty; else the text decorated.
    pub fn function_fragment(&self, result: Option<String>) -> (r: Option<String>)
        ensures
            r is Some <==> result is Some,
            r is Some ==> r->0@ == decorated(self.prefix@, result->0@, self.suffix@),
    {
        match result {
            Some(s) => {
                if s.as_str().is_empty() {
                    Some(s)
                } else {
                    let mut t = self.prefix.clone();
                    t.append(s.as_str());
                    t.append(self.suffix.as_str());
                    Some(t)
                }
            },
            None => None,
        }
    }

    /// The fragment for an external program that exited (`exit_ok` when with
    /// status zero) after printing `stdout`: `None` for a non-zero status or
    /// output that is not UTF-8; else the output trimmed of white space,
    /// decorated unless that left it empty.
    pub fn shell_fragment(&self, exit_ok: bool, stdout: Vec<u8>) -> (r: Option<String>)
        ensures
            r is Some <==> exit_ok && valid_utf8(stdout@),
            r is Some ==> r->0@ == decorated(
                self.prefix@,
                trimmed(decode_utf8(stdout@)),
                self.suffix@,
            ),
    {
        if !exit_ok {
            return None;
        }
        match utf8_string(stdout) {
            Some(s) => {
                let shown = trim(s.as_str());
                if shown.as_str().is_empty() {
                    Some(shown)
                } else {
                    let mut t = self.prefix.clone();
                    t.append(shown.as_str());
                    t.append(self.suffix.as_str());
                    Some(t)
                }
            },
            None => None,
        }
    }
}

} // verus!
