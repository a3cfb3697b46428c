//! The agent CLI contract: the binary's well-known fallback locations, the
//! spawn argument list, and the version gate that rejects binaries older than
//! 0.9.0 or with unrecognizable version output.

use vstd::prelude::*;
use vstd::string::*;

use crate::text::{is_space, is_space_char, push_u64_decimal, spec_u64_digits};

verus! {

/// A located agent CLI binary.
pub struct AgentCli {
    pub path: String,
}

/// Whether a character can belong to a version core: an ASCII digit or a dot.
pub open spec fn is_version_char(c: char) -> bool {
    ('0' <= c && c <= '9') || c == '.'
}

/// Whether a character is an ASCII digit.
pub open spec fn is_digit_char(c: char) -> bool {
    '0' <= c && c <= '9'
}

/// The whitespace-separated tokens of a line, scanned from position `i` with
/// the token read so far and the tokens already taken.
pub open spec fn spec_tokens_from(
    s: Seq<char>,
    i: int,
    cur: Seq<char>,
    acc: Seq<Seq<char>>,
) -> Seq<Seq<char>>
    decreases s.len() - i,
{
    if i < 0 || i >= s.len() {
        if cur.len() > 0 {
            acc.push(cur)
        } else {
            acc
        }
    } else if is_space_char(s[i]) {
        if cur.len() > 0 {
            spec_tokens_from(s, i + 1, Seq::empty(), acc.push(cur))
        } else {
            spec_tokens_from(s, i + 1, Seq::empty(), acc)
        }
    } else {
        spec_tokens_from(s, i + 1, cur.push(s[i]), acc)
    }
}

/// The whitespace-separated tokens of a line.
pub open spec fn spec_tokens(s: Seq<char>) -> Seq<Seq<char>> {
    spec_tokens_from(s, 0, Seq::empty(), Seq::empty())
}

/// Splits a line into its whitespace-separated tokens.
pub fn split_tokens(s: &str) -> (r: Vec<String>)
    ensures
        r.deep_view() == spec_tokens(s@),
{
    let len = s.unicode_len();
    let mut acc: Vec<String> = Vec::new();
    let mut cur = String::new();
    let mut i: usize = 0;
    proof {
        assert(acc.deep_view() =~= Seq::<Seq<char>>::empty());
    }
    while i < len
        invariant
            len == s@.len(),
            i <= len,
            spec_tokens(s@) == spec_tokens_from(s@, i as int, cur@, acc.deep_view()),
        decreases len - i,
    {
        let c = s.get_char(i);
        if is_space(c) {
            if cur.unicode_len() > 0 {
                let ghost acc0 = acc.deep_view();
                let ghost cur0 = cur@;
                let done = cur;
                cur = String::new();
                acc.push(done);
                proof {
                    assert(acc.deep_view() =~= acc0.push(cur0));
                }
            } else {
                proof {
                    assert(cur@ =~= Seq::<char>::empty());
                }
            }
        } else {
            crate::text::push_char(&mut cur, c);
        }
        i = i + 1;
    }
    if cur.unicode_len() > 0 {
        let ghost acc0 = acc.deep_view();
        let ghost cur0 = cur@;
        acc.push(cur);
        proof {
            assert(acc.deep_view() =~= acc0.push(cur0));
        }
    }
    acc
}

/// The token with leading characters outside the version alphabet removed.
pub open spec fn spec_trim_start_version(s: Seq<char>) -> Seq<char>
    decreases s.len(),
{
    if s.len() > 0 && !is_version_char(s.first()) {
        spec_trim_start_version(s.drop_first())
    } else {
        s
    }
}

/// The token with trailing characters outside the version alphabet removed.
pub open spec fn spec_trim_end_version(s: Seq<char>) -> Seq<char>
    decreases s.len(),
{
    if s.len() > 0 && !is_version_char(s.last()) {
        spec_trim_end_version(s.drop_last())
    } else {
        s
    }
}

/// The version core of a token: digits and dots, trimmed at both ends.
pub open spec fn spec_version_core(s: Seq<char>) -> Seq<char> {
    spec_trim_start_version(spec_trim_end_version(s))
}

proof fn lemma_trim_end_version_take(s: Seq<char>, e: int)
    requires
        0 <= e <= s.len(),
        forall|j: int| e <= j < s.len() ==> !is_version_char(#[trigger] s[j]),
        e > 0 ==> is_version_char(s[e - 1]),
    ensures
        spec_trim_end_version(s) == s.take(e),
    decreases s.len(),
{
    if e == s.len() {
        assert(s.take(e) =~= s);
    } else {
        assert(!is_version_char(s[s.len() - 1]));
        assert forall|j: int| e <= j < s.drop_last().len() implies !is_version_char(
            #[trigger] s.drop_last()[j],
        ) by {
            assert(s.drop_last()[j] == s[j]);
        }
        if e > 0 {
            assert(s.drop_last()[e - 1] == s[e - 1]);
        }
        lemma_trim_end_version_take(s.drop_last(), e);
        assert(s.drop_last().take(e) =~= s.take(e));
    }
}

proof fn lemma_trim_start_version_skip(s: Seq<char>, b: int)
    requires
        0 <= b <= s.len(),
        forall|j: int| 0 <= j < b ==> !is_version_char(#[trigger] s[j]),
        b < s.len() ==> is_version_char(s[b]),
    ensures
        spec_trim_start_version(s) == s.skip(b),
    decreases b,
{
    if b == 0 {
        assert(s.skip(0) =~= s);
        if s.len() > 0 {
        }
    } else {
        assert(!is_version_char(s[0]));
        assert forall|j: int| 0 <= j < b - 1 implies !is_version_char(
            #[trigger] s.drop_first()[j],
        ) by {
            assert(s.drop_first()[j] == s[j + 1]);
        }
        if b - 1 < s.drop_first().len() {
            assert(s.drop_first()[b - 1] == s[b]);
        }
        lemma_trim_start_version_skip(s.drop_first(), b - 1);
        assert(s.drop_first().skip(b - 1) =~= s.skip(b));
    }
}

/// The version core of a token, as a fresh string.
fn version_core(token: &str) -> (r: String)
    ensures
        r@ == spec_version_core(token@),
{
    let len = token.unicode_len();
    let mut hi: usize = len;
    while hi > 0 && !is_version_char_exec(token.get_char(hi - 1))
        invariant
            len == token@.len(),
            hi <= len,
            forall|j: int| hi <= j < len ==> !is_version_char(#[trigger] token@[j]),
        decreases hi,
    {
        hi = hi - 1;
    }
    proof {
        lemma_trim_end_version_take(token@, hi as int);
    }
    let mut lo: usize = 0;
    while lo < hi && !is_version_char_exec(token.get_char(lo))
        invariant
            len == token@.len(),
            hi <= len,
            spec_trim_end_version(token@) == token@.take(hi as int),
            lo <= hi,
            forall|j: int| 0 <= j < lo ==> !is_version_char(#[trigger] token@[j]),
        decreases hi - lo,
    {
        lo = lo + 1;
    }
    proof {
        let t = token@.take(hi as int);
        assert(forall|j: int| 0 <= j < lo ==> #[trigger] t[j] == token@[j]);
        if (lo as int) < t.len() {
            assert(t[lo as int] == token@[lo as int]);
        }
        lemma_trim_start_version_skip(t, lo as int);
    }
    let core = token.substring_char(lo, hi);
    proof {
        assert(token@.take(hi as int).skip(lo as int) =~= token@.subrange(lo as int, hi as int));
    }
    String::from_str(core)
}

/// Executable check for `is_version_char`.
fn is_version_char_exec(c: char) -> (r: bool)
    ensures
        r == is_version_char(c),
{
    ('0' <= c && c <= '9') || c == '.'
}

/// The value of an all-digit run, read from position `i` with `acc` already
/// accumulated; `None` on a non-digit or when the value overflows 64 bits.
pub open spec fn spec_digits_value_from(s: Seq<char>, i: int, acc: nat) -> Option<nat>
    decreases s.len() - i,
{
    if i < 0 || i >= s.len() {
        Some(acc)
    } else if !is_digit_char(s[i]) {
        None
    } else {
        let v = acc * 10 + (s[i] as int - '0' as int);
        if v > u64::MAX {
            None
        } else {
            spec_digits_value_from(s, i + 1, v as nat)
        }
    }
}

/// The numeric value of a non-empty all-digit token that fits in 64 bits.
pub open spec fn spec_parse_u64(s: Seq<char>) -> Option<u64> {
    if s.len() == 0 {
        None
    } else {
        match spec_digits_value_from(s, 0, 0) {
            Some(v) => Some(v as u64),
            None => None,
        }
    }
}

/// Parses a decimal numeral: a non-empty run of ASCII digits whose value fits
/// in 64 bits.
pub fn parse_u64(s: &str) -> (r: Option<u64>)
    ensures
        r == spec_parse_u64(s@),
{
    let len = s.unicode_len();
    if len == 0 {
        return None;
    }
    let mut acc: u64 = 0;
    let mut i: usize = 0;
    while i < len
        invariant
            len == s@.len(),
            i <= len,
            spec_digits_value_from(s@, 0, 0) == spec_digits_value_from(s@, i as int, acc as nat),
        decreases len - i,
    {
        let c = s.get_char(i);
        if !('0' <= c && c <= '9') {
            return None;
        }
        let d = (c as u32 - '0' as u32) as u64;
        if acc > u64::MAX / 10 || (acc == u64::MAX / 10 && d > u64::MAX % 10) {
            proof {
                assert(acc * 10 + d > u64::MAX) by (nonlinear_arith)
                    requires
                        acc > u64::MAX / 10 || (acc == u64::MAX / 10 && d > u64::MAX % 10),
                        d < 10,
                        u64::MAX == 0xffff_ffff_ffff_ffffu64,
                ;
            }
            return None;
        }
        proof {
            assert(acc * 10 + d <= u64::MAX) by (nonlinear_arith)
                requires
                    !(acc > u64::MAX / 10 || (acc == u64::MAX / 10 && d > u64::MAX % 10)),
                    d < 10,
                    u64::MAX == 0xffff_ffff_ffff_ffffu64,
            ;
        }
        acc = acc * 10 + d;
        i = i + 1;
    }
    Some(acc)
}

/// The `(major, minor, patch)` a single token yields, if its version core is
/// three or more dot-separated numerals.
pub open spec fn spec_semver_of_token(t: Seq<char>) -> Option<(u64, u64, u64)> {
    let core = spec_version_core(t);
    let segs = spec_split_dots(core);
    if segs.len() < 3 {
        None
    } else {
        match (spec_parse_u64(segs[0]), spec_parse_u64(segs[1]), spec_parse_u64(segs[2])) {
            (Some(a), Some(b), Some(c)) => Some((a, b, c)),
            _ => None,
        }
    }
}

/// The dot-separated segments of a version core, scanned from position `i`.
pub open spec fn spec_split_dots_from(
    s: Seq<char>,
    i: int,
    cur: Seq<char>,
    acc: Seq<Seq<char>>,
) -> Seq<Seq<char>>
    decreases s.len() - i,
{
    if i < 0 || i >= s.len() {
        acc.push(cur)
    } else if s[i] == '.' {
        spec_split_dots_from(s, i + 1, Seq::empty(), acc.push(cur))
    } else {
        spec_split_dots_from(s, i + 1, cur.push(s[i]), acc)
    }
}

/// The dot-separated segments of a version core. Unlike token splitting, an
/// empty segment counts: `"1..2"` has segments `"1"`, `""`, `"2"`.
pub open spec fn spec_split_dots(s: Seq<char>) -> Seq<Seq<char>> {
    spec_split_dots_from(s, 0, Seq::empty(), Seq::empty())
}

/// Splits a version core at its dots.
pub fn split_dots(s: &str) -> (r: Vec<String>)
    ensures
        r.deep_view() == spec_split_dots(s@),
{
    let len = s.unicode_len();
    let mut acc: Vec<String> = Vec::new();
    let mut cur = String::new();
    let mut i: usize = 0;
    proof {
        assert(acc.deep_view() =~= Seq::<Seq<char>>::empty());
    }
    while i < len
        invariant
            len == s@.len(),
            i <= len,
            spec_split_dots(s@) == spec_split_dots_from(s@, i as int, cur@, acc.deep_view()),
        decreases len - i,
    {
        let c = s.get_char(i);
        if c == '.' {
            let ghost acc0 = acc.deep_view();
            let ghost cur0 = cur@;
            let done = cur;
            cur = String::new();
            acc.push(done);
            proof {
                assert(acc.deep_view() =~= acc0.push(cur0));
            }
        } else {
            crate::text::push_char(&mut cur, c);
        }
        i = i + 1;
    }
    let ghost acc0 = acc.deep_view();
    let ghost cur0 = cur@;
    acc.push(cur);
    proof {
        assert(acc.deep_view() =~= acc0.push(cur0));
    }
    acc
}

/// The `(major, minor, patch)` of the first token of the version line whose
/// core is three or more dot-separated numerals.
pub open spec fn spec_parse_semver_tokens(tokens: Seq<Seq<char>>, i: int) -> Option<(u64, u64, u64)>
    decreases tokens.len() - i,
{
    if i < 0 || i >= tokens.len() {
        None
    } else {
        match spec_semver_of_token(tokens[i]) {
            Some(v) => Some(v),
            None => spec_parse_semver_tokens(tokens, i + 1),
        }
    }
}

/// What `parse_semver` yields on a raw version line.
pub open spec fn spec_parse_semver(raw: Seq<char>) -> Option<(u64, u64, u64)> {
    spec_parse_semver_tokens(spec_tokens(raw), 0)
}

/// Extracts the first three dot-separated integer components of the first
/// whitespace token that carries them.
pub fn parse_semver(raw: &str) -> (r: Option<(u64, u64, u64)>)
    ensures
        r == spec_parse_semver(raw@),
{
    let tokens = split_tokens(raw);
    let n = tokens.len();
    let mut i: usize = 0;
    while i < n
        invariant
            n == tokens.deep_view().len(),
            i <= n,
            tokens.deep_view() == spec_tokens(raw@),
            spec_parse_semver(raw@) == spec_parse_semver_tokens(tokens.deep_view(), i as int),
        decreases n - i,
    {
        proof {
            assert(tokens.deep_view()[i as int] == tokens@[i as int]@);
        }
        if let Some(v) = semver_of_token(tokens[i].as_str()) {
            return Some(v);
        }
        i = i + 1;
    }
    None
}

/// Reads `(major, minor, patch)` out of one token.
fn semver_of_token(t: &str) -> (r: Option<(u64, u64, u64)>)
    ensures
        r == spec_semver_of_token(t@),
{
    let core = version_core(t);
    let segs = split_dots(core.as_str());
    if segs.len() < 3 {
        return None;
    }
    proof {
        assert(segs.deep_view()[0] == segs@[0]@);
        assert(segs.deep_view()[1] == segs@[1]@);
        assert(segs.deep_view()[2] == segs@[2]@);
    }
    let Some(major) = parse_u64(segs[0].as_str()) else { return None };
    let Some(minor) = parse_u64(segs[1].as_str()) else { return None };
    let Some(patch) = parse_u64(segs[2].as_str()) else { return None };
    Some((major, minor, patch))
}

/// The version floor: anything below 0.9.0 is rejected.
pub open spec fn spec_version_supported(major: u64, minor: u64) -> bool {
    !(major == 0 && minor < 9)
}

/// The message rejecting unparsable version output.
pub open spec fn spec_version_format_message(raw: Seq<char>) -> Seq<char> {
    "Unsupported agent CLI version format: '"@ + raw
        + "'. Expected semantic version like 1.2.3"@
}

/// The message rejecting a version below the floor.
pub open spec fn spec_version_floor_message(major: u64, minor: u64, patch: u64) -> Seq<char> {
    "Unsupported agent CLI version "@ + spec_u64_digits(major as nat) + "."@ + spec_u64_digits(
        minor as nat,
    ) + "."@ + spec_u64_digits(patch as nat) + ". Require >=0.9.0 for session-event parsing"@
}

impl AgentCli {
    /// Validates one line of `--version` output: accepted if and only if its
    /// first three dot-separated integer components are readable and reach
    /// the 0.9.0 floor; each rejection names its cause.
    pub fn validate_version_output(version_raw: &str) -> (r: Result<(), String>)
        ensures
            match r {
                Ok(_) => spec_parse_semver(version_raw@) matches Some((major, minor, _))
                    && spec_version_supported(major, minor),
                Err(m) => match spec_parse_semver(version_raw@) {
                    None => m@ == spec_version_format_message(version_raw@),
                    Some((major, minor, patch)) => !spec_version_supported(major, minor) && m@
                        == spec_version_floor_message(major, minor, patch),
                },
            },
    {
        let parsed = parse_semver(version_raw);
        let Some((major, minor, patch)) = parsed else {
            let mut m = String::from_str("Unsupported agent CLI version format: '");
            m.append(version_raw);
            m.append("'. Expected semantic version like 1.2.3");
            return Err(m);
        };
        if major == 0 && minor < 9 {
            let mut m = String::from_str("Unsupported agent CLI version ");
            push_u64_decimal(&mut m, major);
            m.append(".");
            push_u64_decimal(&mut m, minor);
            m.append(".");
            push_u64_decimal(&mut m, patch);
            m.append(". Require >=0.9.0 for session-event parsing");
            return Err(m);
        }
        Ok(())
    }

    /// The well-known install locations searched for the named binary when it
    /// is neither overridden nor on the search path, in order: the binary's
    /// own dot-directory under home, the user-local bin, and the system-wide
    /// bin.
    pub fn fallback_search_locations(home: &str, binary: &str) -> (r: Vec<String>)
        ensures
            r.deep_view().len() == 3,
            r.deep_view()[0] == home@ + "/."@ + binary@ + "/bin/"@ + binary@,
            r.deep_view()[1] == home@ + "/.local/bin/"@ + binary@,
            r.deep_view()[2] == "/usr/local/bin/"@ + binary@,
    {
        let mut first = String::from_str(home);
        first.append("/.");
        first.append(binary);
        first.append("/bin/");
        first.append(binary);
        let mut second = String::from_str(home);
        second.append("/.local/bin/");
        second.append(binary);
        let mut third = String::from_str("/usr/local/bin/");
        third.append(binary);
        let mut out: Vec<String> = Vec::new();
        out.push(first);
        out.push(second);
        out.push(third);
        proof {
            assert(out.deep_view().len() == 3);
        }
        out
    }

    /// The argument list a session spawn hands the binary.
    pub fn spawn_args(prompt: &str) -> (r: Vec<String>)
        ensures
            r.deep_view().len() == 5,
            r.deep_view()[0] == "-p"@,
            r.deep_view()[1] == prompt@,
            r.deep_view()[2] == "--verbose"@,
            r.deep_view()[3] == "--output-format"@,
            r.deep_view()[4] == "stream-json"@,
    {
        let mut out: Vec<String> = Vec::new();
        out.push(String::from_str("-p"));
        out.push(String::from_str(prompt));
        out.push(String::from_str("--verbose"));
        out.push(String::from_str("--output-format"));
        out.push(String::from_str("stream-json"));
        proof {
            assert(out.deep_view().len() == 5);
        }
        out
    }
}

} // verus!
