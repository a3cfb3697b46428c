//! Character-level text utilities: whitespace classification, whitespace
//! collapsing, truncation, and decimal formatting of integers.

use vstd::prelude::*;

verus! {

/// The Unicode `White_Space` code points, the set `char::is_whitespace`
/// recognizes.
pub open spec fn is_space_char(c: char) -> bool {
    ||| c == ' '
    ||| c == '\t'
    ||| c == '\n'
    ||| c == '\r'
    ||| c == '\u{000B}'
    ||| c == '\u{000C}'
    ||| c == '\u{0085}'
    ||| c == '\u{00A0}'
    ||| c == '\u{1680}'
    ||| ('\u{2000}' <= c && c <= '\u{200A}')
    ||| c == '\u{2028}'
    ||| c == '\u{2029}'
    ||| c == '\u{202F}'
    ||| c == '\u{205F}'
    ||| c == '\u{3000}'
}

/// Executable check for `is_space_char`.
pub fn is_space(c: char) -> (r: bool)
    ensures
        r == is_space_char(c),
{
    c == ' ' || c == '\t' || c == '\n' || c == '\r' || c == '\u{000B}' || c == '\u{000C}'
        || c == '\u{0085}' || c == '\u{00A0}' || c == '\u{1680}' || ('\u{2000}' <= c && c
        <= '\u{200A}') || c == '\u{2028}' || c == '\u{2029}' || c == '\u{202F}' || c == '\u{205F}'
        || c == '\u{3000}'
}

/// Character-by-character string comparison, so that equality of two `&str`
/// values can be established in verified code.
pub fn str_eq(a: &str, b: &str) -> (r: bool)
    ensures
        r == (a@ == b@),
{
    let a_len = a.unicode_len();
    let b_len = b.unicode_len();
    if a_len != b_len {
        assert(a@ != b@) by {
            assert(a@.len() != b@.len());
        }
        return false;
    }
    let mut i: usize = 0;
    while i < a_len
        invariant
            a_len == a@.len(),
            b_len == b@.len(),
            a_len == b_len,
            i <= a_len,
            forall|j: int| 0 <= j < i ==> a@[j] == b@[j],
        decreases a_len - i,
    {
        if a.get_char(i) != b.get_char(i) {
            assert(a@ != b@);
            return false;
        }
        i = i + 1;
    }
    assert(a@ =~= b@);
    true
}

/// Relies on std `String::push`: appends exactly the given character.
#[verifier::external_body]
pub fn push_char(s: &mut String, c: char)
    ensures
        final(s)@ == old(s)@.push(c),
{
    s.push(c);
}

/// One step of whitespace collapsing: fed the next character, either remember
/// that a separating space is owed (whitespace after at least one word) or
/// emit the owed space and the character.
pub open spec fn collapse_step(acc: Seq<char>, pending: bool, c: char) -> (Seq<char>, bool) {
    if is_space_char(c) {
        (acc, acc.len() > 0)
    } else if pending {
        (acc.push(' ').push(c), false)
    } else {
        (acc.push(c), false)
    }
}

pub open spec fn collapse_ws_from(s: Seq<char>, i: int, acc: Seq<char>, pending: bool) -> Seq<char>
    decreases s.len() - i,
{
    if i < 0 || i >= s.len() {
        acc
    } else {
        let (acc2, pending2) = collapse_step(acc, pending, s[i]);
        collapse_ws_from(s, i + 1, acc2, pending2)
    }
}

/// `s` with every run of whitespace replaced by one ASCII space and with
/// leading and trailing whitespace dropped.
pub open spec fn collapse_ws(s: Seq<char>) -> Seq<char> {
    collapse_ws_from(s, 0, Seq::empty(), false)
}

/// `s` with trailing spaces removed.
pub open spec fn rtrim_spaces(s: Seq<char>) -> Seq<char>
    decreases s.len(),
{
    if s.len() > 0 && is_space_char(s.last()) {
        rtrim_spaces(s.drop_last())
    } else {
        s
    }
}

/// Builds the whitespace-collapsed form of `s`.
pub fn collapse_whitespace(s: &str) -> (r: String)
    ensures
        r@ == collapse_ws(s@),
{
    let len = s.unicode_len();
    let mut out = String::new();
    let mut pending = false;
    let mut i: usize = 0;
    while i < len
        invariant
            len == s@.len(),
            i <= len,
            collapse_ws(s@) == collapse_ws_from(s@, i as int, out@, pending),
            pending ==> out@.len() > 0,
        decreases len - i,
    {
        let c = s.get_char(i);
        if is_space(c) {
            if out.unicode_len() > 0 {
                pending = true;
            }
        } else {
            if pending {
                push_char(&mut out, ' ');
                pending = false;
            }
            push_char(&mut out, c);
        }
        i = i + 1;
    }
    out
}

/// `s` with leading whitespace removed.
pub open spec fn spec_trim_start(s: Seq<char>) -> Seq<char>
    decreases s.len(),
{
    if s.len() > 0 && is_space_char(s.first()) {
        spec_trim_start(s.drop_first())
    } else {
        s
    }
}

/// `s` with whitespace removed at both ends.
pub open spec fn spec_trim(s: Seq<char>) -> Seq<char> {
    spec_trim_start(rtrim_spaces(s))
}

/// Where the trailing whitespace of `s` begins: cutting there is exactly
/// `rtrim_spaces`.
pub proof fn lemma_rtrim_spaces_take(s: Seq<char>, e: int)
    requires
        0 <= e <= s.len(),
        forall|j: int| e <= j < s.len() ==> is_space_char(#[trigger] s[j]),
        e > 0 ==> !is_space_char(s[e - 1]),
    ensures
        rtrim_spaces(s) == s.take(e),
    decreases s.len(),
{
    if e == s.len() {
        assert(s.take(e) =~= s);
    } else {
        assert(is_space_char(s[s.len() - 1]));
        assert forall|j: int| e <= j < s.drop_last().len() implies is_space_char(
            #[trigger] s.drop_last()[j],
        ) by {
            assert(s.drop_last()[j] == s[j]);
        }
        if e > 0 {
            assert(s.drop_last()[e - 1] == s[e - 1]);
        }
        lemma_rtrim_spaces_take(s.drop_last(), e);
        assert(s.drop_last().take(e) =~= s.take(e));
    }
}

proof fn lemma_trim_start_skip(s: Seq<char>, b: int)
    requires
        0 <= b <= s.len(),
        forall|j: int| 0 <= j < b ==> is_space_char(#[trigger] s[j]),
        b < s.len() ==> !is_space_char(s[b]),
    ensures
        spec_trim_start(s) == s.skip(b),
    decreases b,
{
    if b == 0 {
        assert(s.skip(0) =~= s);
    } else {
        assert(is_space_char(s[0]));
        assert forall|j: int| 0 <= j < b - 1 implies is_space_char(
            #[trigger] s.drop_first()[j],
        ) by {
            assert(s.drop_first()[j] == s[j + 1]);
        }
        if b - 1 < s.drop_first().len() {
            assert(s.drop_first()[b - 1] == s[b]);
        }
        lemma_trim_start_skip(s.drop_first(), b - 1);
        assert(s.drop_first().skip(b - 1) =~= s.skip(b));
    }
}

/// `s` with whitespace removed at both ends, as a fresh string.
pub fn trim_str(s: &str) -> (r: String)
    ensures
        r@ == spec_trim(s@),
{
    let len = s.unicode_len();
    let mut hi: usize = len;
    while hi > 0 && is_space(s.get_char(hi - 1))
        invariant
            len == s@.len(),
            hi <= len,
            forall|j: int| hi <= j < len ==> is_space_char(#[trigger] s@[j]),
        decreases hi,
    {
        hi = hi - 1;
    }
    proof {
        lemma_rtrim_spaces_take(s@, hi as int);
    }
    let mut lo: usize = 0;
    while lo < hi && is_space(s.get_char(lo))
        invariant
            len == s@.len(),
            hi <= len,
            rtrim_spaces(s@) == s@.take(hi as int),
            lo <= hi,
            forall|j: int| 0 <= j < lo ==> is_space_char(#[trigger] s@[j]),
        decreases hi - lo,
    {
        lo = lo + 1;
    }
    proof {
        let t = s@.take(hi as int);
        assert(forall|j: int| 0 <= j < lo ==> #[trigger] t[j] == s@[j]);
        if (lo as int) < t.len() {
            assert(t[lo as int] == s@[lo as int]);
        }
        lemma_trim_start_skip(t, lo as int);
    }
    let core = s.substring_char(lo, hi);
    proof {
        assert(s@.take(hi as int).skip(lo as int) =~= s@.subrange(lo as int, hi as int));
    }
    String::from_str(core)
}

/// Lexicographic order on character sequences, compared from position `i` on.
pub open spec fn lex_le_from(a: Seq<char>, b: Seq<char>, i: int) -> bool
    decreases a.len() - i,
{
    if i < 0 {
        lex_le_from(a, b, 0)
    } else if i >= a.len() {
        true
    } else if i >= b.len() {
        false
    } else if a[i] != b[i] {
        a[i] < b[i]
    } else {
        lex_le_from(a, b, i + 1)
    }
}

/// Lexicographic order on character sequences.
pub open spec fn lex_le(a: Seq<char>, b: Seq<char>) -> bool {
    lex_le_from(a, b, 0)
}

/// Lexicographic order is total.
pub proof fn lemma_lex_le_total(a: Seq<char>, b: Seq<char>)
    ensures
        lex_le(a, b) || lex_le(b, a),
{
    lemma_lex_le_total_from(a, b, 0);
}

proof fn lemma_lex_le_total_from(a: Seq<char>, b: Seq<char>, i: int)
    requires
        0 <= i,
    ensures
        lex_le_from(a, b, i) || lex_le_from(b, a, i),
    decreases a.len() - i,
{
    if i >= a.len() || i >= b.len() {
    } else if a[i] != b[i] {
    } else {
        lemma_lex_le_total_from(a, b, i + 1);
    }
}

/// Lexicographic order is transitive.
pub proof fn lemma_lex_le_trans(a: Seq<char>, b: Seq<char>, c: Seq<char>)
    requires
        lex_le(a, b),
        lex_le(b, c),
    ensures
        lex_le(a, c),
{
    lemma_lex_le_trans_from(a, b, c, 0);
}

proof fn lemma_lex_le_trans_from(a: Seq<char>, b: Seq<char>, c: Seq<char>, i: int)
    requires
        0 <= i,
        lex_le_from(a, b, i),
        lex_le_from(b, c, i),
    ensures
        lex_le_from(a, c, i),
    decreases a.len() - i,
{
    if i >= a.len() {
    } else if i >= b.len() {
    } else if i >= c.len() {
    } else if a[i] == b[i] && b[i] == c[i] {
        lemma_lex_le_trans_from(a, b, c, i + 1);
    }
}

/// Lexicographic order is antisymmetric.
pub proof fn lemma_lex_le_antisym(a: Seq<char>, b: Seq<char>)
    requires
        lex_le(a, b),
        lex_le(b, a),
    ensures
        a =~= b,
{
    assert(a.take(0) =~= b.take(0));
    lemma_lex_le_antisym_from(a, b, 0);
}

proof fn lemma_lex_le_antisym_from(a: Seq<char>, b: Seq<char>, i: int)
    requires
        0 <= i <= a.len(),
        i <= b.len(),
        lex_le_from(a, b, i),
        lex_le_from(b, a, i),
        a.take(i) =~= b.take(i),
    ensures
        a =~= b,
    decreases a.len() - i,
{
    if i >= a.len() {
        assert(i >= b.len());
        assert(a.take(i) =~= a);
        assert(b.take(i) =~= b);
    } else if i >= b.len() {
        assert(false);
    } else {
        assert(a[i] == b[i]);
        assert(a.take(i + 1) =~= b.take(i + 1));
        lemma_lex_le_antisym_from(a, b, i + 1);
    }
}

/// Executable lexicographic comparison: `a` is less than or equal to `b`.
pub fn str_le(a: &str, b: &str) -> (r: bool)
    ensures
        r == lex_le(a@, b@),
{
    let a_len = a.unicode_len();
    let b_len = b.unicode_len();
    let mut i: usize = 0;
    loop
        invariant
            a_len == a@.len(),
            b_len == b@.len(),
            i <= a_len,
            i <= b_len,
            lex_le(a@, b@) == lex_le_from(a@, b@, i as int),
        decreases a_len - i,
    {
        if i >= a_len {
            return true;
        }
        if i >= b_len {
            return false;
        }
        let ca = a.get_char(i);
        let cb = b.get_char(i);
        if ca != cb {
            return ca < cb;
        }
        i = i + 1;
    }
}

/// The digit character for `d` in `0..10`.
pub open spec fn digit_char(d: int) -> char {
    ((48 + d) as u8) as char
}

/// The decimal representation of `n`, most significant digit first.
pub open spec fn spec_u64_digits(n: nat) -> Seq<char>
    decreases n,
{
    if n < 10 {
        seq![digit_char(n as int)]
    } else {
        spec_u64_digits(n / 10).push(digit_char((n % 10) as int))
    }
}

/// Appends the decimal representation of `n` to `out`.
pub fn push_u64_decimal(out: &mut String, n: u64)
    ensures
        final(out)@ == old(out)@ + spec_u64_digits(n as nat),
    decreases n,
{
    if n < 10 {
        push_char(out, (48u8 + (n as u8)) as char);
        assert(final(out)@ =~= old(out)@ + spec_u64_digits(n as nat));
    } else {
        push_u64_decimal(out, n / 10);
        push_char(out, (48u8 + ((n % 10) as u8)) as char);
        assert(final(out)@ =~= old(out)@ + spec_u64_digits(n as nat));
    }
}

} // verus!
