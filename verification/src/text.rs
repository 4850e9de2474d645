//! Character-level helpers: ASCII case-insensitive comparison, the `--` name
//! prefix, decimal digits, and building strings.

use vstd::prelude::*;

verus! {

/// A character with ASCII upper case letters mapped to lower case, as a code point.
pub open spec fn fold_case(c: char) -> u32 {
    if 'A' <= c && c <= 'Z' {
        (c as u32 + 32) as u32
    } else {
        c as u32
    }
}

/// `a` and `b` are equal when ASCII letters are compared without regard to case.
pub open spec fn eq_ic(a: Seq<char>, b: Seq<char>) -> bool {
    &&& a.len() == b.len()
    &&& forall|i: int| 0 <= i < a.len() ==> fold_case(#[trigger] a[i]) == fold_case(b[i])
}

/// `eq_ic` is an equivalence relation.
pub proof fn lemma_eq_ic_equivalence(a: Seq<char>, b: Seq<char>, c: Seq<char>)
    ensures
        eq_ic(a, a),
        eq_ic(a, b) ==> eq_ic(b, a),
        eq_ic(a, b) && eq_ic(b, c) ==> eq_ic(a, c),
{
    if eq_ic(a, b) && eq_ic(b, c) {
        assert forall|i: int| 0 <= i < a.len() implies fold_case(#[trigger] a[i]) == fold_case(c[i]) by {
            assert(fold_case(b[i]) == fold_case(c[i]));
        }
    }
    if eq_ic(a, b) {
        assert forall|i: int| 0 <= i < b.len() implies fold_case(#[trigger] b[i]) == fold_case(a[i]) by {
            assert(fold_case(a[i]) == fold_case(b[i]));
        }
    }
}

/// Names equal without regard to ASCII case compare alike with any third.
pub proof fn lemma_eq_ic_same(a: Seq<char>, b: Seq<char>, c: Seq<char>)
    requires
        eq_ic(a, b),
    ensures
        eq_ic(a, c) == eq_ic(b, c),
{
    lemma_eq_ic_equivalence(a, b, c);
    lemma_eq_ic_equivalence(b, a, c);
}

/// What two names equal without regard to ASCII case agree on: their length
/// and their first three characters, case folded.
pub proof fn lemma_eq_ic_prefix(a: Seq<char>, b: Seq<char>)
    ensures
        eq_ic(a, b) ==> {
            &&& a.len() == b.len()
            &&& a.len() > 0 ==> fold_case(a[0]) == fold_case(b[0])
            &&& a.len() > 1 ==> fold_case(a[1]) == fold_case(b[1])
            &&& a.len() > 2 ==> fold_case(a[2]) == fold_case(b[2])
        },
{
}

fn fold_case_exec(c: char) -> (r: u32)
    ensures
        r == fold_case(c),
{
    if 'A' <= c && c <= 'Z' {
        (c as u32) + 32
    } else {
        c as u32
    }
}

/// Compares two strings, ASCII letters without regard to case.
pub fn eq_ignore_ascii_case(a: &str, b: &str) -> (r: bool)
    ensures
        r == eq_ic(a@, b@),
{
    let n = a.unicode_len();
    if n != b.unicode_len() {
        return false;
    }
    let mut i: usize = 0;
    while i < n
        invariant
            n == a@.len(),
            n == b@.len(),
            i <= n,
            forall|j: int| 0 <= j < i ==> fold_case(#[trigger] a@[j]) == fold_case(b@[j]),
        decreases n - i,
    {
        if fold_case_exec(a.get_char(i)) != fold_case_exec(b.get_char(i)) {
            return false;
        }
        i += 1;
    }
    true
}

/// A name that starts with `--` and has at least one more character.
pub open spec fn is_dashed_name(s: Seq<char>) -> bool {
    s.len() > 2 && s[0] == '-' && s[1] == '-'
}

/// Whether `s` starts with `--` and is longer than that.
pub fn has_dashed_prefix(s: &str) -> (r: bool)
    ensures
        r == is_dashed_name(s@),
{
    let n = s.unicode_len();
    n > 2 && s.get_char(0) == '-' && s.get_char(1) == '-'
}

/// The decimal digit for `d` (0 to 9).
pub open spec fn digit_char(d: nat) -> char {
    ((d + 48) as u8) as char
}

/// The decimal notation of a natural number, without leading zeros.
pub open spec fn decimal(n: nat) -> Seq<char>
    decreases n,
{
    if n < 10 {
        seq![digit_char(n)]
    } else {
        decimal(n / 10).push(digit_char(n % 10))
    }
}

/// The decimal notation of an integer, with `-` before a negative one.
pub open spec fn signed_decimal(v: int) -> Seq<char> {
    if v < 0 {
        seq!['-'] + decimal((-v) as nat)
    } else {
        decimal(v as nat)
    }
}

/// Appends a character to a string (std's `String::push`).
#[verifier::external_body]
pub(crate) fn push_char(s: &mut String, c: char)
    ensures
        final(s)@ == old(s)@.push(c),
{
    s.push(c);
}

/// Appends the decimal notation of `n`.
pub fn push_decimal(s: &mut String, n: u64)
    ensures
        final(s)@ == old(s)@ + decimal(n as nat),
    decreases n,
{
    if n >= 10 {
        push_decimal(s, n / 10);
    }
    let d = (n % 10) as u8;
    push_char(s, (d + 48) as char);
    assert(s@ =~= old(s)@ + decimal(n as nat));
}

/// The decimal notation of a count.
pub fn decimal_string(n: usize) -> (s: String)
    ensures
        s@ == decimal(n as nat),
{
    let mut s = String::new();
    push_decimal(&mut s, n as u64);
    assert(s@ =~= decimal(n as nat));
    s
}

/// The decimal notation of an `i32`.
pub fn signed_decimal_string(v: i32) -> (s: String)
    ensures
        s@ == signed_decimal(v as int),
{
    let mut s = String::new();
    if v < 0 {
        push_char(&mut s, '-');
        let magnitude: i64 = -(v as i64);
        push_decimal(&mut s, magnitude as u64);
    } else {
        push_decimal(&mut s, v as u64);
    }
    assert(s@ =~= signed_decimal(v as int));
    s
}

/// `a` followed by `b`, as a new string.
pub fn concat(a: &str, b: &str) -> (s: String)
    ensures
        s@ == a@ + b@,
{
    let mut s = String::from_str(a);
    s.append(b);
    s
}

} // verus!
