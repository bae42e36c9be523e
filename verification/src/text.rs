//! Character-level helpers: decimal rendering of counters and the
//! ASCII-safe rewriting of uploaded file names.

use vstd::prelude::*;

verus! {

/// The character of the decimal digit `d` (for `d < 10`).
pub open spec fn digit_char(d: nat) -> char {
    (48 + d) as char
}

/// The decimal representation of `n`, most significant digit first, without
/// leading zeros (`0` is rendered as a single `'0'`).
pub open spec fn decimal(n: nat) -> Seq<char>
    decreases n,
{
    if n < 10 {
        seq![digit_char(n)]
    } else {
        decimal(n / 10).push(digit_char(n % 10))
    }
}

/// Appends one character to a `String`.
#[verifier::external_body]
pub(crate) fn push_char(s: &mut String, c: char)
    ensures
        final(s)@ == old(s)@.push(c),
{
    s.push(c);
}

/// Appends the decimal representation of `n` to `s`.
pub fn push_decimal(s: &mut String, n: u128)
    ensures
        final(s)@ == old(s)@ + decimal(n as nat),
    decreases n,
{
    if n >= 10 {
        push_decimal(s, n / 10);
    }
    let d: u8 = (n % 10) as u8;
    let c: char = (48u8 + d) as char;
    push_char(s, c);
    proof {
        assert(c == digit_char((n % 10) as nat));
    }
}

/// The characters of `s`, in order.
pub fn chars_of(s: &str) -> (v: Vec<char>)
    ensures
        v@ == s@,
{
    let mut v: Vec<char> = Vec::new();
    let chars = s.chars();
    for c in it: chars
        invariant
            it.seq() == s@,
            v@ == s@.take(it.index()),
    {
        v.push(c);
        proof {
            assert(v@ =~= s@.take(it.index() + 1));
        }
    }
    proof {
        assert(s@.take(s@.len() as int) =~= s@);
    }
    v
}

/// Characters kept unchanged in a stored file name: ASCII letters, ASCII
/// digits, `.`, `-` and `_`.
pub open spec fn is_safe_name_char(c: char) -> bool {
    ||| ('a' <= c && c <= 'z')
    ||| ('A' <= c && c <= 'Z')
    ||| ('0' <= c && c <= '9')
    ||| c == '.'
    ||| c == '-'
    ||| c == '_'
}

/// The ASCII-safe form of a file name: every character that is not safe is
/// replaced by `_`, one for one.
pub open spec fn sanitized(name: Seq<char>) -> Seq<char> {
    Seq::new(name.len(), |i: int| if is_safe_name_char(name[i]) { name[i] } else { '_' })
}

/// Rewrites a file name so that it holds only ASCII letters, digits, `.`,
/// `-` and `_`; every other character becomes `_`.
pub fn sanitize_file_name(name: &str) -> (out: String)
    ensures
        out@ == sanitized(name@),
{
    let mut out = String::new();
    let chars = name.chars();
    for c in it: chars
        invariant
            it.seq() == name@,
            out@.len() == it.index(),
            forall|i: int|
                0 <= i < it.index() ==> #[trigger] out@[i] == sanitized(name@)[i],
    {
        if is_safe_char(c) {
            push_char(&mut out, c);
        } else {
            push_char(&mut out, '_');
        }
    }
    proof {
        assert(out@ =~= sanitized(name@));
    }
    out
}

/// A name that denotes one entry inside a directory: not empty, not `.` or
/// `..`, and made only of safe characters (so it holds no path separator).
pub open spec fn is_plain_component(name: Seq<char>) -> bool {
    &&& name.len() >= 1
    &&& name != seq!['.']
    &&& name != seq!['.', '.']
    &&& forall|i: int| 0 <= i < name.len() ==> #[trigger] is_safe_name_char(name[i])
}

/// The names that cannot name a stored file: the empty name, `.` and `..`.
pub open spec fn is_reserved_name(name: Seq<char>) -> bool {
    name.len() == 0 || name == seq!['.'] || name == seq!['.', '.']
}

/// The sanitized form of `name` when it is one plain directory entry, `None`
/// when it is not (exactly when `name` is empty, `.` or `..`).
pub fn plain_file_name(name: &str) -> (r: Option<String>)
    ensures
        r is Some <==> is_plain_component(sanitized(name@)),
        r is Some <==> !is_reserved_name(name@),
        r matches Some(s) ==> s@ == sanitized(name@),
{
    let s = sanitize_file_name(name);
    let v = chars_of(s.as_str());
    proof {
        lemma_sanitized_is_safe(name@);
        lemma_plain_iff_not_reserved(name@);
    }
    let reserved = v.len() == 0 || (v.len() == 1 && v[0] == '.') || (v.len() == 2 && v[0] == '.'
        && v[1] == '.');
    proof {
        if v@.len() == 1 && v@[0] == '.' {
            assert(v@ =~= seq!['.']);
        }
        if v@.len() == 2 && v@[0] == '.' && v@[1] == '.' {
            assert(v@ =~= seq!['.', '.']);
        }
        assert(reserved == is_reserved_name(s@));
    }
    if reserved {
        None
    } else {
        Some(s)
    }
}

fn is_safe_char(c: char) -> (b: bool)
    ensures
        b == is_safe_name_char(c),
{
    ('a' <= c && c <= 'z') || ('A' <= c && c <= 'Z') || ('0' <= c && c <= '9') || c == '.'
        || c == '-' || c == '_'
}

/// A sanitized name has as many characters as the original and holds only
/// safe characters.
pub proof fn lemma_sanitized_is_safe(name: Seq<char>)
    ensures
        sanitized(name).len() == name.len(),
        forall|i: int| 0 <= i < name.len() ==> #[trigger] is_safe_name_char(sanitized(name)[i]),
{
}

/// Sanitizing twice gives the same name as sanitizing once.
pub proof fn lemma_sanitize_idempotent(name: Seq<char>)
    ensures
        sanitized(sanitized(name)) == sanitized(name),
{
    assert(sanitized(sanitized(name)) =~= sanitized(name));
}

/// A name made only of safe characters is left unchanged.
pub proof fn lemma_safe_name_unchanged(name: Seq<char>)
    requires
        forall|i: int| 0 <= i < name.len() ==> #[trigger] is_safe_name_char(name[i]),
    ensures
        sanitized(name) == name,
{
    assert(sanitized(name) =~= name);
}

proof fn lemma_digit_char_injective(a: nat, b: nat)
    requires
        a < 10,
        b < 10,
        digit_char(a) == digit_char(b),
    ensures
        a == b,
{
    assert(digit_char(a) as int == 48 + a);
    assert(digit_char(b) as int == 48 + b);
}

/// The sanitized form of a name is one plain directory entry exactly when
/// the name is not empty, `.` or `..`; in particular sanitizing never turns
/// another name into one of those three.
pub proof fn lemma_plain_iff_not_reserved(name: Seq<char>)
    ensures
        is_plain_component(sanitized(name)) <==> !is_reserved_name(name),
        is_reserved_name(sanitized(name)) <==> is_reserved_name(name),
{
    lemma_sanitized_is_safe(name);
    let s = sanitized(name);
    if s == seq!['.'] {
        assert(s[0] == '.');
        assert(name =~= seq!['.']);
    }
    if s == seq!['.', '.'] {
        assert(s[0] == '.' && s[1] == '.');
        assert(name =~= seq!['.', '.']);
    }
    if name == seq!['.'] {
        assert(s =~= seq!['.']);
    }
    if name == seq!['.', '.'] {
        assert(s =~= seq!['.', '.']);
    }
}

/// Every rendering has at least one digit.
pub proof fn lemma_decimal_nonempty(n: nat)
    ensures
        decimal(n).len() >= 1,
        n < 10 <==> decimal(n).len() == 1,
    decreases n,
{
    if n >= 10 {
        lemma_decimal_nonempty(n / 10);
    }
}

/// Distinct numbers have distinct decimal renderings.
pub proof fn lemma_decimal_injective(a: nat, b: nat)
    requires
        decimal(a) == decimal(b),
    ensures
        a == b,
    decreases a,
{
    lemma_decimal_nonempty(a);
    lemma_decimal_nonempty(b);
    if a < 10 {
        assert(b < 10);
        assert(decimal(a)[0] == digit_char(a));
        assert(decimal(b)[0] == digit_char(b));
        lemma_digit_char_injective(a, b);
    } else {
        let da = decimal(a);
        let db = decimal(b);
        assert(da.last() == digit_char(a % 10));
        assert(db.last() == digit_char(b % 10));
        assert(da.drop_last() =~= decimal(a / 10));
        assert(db.drop_last() =~= decimal(b / 10));
        lemma_digit_char_injective(a % 10, b % 10);
        lemma_decimal_injective(a / 10, b / 10);
    }
}

} // verus!
