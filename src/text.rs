use vstd::prelude::*;

verus! {

/// `needle` occurs in `haystack` as a contiguous run of characters.
pub open spec fn occurs_in(needle: Seq<char>, haystack: Seq<char>) -> bool {
    exists|i: int|
        0 <= i && i + needle.len() <= haystack.len() && #[trigger] haystack.subrange(
            i,
            i + needle.len(),
        ) == needle
}

/// Relies on `str::contains` with a `&str` pattern: true exactly when the
/// pattern matches a contiguous part of the string.
#[verifier::external_body]
pub(crate) fn str_contains(haystack: &str, needle: &str) -> (r: bool)
    ensures
        r == occurs_in(needle@, haystack@),
{
    haystack.contains(needle)
}

/// The character of a decimal digit `d < 10`.
pub open spec fn digit_char(d: nat) -> char {
    seq!['0', '1', '2', '3', '4', '5', '6', '7', '8', '9'][d as int]
}

/// The decimal writing of `n`: no sign, no leading zeros.
pub open spec fn decimal(n: nat) -> Seq<char>
    decreases n,
{
    if n < 10 {
        seq![digit_char(n)]
    } else {
        decimal(n / 10).push(digit_char(n % 10))
    }
}

/// The unit name `<base>@<n>.service`.
pub open spec fn unit_name(base: Seq<char>, n: nat) -> Seq<char> {
    base + seq!['@'] + decimal(n) + seq!['.', 's', 'e', 'r', 'v', 'i', 'c', 'e']
}

/// Relies on `usize::to_string`, which writes the number through `Display`:
/// its decimal digits, with no sign and no leading zeros.
#[verifier::external_body]
fn usize_decimal(n: usize) -> (r: String)
    ensures
        r@ == decimal(n as nat),
{
    n.to_string()
}

/// The unit name `<base>@<n>.service`.
pub(crate) fn format_unit_name(base: &str, n: usize) -> (r: String)
    ensures
        r@ == unit_name(base@, n as nat),
{
    let digits = usize_decimal(n);
    let mut r = String::from_str(base);
    r.append("@");
    r.append(digits.as_str());
    r.append(".service");
    proof {
        reveal_strlit("@");
        reveal_strlit(".service");
    }
    assert(r@ =~= unit_name(base@, n as nat));
    r
}

proof fn lemma_digit_injective(a: nat, b: nat)
    requires
        a < 10,
        b < 10,
        digit_char(a) == digit_char(b),
    ensures
        a == b,
{
    let digits = seq!['0', '1', '2', '3', '4', '5', '6', '7', '8', '9'];
    assert(digits[0] == '0' && digits[1] == '1' && digits[2] == '2' && digits[3] == '3'
        && digits[4] == '4' && digits[5] == '5' && digits[6] == '6' && digits[7] == '7'
        && digits[8] == '8' && digits[9] == '9');
}

proof fn lemma_decimal_len(n: nat)
    ensures
        decimal(n).len() >= 1,
        n >= 10 ==> decimal(n).len() >= 2,
    decreases n,
{
    if n >= 10 {
        lemma_decimal_len(n / 10);
    }
}

/// Distinct numbers have distinct decimal writings.
pub proof fn lemma_decimal_injective(a: nat, b: nat)
    requires
        decimal(a) == decimal(b),
    ensures
        a == b,
    decreases a,
{
    lemma_decimal_len(a);
    lemma_decimal_len(b);
    let da = decimal(a);
    let db = decimal(b);
    assert(da.last() == digit_char(a % 10));
    assert(db.last() == digit_char(b % 10));
    lemma_digit_injective(a % 10, b % 10);
    if a >= 10 && b >= 10 {
        assert(da.drop_last() =~= decimal(a / 10));
        assert(db.drop_last() =~= decimal(b / 10));
        lemma_decimal_injective(a / 10, b / 10);
    }
}

/// Distinct counters give distinct unit names for the same base.
pub proof fn lemma_unit_name_injective(base: Seq<char>, a: nat, b: nat)
    requires
        unit_name(base, a) == unit_name(base, b),
    ensures
        a == b,
{
    let na = unit_name(base, a);
    let start: int = base.len() + 1int;
    let tail = seq!['.', 's', 'e', 'r', 'v', 'i', 'c', 'e'];
    assert(na.len() == base.len() + 1 + decimal(a).len() + tail.len());
    assert(unit_name(base, b).len() == base.len() + 1 + decimal(b).len() + tail.len());
    assert(decimal(a).len() == decimal(b).len());
    assert(na.subrange(start, start + decimal(a).len() as int) =~= decimal(a));
    assert(unit_name(base, b).subrange(start, start + decimal(b).len() as int) =~= decimal(b));
    lemma_decimal_injective(a, b);
}

} // verus!
