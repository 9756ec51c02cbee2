//! Small string helpers shared by the library: equality of string slices,
//! building owned strings from literals, and decimal rendering of integers.

use vstd::prelude::*;
use vstd::string::StringExecFns;

verus! {

/// Character-by-character equality of two string slices.
pub fn str_eq(a: &str, b: &str) -> (r: bool)
    ensures
        r == (a@ == b@),
{
    let n = a.unicode_len();
    let m = b.unicode_len();
    if n != m {
        return false;
    }
    let mut i: usize = 0;
    while i < n
        invariant
            i <= n,
            n == a@.len(),
            m == b@.len(),
            n == m,
            forall|j: int| 0 <= j < i ==> a@[j] == b@[j],
        decreases n - i,
    {
        if a.get_char(i) != b.get_char(i) {
            return false;
        }
        i += 1;
    }
    assert(a@ =~= b@);
    true
}

/// An owned copy of a string slice.
pub fn owned(s: &str) -> (r: String)
    ensures
        r@ == s@,
{
    String::from_str(s)
}

/// `a`, `b` and `c` one after the other.
pub fn join3(a: &str, b: &str, c: &str) -> (r: String)
    ensures
        r@ == a@ + b@ + c@,
{
    String::from_str(a).concat(b).concat(c)
}

/// The decimal digit character for `d < 10`.
pub open spec fn digit_char(d: nat) -> char {
    if d == 0 { '0' }
    else if d == 1 { '1' }
    else if d == 2 { '2' }
    else if d == 3 { '3' }
    else if d == 4 { '4' }
    else if d == 5 { '5' }
    else if d == 6 { '6' }
    else if d == 7 { '7' }
    else if d == 8 { '8' }
    else { '9' }
}

/// Decimal notation of a natural number, most significant digit first.
pub open spec fn decimal(n: nat) -> Seq<char>
    decreases n,
{
    if n < 10 {
        seq![digit_char(n)]
    } else {
        decimal(n / 10).push(digit_char(n % 10))
    }
}

/// Decimal notation of an integer, with a leading '-' when it is negative.
pub open spec fn signed_decimal(n: int) -> Seq<char> {
    if n < 0 {
        seq!['-'] + decimal((-n) as nat)
    } else {
        decimal(n as nat)
    }
}

fn digit_string(d: u64) -> (r: String)
    requires
        d < 10,
    ensures
        r@ == seq![digit_char(d as nat)],
{
    proof {
        reveal_strlit("0");
        reveal_strlit("1");
        reveal_strlit("2");
        reveal_strlit("3");
        reveal_strlit("4");
        reveal_strlit("5");
        reveal_strlit("6");
        reveal_strlit("7");
        reveal_strlit("8");
        reveal_strlit("9");
    }
    let s = if d == 0 { "0" }
        else if d == 1 { "1" }
        else if d == 2 { "2" }
        else if d == 3 { "3" }
        else if d == 4 { "4" }
        else if d == 5 { "5" }
        else if d == 6 { "6" }
        else if d == 7 { "7" }
        else if d == 8 { "8" }
        else { "9" };
    let r = String::from_str(s);
    assert(r@ =~= seq![digit_char(d as nat)]);
    r
}

/// Decimal rendering of an unsigned number.
pub fn u64_to_string(n: u64) -> (r: String)
    ensures
        r@ == decimal(n as nat),
    decreases n,
{
    if n < 10 {
        digit_string(n)
    } else {
        let high = u64_to_string(n / 10);
        let low = digit_string(n % 10);
        let r = high.concat(low.as_str());
        assert(r@ =~= decimal(n as nat));
        r
    }
}

/// Decimal rendering of a `usize`.
pub fn usize_to_string(n: usize) -> (r: String)
    ensures
        r@ == decimal(n as nat),
{
    u64_to_string(n as u64)
}

/// Decimal rendering of a signed 32-bit number.
pub fn i32_to_string(n: i32) -> (r: String)
    ensures
        r@ == signed_decimal(n as int),
{
    if n < 0 {
        let m: i64 = -(n as i64);
        let digits = u64_to_string(m as u64);
        let r = String::from_str("-").concat(digits.as_str());
        proof { reveal_strlit("-"); }
        assert(r@ =~= signed_decimal(n as int));
        r
    } else {
        u64_to_string(n as u64)
    }
}


/// `name(value)`, as a derived `Debug` shows a variant with one field.
pub open spec fn tuple1_text(name: Seq<char>, value: Seq<char>) -> Seq<char> {
    name + "("@ + value + ")"@
}

/// `name(first, second)`, as a derived `Debug` shows a variant with two
/// fields.
pub open spec fn tuple2_text(name: Seq<char>, first: Seq<char>, second: Seq<char>) -> Seq<char> {
    name + "("@ + first + ", "@ + second + ")"@
}

/// The text of `tuple1_text`.
pub fn tuple1_string(name: &str, value: &String) -> (r: String)
    ensures
        r@ == tuple1_text(name@, value@),
{
    owned(name).concat("(").concat(value.as_str()).concat(")")
}

/// The text of `tuple2_text`.
pub fn tuple2_string(name: &str, first: &String, second: &String) -> (r: String)
    ensures
        r@ == tuple2_text(name@, first@, second@),
{
    owned(name).concat("(").concat(first.as_str()).concat(", ").concat(second.as_str()).concat(")")
}


/// What `{:?}` renders a string as: std's quoted and escaped form.
pub uninterp spec fn string_debug_text(s: Seq<char>) -> Seq<char>;

/// Calls std's formatting machinery with the `Debug` of a string slice (its
/// quoting and escaping); the contract only says that the text is the same for
/// equal strings.
#[verifier::external_body]
pub(crate) fn string_debug_string(s: &str) -> (r: String)
    ensures
        r@ == string_debug_text(s@),
{
    format!("{:?}", s)
}

} // verus!
