//! Text of numbers, and the pieces that messages are made of.

use vstd::prelude::*;

verus! {

// ---- Numbers -------------------------------------------------------------

/// The character of one decimal digit.
pub open spec fn digit_char(d: nat) -> char {
    (('0' as int) + d) as char
}

/// The decimal text of `n`: its digits, most significant first, without
/// leading zeros.
pub open spec fn decimal(n: nat) -> Seq<char>
    decreases n,
{
    if n < 10 {
        seq![digit_char(n)]
    } else {
        decimal(n / 10).push(digit_char(n % 10))
    }
}

/// Whether `c` is one of `0` to `9`.
pub open spec fn is_digit(c: char) -> bool {
    '0' <= c <= '9'
}

/// Whether `s` holds digits only.
pub open spec fn all_digits(s: Seq<char>) -> bool {
    forall|i: int| 0 <= i < s.len() ==> is_digit(#[trigger] s[i])
}

/// The number that a row of digits stands for; 0 for an empty row.
pub open spec fn decimal_value(s: Seq<char>) -> nat
    decreases s.len(),
{
    if s.len() == 0 {
        0
    } else {
        decimal_value(s.drop_last()) * 10 + ((s.last() as int) - ('0' as int)) as nat
    }
}

/// The digits of a number's text, behind the `+` that may stand before them.
pub open spec fn unsigned_digits(s: Seq<char>) -> Seq<char> {
    if s.len() > 0 && s[0] == '+' {
        s.skip(1)
    } else {
        s
    }
}

/// The 64-bit number that `s` is the text of, if it is one.
pub open spec fn u64_of_text(s: Seq<char>) -> Option<u64> {
    let digits = unsigned_digits(s);
    if digits.len() > 0 && all_digits(digits) && decimal_value(digits) <= u64::MAX {
        Some(decimal_value(digits) as u64)
    } else {
        None
    }
}

/// The message with which `str::parse::<u64>` refuses `s`.
pub uninterp spec fn u64_parse_error(s: Seq<char>) -> Seq<char>;

/// `str::parse::<u64>`: an optional `+`, then digits only, in the range of
/// `u64`. Everything else is refused, with a message that depends on the text
/// alone.
#[verifier::external_body]
pub(crate) fn parse_u64(s: &str) -> (res: Result<u64, String>)
    ensures
        match res {
            Ok(n) => u64_of_text(s@) == Some(n),
            Err(message) => u64_of_text(s@) is None && message@ == u64_parse_error(s@),
        },
{
    s.parse::<u64>().map_err(|e| e.to_string())
}

/// The text of one digit.
fn digit_text(d: u64) -> (res: &'static str)
    requires
        d < 10,
    ensures
        res@ == seq![digit_char(d as nat)],
{
    proof {
        reveal_strlit("0");
        reveal_strlit("1");
        reveal_strlit("2");
        reveal_strlit("3");
        reveal_strlit("4");
        reveal_strlit("5");
        reveal_strlit("6");
        reveal_strlit("7");
        reveal_strlit("8");
        reveal_strlit("9");
    }
    if d == 0 {
        "0"
    } else if d == 1 {
        "1"
    } else if d == 2 {
        "2"
    } else if d == 3 {
        "3"
    } else if d == 4 {
        "4"
    } else if d == 5 {
        "5"
    } else if d == 6 {
        "6"
    } else if d == 7 {
        "7"
    } else if d == 8 {
        "8"
    } else {
        "9"
    }
}

/// The decimal text of `n`.
pub fn u64_text(n: u64) -> (res: String)
    ensures
        res@ == decimal(n as nat),
    decreases n,
{
    let last: u64 = n % 10;
    let mut out = if n < 10 {
        String::new()
    } else {
        u64_text(n / 10)
    };
    out.append(digit_text(last));
    out
}

/// A decimal text is a nonempty row of digits, and its value is the number it
/// was made from.
pub proof fn lemma_decimal_value(n: nat)
    ensures
        decimal(n).len() > 0,
        all_digits(decimal(n)),
        decimal_value(decimal(n)) == n,
    decreases n,
{
    if n < 10 {
        assert(decimal(n).drop_last() =~= Seq::<char>::empty());
        assert(decimal_value(Seq::<char>::empty()) == 0);
        assert(decimal(n).last() == digit_char(n));
    } else {
        lemma_decimal_value(n / 10);
        assert(decimal(n).drop_last() =~= decimal(n / 10));
        assert(decimal(n).last() == digit_char(n % 10));
    }
}

/// Reading a number's text back gives the number.
pub proof fn law_u64_text_reads_back(n: u64)
    ensures
        u64_of_text(decimal(n as nat)) == Some(n),
{
    lemma_decimal_value(n as nat);
    assert(is_digit(decimal(n as nat)[0]));
}

/// The value of a row of digits grows by one place with each digit behind it.
pub proof fn law_digits_count_by_place(s: Seq<char>, c: char)
    requires
        is_digit(c),
    ensures
        decimal_value(Seq::<char>::empty()) == 0,
        decimal_value(s.push(c)) == 10 * decimal_value(s) + (c as int - '0' as int),
        is_digit(c) <==> ('0' <= c && c <= '9'),
{
    assert(s.push(c).drop_last() =~= s);
}

/// The text of a number is the shortest row of digits with that value: digits
/// only, at least one, and no zero before another digit. So no other text of
/// digits without a leading zero has the value.
pub proof fn law_decimal_is_shortest(n: nat)
    ensures
        decimal(n).len() >= 1,
        forall|i: int| 0 <= i < decimal(n).len() ==> '0' <= #[trigger] decimal(n)[i] <= '9',
        decimal_value(decimal(n)) == n,
        decimal(n).len() > 1 ==> decimal(n)[0] != '0',
    decreases n,
{
    lemma_decimal_value(n);
    assert forall|i: int| 0 <= i < decimal(n).len() implies '0' <= #[trigger] decimal(n)[i]
        <= '9' by {
        assert(is_digit(decimal(n)[i]));
    }
    if n >= 10 {
        law_decimal_is_shortest(n / 10);
        if n / 10 < 10 {
            assert(decimal(n / 10) =~= seq![digit_char(n / 10)]);
            assert(digit_char(n / 10) as int == '0' as int + n / 10);
        } else {
            lemma_decimal_value(n / 10 / 10);
            assert(decimal(n / 10).len() > 1);
        }
        assert(decimal(n)[0] == decimal(n / 10)[0]);
    }
}

/// Whether `digits` is a nonempty row of the characters `0` to `9`.
pub open spec fn is_digit_row(digits: Seq<char>) -> bool {
    digits.len() > 0 && forall|i: int| 0 <= i < digits.len() ==> '0' <= #[trigger] digits[i] <= '9'
}

/// A text is a number exactly if it is digits, or a plus and digits, with a value
/// in range; then it is that value.
pub proof fn law_number_texts(digits: Seq<char>, n: u64)
    ensures
        is_digit_row(digits) && decimal_value(digits) == n <==> u64_of_text(seq!['+'] + digits)
            == Some(n),
        digits.len() > 0 && digits[0] == '+' || (is_digit_row(digits) && decimal_value(digits) == n
            <==> u64_of_text(digits) == Some(n)),
{
    assert((seq!['+'] + digits).skip(1) =~= digits);
    if all_digits(digits) {
        assert forall|i: int| 0 <= i < digits.len() implies '0' <= #[trigger] digits[i]
            <= '9' by {
            assert(is_digit(digits[i]));
        }
    }
    if is_digit_row(digits) {
        assert(all_digits(digits));
    }
}

// ---- Pieces --------------------------------------------------------------

/// A result with its error's text in place of the error.
pub open spec fn outcome<T>(res: Result<T, String>) -> Result<T, Seq<char>> {
    match res {
        Ok(v) => Ok(v),
        Err(e) => Err(e@),
    }
}

/// Two pieces in a row.
pub fn join2(a: &str, b: &str) -> (res: String)
    ensures
        res@ == a@ + b@,
{
    let mut out = a.to_owned();
    out.append(b);
    out
}

/// Three pieces in a row.
pub fn join3(a: &str, b: &str, c: &str) -> (res: String)
    ensures
        res@ == a@ + b@ + c@,
{
    let mut out = a.to_owned();
    out.append(b);
    out.append(c);
    out
}

/// Four pieces in a row.
pub fn join4(a: &str, b: &str, c: &str, d: &str) -> (res: String)
    ensures
        res@ == a@ + b@ + c@ + d@,
{
    let mut out = join3(a, b, c);
    out.append(d);
    out
}

/// Whether two texts hold the same characters.
pub fn same_text(a: &str, b: &str) -> (res: bool)
    ensures
        res == (a@ == b@),
{
    a.to_owned() == b.to_owned()
}

/// A result keeps its value, and its error the whole text.
pub proof fn law_outcome_keeps_all<T>(res: Result<T, String>)
    ensures
        res matches Ok(value) ==> outcome(res) == Ok::<T, Seq<char>>(value),
        res matches Err(e) ==> outcome(res) == Err::<T, Seq<char>>(e@),
{
}

} // verus!
