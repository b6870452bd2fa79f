//! Decimal numerals: what it means for a word to be a numeric literal, and
//! how a number is rendered back to decimal text.

use vstd::prelude::*;
use vstd::string::StrSliceExecFns;
use vstd::string::StringExecFns;

verus! {

/// `c` is an ASCII decimal digit.
pub open spec fn is_digit(c: char) -> bool {
    48 <= c as int <= 57
}

/// The numeric value of a digit character.
pub open spec fn digit_val(c: char) -> int {
    c as int - 48
}

/// The digit character for a value between 0 and 9.
pub open spec fn digit_char(d: int) -> char {
    if d == 0 {
        '0'
    } else if d == 1 {
        '1'
    } else if d == 2 {
        '2'
    } else if d == 3 {
        '3'
    } else if d == 4 {
        '4'
    } else if d == 5 {
        '5'
    } else if d == 6 {
        '6'
    } else if d == 7 {
        '7'
    } else if d == 8 {
        '8'
    } else {
        '9'
    }
}

/// Every character of `s` is a decimal digit.
pub open spec fn all_digits(s: Seq<char>) -> bool {
    forall|i: int| 0 <= i < s.len() ==> is_digit(s[i])
}

/// The value of a digit string read most-significant first.
pub open spec fn digits_val(s: Seq<char>) -> int
    decreases s.len(),
{
    if s.len() == 0 {
        0
    } else {
        10 * digits_val(s.drop_last()) + digit_val(s.last())
    }
}

/// The digit part of a literal: everything after an optional leading sign.
pub open spec fn literal_body(s: Seq<char>) -> Seq<char> {
    if s.len() > 0 && (s[0] == '+' || s[0] == '-') {
        s.subrange(1, s.len() as int)
    } else {
        s
    }
}

/// The sign a literal denotes.
pub open spec fn literal_sign(s: Seq<char>) -> int {
    if s.len() > 0 && s[0] == '-' {
        -1
    } else {
        1
    }
}

/// The integer a literal denotes.
pub open spec fn literal_val(s: Seq<char>) -> int {
    literal_sign(s) * digits_val(literal_body(s))
}

/// `s` parses fully as a signed 32-bit integer: an optional sign, then at
/// least one digit and nothing else, with the value in range.
pub open spec fn is_i32_literal(s: Seq<char>) -> bool {
    &&& literal_body(s).len() > 0
    &&& all_digits(literal_body(s))
    &&& i32::MIN <= literal_val(s) <= i32::MAX
}

/// The decimal digits of a non-negative number, with no digits at all for 0.
pub open spec fn dec_digits(n: int) -> Seq<char>
    decreases n,
{
    if n <= 0 {
        Seq::empty()
    } else {
        dec_digits(n / 10).push(digit_char(n % 10))
    }
}

/// The decimal text of a non-negative number.
pub open spec fn text_of_nat(n: int) -> Seq<char> {
    if n == 0 {
        seq!['0']
    } else {
        dec_digits(n)
    }
}

/// The decimal text of a signed 32-bit number.
pub open spec fn text_of_i32(n: i32) -> Seq<char> {
    if n < 0 {
        seq!['-'] + text_of_nat(-n as int)
    } else {
        text_of_nat(n as int)
    }
}

proof fn lemma_digits_val_nonneg(s: Seq<char>)
    requires
        all_digits(s),
    ensures
        digits_val(s) >= 0,
    decreases s.len(),
{
    if s.len() > 0 {
        assert(all_digits(s.drop_last()));
        lemma_digits_val_nonneg(s.drop_last());
    }
}

/// Reading further digits can only increase the value of a digit string.
proof fn lemma_digits_val_prefix_le(s: Seq<char>, k: int)
    requires
        all_digits(s),
        0 <= k <= s.len(),
    ensures
        digits_val(s.subrange(0, k)) <= digits_val(s),
    decreases s.len() - k,
{
    if k == s.len() {
        assert(s.subrange(0, k) =~= s);
    } else {
        lemma_digits_val_prefix_le(s, k + 1);
        let shorter = s.subrange(0, k);
        let longer = s.subrange(0, k + 1);
        assert(longer.drop_last() =~= shorter);
        assert(all_digits(shorter));
        lemma_digits_val_nonneg(shorter);
        assert(digits_val(longer) == 10 * digits_val(shorter) + digit_val(longer.last()));
    }
}

/// Parses a word as a signed 32-bit decimal literal, exactly when the word
/// is one.
pub fn parse_i32(word: &str) -> (r: Option<i32>)
    ensures
        match r {
            Some(n) => is_i32_literal(word@) && n as int == literal_val(word@),
            None => !is_i32_literal(word@),
        },
{
    let len = word.unicode_len();
    if len == 0 {
        return None;
    }
    let first = word.get_char(0);
    let neg = first == '-';
    let start: usize = if first == '-' || first == '+' {
        1
    } else {
        0
    };
    proof {
        assert(literal_body(word@) =~= word@.subrange(start as int, len as int));
    }
    if start == len {
        return None;
    }
    let limit: u64 = if neg {
        2147483648
    } else {
        2147483647
    };
    let ghost body = word@.subrange(start as int, len as int);
    let mut acc: u64 = 0;
    let mut i: usize = start;
    while i < len
        invariant
            start <= i <= len,
            len == word@.len(),
            start < len,
            body == literal_body(word@),
            body == word@.subrange(start as int, len as int),
            neg == (word@[0] == '-'),
            limit == if neg { 2147483648int } else { 2147483647int },
            all_digits(body.subrange(0, i - start)),
            acc as int == digits_val(body.subrange(0, i - start)),
            acc <= limit,
        decreases len - i,
    {
        let c = word.get_char(i);
        let code = c as u32;
        if code < 48 || code > 57 {
            proof {
                assert(!is_digit(body[i - start]));
            }
            return None;
        }
        let d = (code - 48) as u64;
        let next = acc * 10 + d;
        proof {
            let prev = body.subrange(0, i - start);
            let cur = body.subrange(0, i + 1 - start);
            assert(cur.drop_last() =~= prev);
            assert(cur.last() == body[i - start]);
        }
        if next > limit {
            proof {
                if all_digits(body) {
                    lemma_digits_val_prefix_le(body, i + 1 - start);
                }
            }
            return None;
        }
        acc = next;
        i = i + 1;
    }
    proof {
        assert(body.subrange(0, len - start) =~= body);
    }
    if neg {
        let n = (-(acc as i64)) as i32;
        Some(n)
    } else {
        let n = acc as i32;
        Some(n)
    }
}

/// The digit characters of `ds`, read back to front.
spec fn rev_chars(ds: Seq<u32>) -> Seq<char> {
    Seq::new(ds.len(), |j: int| digit_char(ds[ds.len() - 1 - j] as int))
}

/// A one-character string slice for a digit value.
fn digit_str(d: u32) -> (r: &'static str)
    requires
        d < 10,
    ensures
        r@ =~= seq![digit_char(d as int)],
{
    let s = "0123456789";
    proof {
        reveal_strlit("0123456789");
    }
    let r = s.substring_char(d as usize, d as usize + 1);
    proof {
        assert(r@ =~= seq![digit_char(d as int)]);
    }
    r
}

/// Renders a signed 32-bit number as its decimal text.
pub fn num_text(n: i32) -> (r: String)
    ensures
        r@ == text_of_i32(n),
{
    let mut m: u32 = if n < 0 {
        (-(n as i64)) as u32
    } else {
        n as u32
    };
    let ghost m0 = m;
    let mut out = String::new();
    if n < 0 {
        out.append("-");
        proof {
            reveal_strlit("-");
            assert(out@ =~= seq!['-']);
        }
    }
    let ghost sign = out@;
    if m == 0 {
        out.append("0");
        proof {
            reveal_strlit("0");
            assert(out@ =~= sign + seq!['0']);
        }
        return out;
    }
    let mut digits: Vec<u32> = Vec::new();
    while m > 0
        invariant
            dec_digits(m0 as int) =~= dec_digits(m as int) + rev_chars(digits@),
            forall|j: int| 0 <= j < digits@.len() ==> digits@[j] < 10,
        decreases m,
    {
        let d = m % 10;
        proof {
            let pushed = digits@.push(d);
            assert(rev_chars(pushed) =~= seq![digit_char(d as int)] + rev_chars(digits@));
            assert(dec_digits(m as int) == dec_digits(m as int / 10).push(digit_char(d as int)));
            assert(dec_digits(m as int / 10) + rev_chars(pushed) =~= dec_digits(m as int)
                + rev_chars(digits@));
        }
        digits.push(d);
        m = m / 10;
    }
    proof {
        assert(dec_digits(m0 as int) =~= rev_chars(digits@));
    }
    let mut i: usize = digits.len();
    while i > 0
        invariant
            i <= digits.len(),
            forall|j: int| 0 <= j < digits@.len() ==> digits@[j] < 10,
            out@ =~= sign + rev_chars(digits@).subrange(0, digits@.len() - i),
        decreases i,
    {
        i = i - 1;
        let ghost done = rev_chars(digits@).subrange(0, digits@.len() - i - 1);
        out.append(digit_str(digits[i]));
        proof {
            assert(rev_chars(digits@)[digits@.len() - 1 - i as int] == digit_char(
                digits@[i as int] as int,
            ));
            assert(done.push(digit_char(digits@[i as int] as int)) =~= rev_chars(
                digits@,
            ).subrange(0, digits@.len() - i));
            assert(out@ =~= sign + rev_chars(digits@).subrange(0, digits@.len() - i));
        }
    }
    proof {
        assert(rev_chars(digits@).subrange(0, digits@.len() as int) =~= rev_chars(digits@));
        if n < 0 {
            assert(out@ =~= text_of_i32(n));
        } else {
            assert(out@ =~= text_of_i32(n));
        }
    }
    out
}

} // verus!
