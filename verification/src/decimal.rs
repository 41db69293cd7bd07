//! Whole numbers as the store writes them: in base ten, without a sign and
//! without leading zeros.
use vstd::prelude::*;

verus! {

/// The largest number that the store reads from text: the largest signed
/// integer of 64 bits.
pub const LARGEST: u64 = 9223372036854775807;

/// `c` is one of the ten digits.
pub open spec fn is_digit(c: char) -> bool {
    '0' as int <= c as int <= '9' as int
}

/// The digit that stands for `d`, for `d` below ten.
pub open spec fn digit(d: nat) -> char {
    ('0' as int + d) as char
}

/// The number that a sequence of digits spells.
pub open spec fn number_of(digits: Seq<char>) -> nat
    decreases digits.len(),
{
    if digits.len() == 0 {
        0
    } else {
        (number_of(digits.drop_last()) * 10 + (digits.last() as int - '0' as int)) as nat
    }
}

/// The text is a number in the store's form: at least one digit, nothing but
/// digits, and no zero in front of another digit.
pub open spec fn well_formed(text: Seq<char>) -> bool {
    &&& text.len() > 0
    &&& forall|i: int| 0 <= i < text.len() ==> is_digit(#[trigger] text[i])
    &&& text.len() > 1 ==> text[0] != '0'
}

/// The number that a text stands for, where it is well formed and the store
/// can hold the number.
pub open spec fn parsed(text: Seq<char>) -> Option<u64> {
    if well_formed(text) && number_of(text) <= LARGEST {
        Some(number_of(text) as u64)
    } else {
        None
    }
}

/// The digits of `n`, the most significant first.
pub open spec fn digits_of(n: nat) -> Seq<char>
    decreases n,
{
    if n < 10 {
        seq![digit(n)]
    } else {
        digits_of(n / 10).push(digit(n % 10))
    }
}

/// A longer run of digits spells no smaller number.
proof fn number_grows(digits: Seq<char>, upto: int)
    requires
        0 <= upto <= digits.len(),
        forall|i: int| 0 <= i < digits.len() ==> is_digit(#[trigger] digits[i]),
    ensures
        number_of(digits.take(upto)) <= number_of(digits),
    decreases digits.len() - upto,
{
    if upto < digits.len() {
        number_grows(digits, upto + 1);
        assert(digits.take(upto + 1).drop_last() =~= digits.take(upto));
        assert(is_digit(digits[upto]));
    } else {
        assert(digits.take(upto) =~= digits);
    }
}

/// Reads a number in the store's form. `None` where the text is not well
/// formed or the number is too large for the store.
pub fn parse_count(text: &str) -> (n: Option<u64>)
    ensures
        n == parsed(text@),
{
    let len = text.unicode_len();
    if len == 0 {
        return None;
    }
    if len > 1 && text.get_char(0) == '0' {
        return None;
    }
    let mut value: u64 = 0;
    let mut i: usize = 0;
    while i < len
        invariant
            len == text@.len(),
            i <= len,
            forall|j: int| 0 <= j < i ==> is_digit(#[trigger] text@[j]),
            value == number_of(text@.take(i as int)),
            value <= LARGEST,
        decreases len - i,
    {
        let c = text.get_char(i);
        if !(c >= '0' && c <= '9') {
            assert(!is_digit(text@[i as int]));
            return None;
        }
        let d: u64 = (c as u32 - '0' as u32) as u64;
        proof {
            assert(text@.take(i + 1).drop_last() =~= text@.take(i as int));
            assert(text@.take(i + 1).last() == c);
        }
        if value > (LARGEST - d) / 10 {
            proof {
                if forall|j: int| 0 <= j < text@.len() ==> is_digit(#[trigger] text@[j]) {
                    number_grows(text@, i + 1);
                }
            }
            return None;
        }
        value = value * 10 + d;
        i += 1;
    }
    proof {
        assert(text@.take(len as int) =~= text@);
    }
    Some(value)
}

/// The text of one digit.
fn digit_text(d: u64) -> (text: &'static str)
    requires
        d < 10,
    ensures
        text@ == seq![digit(d as nat)],
{
    proof {
        reveal_strlit("0");
        reveal_strlit("1");
        reveal_strlit("2");
        reveal_strlit("3");
        reveal_strlit("4");
        reveal_strlit("5");
        reveal_strlit("6");
        reveal_strlit("7");
        reveal_strlit("8");
        reveal_strlit("9");
    }
    let text = if d == 0 {
        "0"
    } else if d == 1 {
        "1"
    } else if d == 2 {
        "2"
    } else if d == 3 {
        "3"
    } else if d == 4 {
        "4"
    } else if d == 5 {
        "5"
    } else if d == 6 {
        "6"
    } else if d == 7 {
        "7"
    } else if d == 8 {
        "8"
    } else {
        "9"
    };
    assert(text@ =~= seq![digit(d as nat)]);
    text
}

/// Writes a number in the store's form.
pub fn decimal(n: u64) -> (text: String)
    ensures
        text@ == digits_of(n as nat),
    decreases n,
{
    if n < 10 {
        String::from_str(digit_text(n))
    } else {
        let mut text = decimal(n / 10);
        text.append(digit_text(n % 10));
        assert(text@ =~= digits_of(n as nat));
        text
    }
}

/// What [`decimal`] writes, [`parse_count`] reads back.
pub proof fn decimal_round_trip(n: nat)
    ensures
        well_formed(digits_of(n)),
        number_of(digits_of(n)) == n,
    decreases n,
{
    if n < 10 {
        assert(digits_of(n).drop_last() =~= Seq::<char>::empty());
        assert(number_of(digits_of(n).drop_last()) == 0);
    } else {
        decimal_round_trip(n / 10);
        let shorter = digits_of(n / 10);
        assert(digits_of(n).drop_last() =~= shorter);
        assert(digits_of(n)[0] == shorter[0]);
        if shorter.len() == 1 {
            assert(shorter.drop_last() =~= Seq::<char>::empty());
            assert(number_of(shorter.drop_last()) == 0);
        }
        assert forall|i: int| 0 <= i < digits_of(n).len() implies is_digit(
            #[trigger] digits_of(n)[i],
        ) by {
            if i < shorter.len() {
                assert(is_digit(shorter[i]));
            }
        }
    }
}

} // verus!
