//! Text as sequences of characters: decimal numbers, occurrences of one text
//! in another, white space, and comparison.

use vstd::prelude::*;
use vstd::string::*;

verus! {

/// The character that stands for a decimal digit.
pub open spec fn digit_char(digit: int) -> char {
    if digit == 0 {
        '0'
    } else if digit == 1 {
        '1'
    } else if digit == 2 {
        '2'
    } else if digit == 3 {
        '3'
    } else if digit == 4 {
        '4'
    } else if digit == 5 {
        '5'
    } else if digit == 6 {
        '6'
    } else if digit == 7 {
        '7'
    } else if digit == 8 {
        '8'
    } else {
        '9'
    }
}

/// A natural number in decimal digits, the most significant first, without
/// leading zeros.
pub open spec fn decimal(value: nat) -> Seq<char>
    decreases value,
{
    if value < 10 {
        seq![digit_char(value as int)]
    } else {
        decimal(value / 10).push(digit_char((value % 10) as int))
    }
}

/// `count` times the digit zero.
pub open spec fn zeros(count: nat) -> Seq<char> {
    Seq::new(count, |i: int| '0')
}

/// A natural number in decimal digits, with zeros in front where it has
/// fewer than `width` digits.
pub open spec fn zero_padded(value: nat, width: nat) -> Seq<char> {
    let digits = decimal(value);
    if digits.len() >= width {
        digits
    } else {
        zeros((width - digits.len()) as nat) + digits
    }
}

/// An integer in decimal digits, filled with zeros to at least `width`
/// characters. A negative number starts with a minus sign, which counts as
/// one of the `width` characters and stands before the zeros.
pub open spec fn padded_decimal(value: int, width: nat) -> Seq<char> {
    if value < 0 {
        seq!['-'] + zero_padded((-value) as nat, if width >= 1 {
            (width - 1) as nat
        } else {
            0
        })
    } else {
        zero_padded(value as nat, width)
    }
}

/// `needle` stands in `text` at position `at`.
pub open spec fn occurs_at(text: Seq<char>, needle: Seq<char>, at: int) -> bool {
    &&& 0 <= at
    &&& at + needle.len() <= text.len()
    &&& text.subrange(at, at + needle.len()) == needle
}

/// `needle` stands somewhere in `text`, as one piece.
pub open spec fn contains_text(text: Seq<char>, needle: Seq<char>) -> bool {
    exists|at: int| occurs_at(text, needle, at)
}

/// The characters that have the Unicode property White_Space.
pub open spec fn whitespace(c: char) -> bool {
    let code = c as u32;
    ||| 0x09 <= code <= 0x0D
    ||| code == 0x20
    ||| code == 0x85
    ||| code == 0xA0
    ||| code == 0x1680
    ||| 0x2000 <= code <= 0x200A
    ||| code == 0x2028
    ||| code == 0x2029
    ||| code == 0x202F
    ||| code == 0x205F
    ||| code == 0x3000
}

/// A text that holds nothing but white space; the empty text is one.
pub open spec fn blank(text: Seq<char>) -> bool {
    forall|i: int| 0 <= i < text.len() ==> whitespace(#[trigger] text[i])
}

/// A number of at most four digits, filled to four places, has four
/// characters.
pub proof fn lemma_four_digits(value: int)
    requires
        0 <= value < 10000,
    ensures
        padded_decimal(value, 4).len() == 4,
{
    reveal_with_fuel(decimal, 4);
}

/// A number below 100, filled to two places, is its tens digit and its
/// units digit.
pub proof fn lemma_two_digits(value: int)
    requires
        0 <= value < 100,
    ensures
        padded_decimal(value, 2) == seq![digit_char(value / 10), digit_char(value % 10)],
{
    reveal_with_fuel(decimal, 2);
    if value < 10 {
        assert(zeros(1) + decimal(value as nat) =~= seq![
            digit_char(value / 10),
            digit_char(value % 10),
        ]);
    }
}

/// A text that a piece stands in still holds the piece when more text is
/// put before and after it.
pub proof fn lemma_occurs_in_the_middle(
    before: Seq<char>,
    text: Seq<char>,
    after: Seq<char>,
    needle: Seq<char>,
    at: int,
)
    requires
        occurs_at(text, needle, at),
    ensures
        occurs_at(before + text + after, needle, before.len() + at),
{
    let whole = before + text + after;
    assert(whole.subrange(before.len() + at, before.len() + at + needle.len())
        =~= text.subrange(at, at + needle.len()));
}

/// Whether the character is white space.
pub fn is_whitespace(c: char) -> (white: bool)
    ensures
        white == whitespace(c),
{
    let code: u32 = c as u32;
    (0x09 <= code && code <= 0x0D) || code == 0x20 || code == 0x85 || code == 0xA0 || code
        == 0x1680 || (0x2000 <= code && code <= 0x200A) || code == 0x2028 || code == 0x2029
        || code == 0x202F || code == 0x205F || code == 0x3000
}

/// Whether the text holds nothing but white space.
pub fn is_blank(text: &str) -> (empty: bool)
    ensures
        empty == blank(text@),
{
    broadcast use vstd::string::group_string_axioms;

    for c in it: text.chars()
        invariant
            it.seq() == text@,
            forall|i: int| 0 <= i < it.index() ==> whitespace(#[trigger] text@[i]),
    {
        if !is_whitespace(c) {
            assert(!whitespace(text@[it.index()]));
            return false;
        }
    }
    true
}

/// Whether two texts hold the same characters.
pub fn same_text(left: &str, right: &str) -> (same: bool)
    ensures
        same == (left@ == right@),
{
    let a = left.as_bytes();
    let b = right.as_bytes();
    proof {
        vstd::utf8::encode_utf8_decode_utf8(left@);
        vstd::utf8::encode_utf8_decode_utf8(right@);
    }
    if a.len() != b.len() {
        return false;
    }
    let mut i: usize = 0;
    while i < a.len()
        invariant
            i <= a.len(),
            a.len() == b.len(),
            forall|k: int| 0 <= k < i ==> a@[k] == b@[k],
            a@ == left.spec_bytes(),
            b@ == right.spec_bytes(),
            left@ == right@ ==> a@ == b@,
        decreases a.len() - i,
    {
        if a[i] != b[i] {
            return false;
        }
        i = i + 1;
    }
    assert(a@ =~= b@);
    true
}

/// The text of one decimal digit.
fn digit_text(digit: u8) -> (text: &'static str)
    requires
        digit < 10,
    ensures
        text@ == seq![digit_char(digit as int)],
{
    let text = if digit == 0 {
        proof {
            reveal_strlit("0");
        }
        "0"
    } else if digit == 1 {
        proof {
            reveal_strlit("1");
        }
        "1"
    } else if digit == 2 {
        proof {
            reveal_strlit("2");
        }
        "2"
    } else if digit == 3 {
        proof {
            reveal_strlit("3");
        }
        "3"
    } else if digit == 4 {
        proof {
            reveal_strlit("4");
        }
        "4"
    } else if digit == 5 {
        proof {
            reveal_strlit("5");
        }
        "5"
    } else if digit == 6 {
        proof {
            reveal_strlit("6");
        }
        "6"
    } else if digit == 7 {
        proof {
            reveal_strlit("7");
        }
        "7"
    } else if digit == 8 {
        proof {
            reveal_strlit("8");
        }
        "8"
    } else {
        proof {
            reveal_strlit("9");
        }
        "9"
    };
    text
}

/// The decimal digits of `value`, the least significant first.
fn digits_of(value: u64) -> (digits: Vec<u8>)
    ensures
        digits@.len() == decimal(value as nat).len(),
        forall|i: int|
            0 <= i < digits@.len() ==> #[trigger] digits@[i] < 10 && decimal(
                value as nat,
            )[digits@.len() - 1 - i] == digit_char(digits@[i] as int),
{
    let mut digits: Vec<u8> = Vec::new();
    let mut rest: u64 = value;
    let ghost mut tail: Seq<char> = Seq::empty();
    while rest >= 10
        invariant
            decimal(value as nat) == decimal(rest as nat) + tail,
            tail.len() == digits@.len(),
            forall|i: int|
                0 <= i < digits@.len() ==> #[trigger] digits@[i] < 10 && tail[digits@.len() - 1
                    - i] == digit_char(digits@[i] as int),
        decreases rest,
    {
        let digit: u8 = (rest % 10) as u8;
        proof {
            let longer = seq![digit_char(digit as int)] + tail;
            assert(decimal(rest as nat) + tail =~= decimal((rest / 10) as nat) + longer);
            tail = longer;
        }
        digits.push(digit);
        rest = rest / 10;
    }
    proof {
        let longer = seq![digit_char(rest as int)] + tail;
        assert(decimal(rest as nat) + tail =~= longer);
        tail = longer;
    }
    digits.push(rest as u8);
    digits
}

/// Writes `value` at the end of `out`, in decimal digits and filled with
/// zeros to at least `width` characters.
pub fn push_padded_decimal(out: &mut String, value: i64, width: usize)
    ensures
        final(out)@ == old(out)@ + padded_decimal(value as int, width as nat),
{
    let negative = value < 0;
    let magnitude: u64 = if negative {
        (-(value as i128)) as u64
    } else {
        value as u64
    };
    let digits = digits_of(magnitude);
    let ghost number = decimal(magnitude as nat);
    let ghost sign: Seq<char> = if negative {
        seq!['-']
    } else {
        Seq::empty()
    };
    if negative {
        proof {
            reveal_strlit("-");
        }
        out.append("-");
    }
    let places: usize = if negative && width >= 1 {
        width - 1
    } else {
        width
    };
    let fill: usize = if digits.len() < places {
        places - digits.len()
    } else {
        0
    };
    let mut filled: usize = 0;
    while filled < fill
        invariant
            filled <= fill,
            out@ == old(out)@ + sign + zeros(filled as nat),
        decreases fill - filled,
    {
        proof {
            reveal_strlit("0");
            assert(zeros(filled as nat) + "0"@ =~= zeros((filled + 1) as nat));
        }
        out.append("0");
        filled = filled + 1;
    }
    let mut left: usize = digits.len();
    while left > 0
        invariant
            left <= digits@.len(),
            digits@.len() == number.len(),
            forall|i: int|
                0 <= i < digits@.len() ==> #[trigger] digits@[i] < 10 && number[digits@.len() - 1
                    - i] == digit_char(digits@[i] as int),
            out@ == old(out)@ + sign + zeros(fill as nat) + number.take(digits@.len() - left),
        decreases left,
    {
        left = left - 1;
        out.append(digit_text(digits[left]));
    }
    assert(out@ =~= old(out)@ + padded_decimal(value as int, width as nat)) by {
        assert(number.take(number.len() as int) =~= number);
        assert(zeros(0) + number =~= number);
    }
}

} // verus!
