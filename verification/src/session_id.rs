//! The text form of session ids.
//!
//! Sessions are numbered in the order in which they start. The id handed to
//! callers is the letter `S` followed by that number in decimal, without
//! leading zeros: `S1`, `S2`, ... Two numbers never share a text, and a text
//! that is not of this form names no session.

use vstd::prelude::*;
use vstd::string::*;
use vstd::utf8::is_ascii_chars;

verus! {

/// The byte of the letter `S`.
const LETTER_S: u8 = 83;

/// The byte of the digit `0`.
const DIGIT_ZERO: u8 = 48;

/// The byte of the digit `9`.
const DIGIT_NINE: u8 = 57;

/// The character that stands for the digit `d`.
pub open spec fn digit_char(d: nat) -> char
    recommends
        d < 10,
{
    ('0' as nat + d) as char
}

/// Whether `c` is one of `0` to `9`.
pub open spec fn is_digit(c: char) -> bool {
    '0' <= c <= '9'
}

/// The digit that `c` stands for.
pub open spec fn digit_value(c: char) -> nat
    recommends
        is_digit(c),
{
    (c as nat - '0' as nat) as nat
}

/// The decimal numeral of `n`, without leading zeros.
pub open spec fn decimal_text(n: nat) -> Seq<char>
    decreases n,
{
    if n < 10 {
        seq![digit_char(n)]
    } else {
        decimal_text(n / 10).push(digit_char(n % 10))
    }
}

/// The id of the session with number `serial`.
pub open spec fn session_id_text(serial: nat) -> Seq<char> {
    seq!['S'] + decimal_text(serial)
}

/// The number of the session that `id` names, where `id` is an id.
pub open spec fn session_serial(id: Seq<char>) -> nat {
    decimal_value(id.subrange(1, id.len() as int))
}

/// The number that a run of digits denotes, read from the left.
pub open spec fn decimal_value(digits: Seq<char>) -> nat
    decreases digits.len(),
{
    if digits.len() == 0 {
        0
    } else {
        decimal_value(digits.drop_last()) * 10 + digit_value(digits.last())
    }
}

/// Whether `digits` is a decimal numeral without leading zeros.
pub open spec fn is_numeral(digits: Seq<char>) -> bool {
    &&& digits.len() >= 1
    &&& forall|i: int| 0 <= i < digits.len() ==> is_digit(#[trigger] digits[i])
    &&& digits[0] == '0' ==> digits.len() == 1
}

/// The one-character text of the digit `d`.
fn digit_text(d: usize) -> (text: &'static str)
    requires
        d < 10,
    ensures
        text@ == seq![digit_char(d as nat)],
{
    proof {
        reveal_strlit("0");
        reveal_strlit("1");
        reveal_strlit("2");
        reveal_strlit("3");
        reveal_strlit("4");
        reveal_strlit("5");
        reveal_strlit("6");
        reveal_strlit("7");
        reveal_strlit("8");
        reveal_strlit("9");
    }
    let text = match d {
        0 => "0",
        1 => "1",
        2 => "2",
        3 => "3",
        4 => "4",
        5 => "5",
        6 => "6",
        7 => "7",
        8 => "8",
        _ => "9",
    };
    assert(text@ =~= seq![digit_char(d as nat)]);
    text
}

/// Appends the decimal numeral of `n` to `out`.
fn append_decimal(out: &mut String, n: usize)
    ensures
        final(out)@ == old(out)@ + decimal_text(n as nat),
    decreases n,
{
    if n >= 10 {
        append_decimal(out, n / 10);
    }
    out.append(digit_text(n % 10));
}

/// Writes out the id of the session with number `serial`.
pub fn format_session_id(serial: usize) -> (id: String)
    ensures
        id@ == session_id_text(serial as nat),
{
    proof {
        reveal_strlit("S");
    }
    let mut id = String::from_str("S");
    append_decimal(&mut id, serial);
    assert(id@ =~= session_id_text(serial as nat));
    id
}

/// Reads an id back into the number of its session.
///
/// Gives `Some(n)` exactly where `text` is the id of session `n`; any other
/// text, also one with leading zeros or with a number too large for the
/// machine, gives `None`.
pub fn parse_session_id(text: &str) -> (serial: Option<usize>)
    ensures
        match serial {
            Some(n) => text@ == session_id_text(n as nat),
            None => forall|n: nat| n <= usize::MAX ==> text@ != #[trigger] session_id_text(n),
        },
{
    broadcast use vstd::string::is_ascii_spec_bytes;

    if !text.is_ascii() {
        proof {
            assert forall|n: nat| text@ != #[trigger] session_id_text(n) by {
                lemma_session_id_is_ascii(n);
            }
        }
        return None;
    }
    let bytes = text.as_bytes();
    let len = bytes.len();
    assert(is_ascii(text));
    assert(bytes@ =~= Seq::new(text@.len(), |i: int| text@[i] as u8));
    if len < 2 || bytes[0] != LETTER_S {
        proof {
            lemma_not_a_session_id(text@);
        }
        return None;
    }
    let ghost digits = text@.subrange(1, len as int);
    if bytes[1] == DIGIT_ZERO && len > 2 {
        proof {
            assert(digits[0] == '0');
            lemma_not_a_session_id(text@);
        }
        return None;
    }
    let mut value: usize = 0;
    let mut i: usize = 1;
    while i < len
        invariant
            1 <= i <= len,
            len == text@.len(),
            bytes@ == Seq::new(text@.len(), |i: int| text@[i] as u8),
            is_ascii_chars(text@),
            digits == text@.subrange(1, len as int),
            forall|j: int| 0 <= j < i - 1 ==> is_digit(#[trigger] digits[j]),
            value == decimal_value(digits.subrange(0, i - 1)),
        decreases len - i,
    {
        let byte = bytes[i];
        let ghost seen = digits.subrange(0, i as int);
        proof {
            assert(digits[i - 1] == text@[i as int]);
            assert(seen.drop_last() =~= digits.subrange(0, i - 1));
            assert(seen.last() == digits[i - 1]);
        }
        if byte < DIGIT_ZERO || byte > DIGIT_NINE {
            proof {
                assert(!is_digit(digits[i - 1]));
                lemma_not_a_session_id(text@);
            }
            return None;
        }
        let digit = (byte - DIGIT_ZERO) as usize;
        assert(digit == digit_value(digits[i - 1]));
        if value > (usize::MAX - digit) / 10 {
            proof {
                assert(decimal_value(seen) > usize::MAX);
                lemma_decimal_value_grows(digits, i as int);
                assert forall|n: nat| n <= usize::MAX implies text@ != #[trigger] session_id_text(
                    n,
                ) by {
                    lemma_session_id_body(n);
                }
            }
            return None;
        }
        value = value * 10 + digit;
        i = i + 1;
    }
    proof {
        assert(digits.subrange(0, len - 1) =~= digits);
        assert(digits[0] == text@[1]);
        lemma_numeral_is_decimal_text(digits);
        assert(text@ =~= seq!['S'] + digits);
    }
    Some(value)
}

/// Reading back the numeral of `n` gives `n`.
pub proof fn lemma_decimal_text_is_numeral(n: nat)
    ensures
        is_numeral(decimal_text(n)),
        decimal_value(decimal_text(n)) == n,
    decreases n,
{
    let text = decimal_text(n);
    if n < 10 {
        assert(text.drop_last() =~= Seq::<char>::empty());
        assert(decimal_value(text.drop_last()) == 0);
    } else {
        let head = decimal_text(n / 10);
        lemma_decimal_text_is_numeral(n / 10);
        assert(text.drop_last() =~= head);
        assert(text[0] == head[0]);
        if head[0] == '0' {
            assert(head.drop_last() =~= Seq::<char>::empty());
            assert(decimal_value(head.drop_last()) == 0);
        }
        assert forall|i: int| 0 <= i < text.len() implies is_digit(#[trigger] text[i]) by {
            if i < head.len() {
                assert(text[i] == head[i]);
            }
        }
    }
}

/// Writing out the number that a numeral denotes gives the numeral back.
pub proof fn lemma_numeral_is_decimal_text(digits: Seq<char>)
    requires
        is_numeral(digits),
    ensures
        decimal_text(decimal_value(digits)) == digits,
        digits[0] != '0' ==> decimal_value(digits) >= 1,
    decreases digits.len(),
{
    let head = digits.drop_last();
    if digits.len() == 1 {
        assert(head =~= Seq::<char>::empty());
        assert(decimal_value(head) == 0);
        assert(decimal_text(decimal_value(digits)) =~= digits);
    } else {
        assert(head[0] == digits[0]);
        assert forall|i: int| 0 <= i < head.len() implies is_digit(#[trigger] head[i]) by {
            assert(head[i] == digits[i]);
        }
        lemma_numeral_is_decimal_text(head);
        let value = decimal_value(digits);
        assert(value == decimal_value(head) * 10 + digit_value(digits.last()));
        assert(is_digit(digits[digits.len() - 1]));
        assert(value / 10 == decimal_value(head));
        assert(value % 10 == digit_value(digits.last()));
        assert(decimal_text(value) =~= digits);
    }
}

/// A longer run of digits denotes no smaller a number than its beginning.
pub proof fn lemma_decimal_value_grows(digits: Seq<char>, k: int)
    requires
        0 <= k <= digits.len(),
    ensures
        decimal_value(digits.subrange(0, k)) <= decimal_value(digits),
    decreases digits.len(),
{
    if k == digits.len() {
        assert(digits.subrange(0, k) =~= digits);
    } else {
        lemma_decimal_value_grows(digits.drop_last(), k);
        assert(digits.drop_last().subrange(0, k) =~= digits.subrange(0, k));
    }
}

/// Two sessions with different numbers have different ids.
pub proof fn lemma_session_id_text_injective(a: nat, b: nat)
    ensures
        session_id_text(a) == session_id_text(b) <==> a == b,
{
    if session_id_text(a) == session_id_text(b) {
        lemma_session_id_body(a);
        lemma_session_id_body(b);
        lemma_decimal_text_is_numeral(a);
        lemma_decimal_text_is_numeral(b);
    }
}

/// What follows the leading `S` of an id is the numeral of its number.
pub proof fn lemma_session_id_body(serial: nat)
    ensures
        session_serial(session_id_text(serial)) == serial,
        is_numeral(decimal_text(serial)),
        session_id_text(serial).len() == 1 + decimal_text(serial).len(),
        session_id_text(serial)[0] == 'S',
        session_id_text(serial).subrange(1, session_id_text(serial).len() as int) == decimal_text(
            serial,
        ),
{
    let id = session_id_text(serial);
    assert(id.subrange(1, id.len() as int) =~= decimal_text(serial));
    lemma_decimal_text_is_numeral(serial);
}

/// A text that is not `S` followed by a numeral is the id of no session.
pub proof fn lemma_not_a_session_id(text: Seq<char>)
    requires
        text.len() < 2 || text[0] != 'S' || !is_numeral(text.subrange(1, text.len() as int)),
    ensures
        forall|n: nat| text != #[trigger] session_id_text(n),
{
    assert forall|n: nat| text != #[trigger] session_id_text(n) by {
        lemma_session_id_body(n);
    }
}

/// Ids are made of ASCII characters only.
pub proof fn lemma_session_id_is_ascii(serial: nat)
    ensures
        is_ascii_chars(session_id_text(serial)),
{
    lemma_decimal_text_is_numeral(serial);
    let id = session_id_text(serial);
    let body = decimal_text(serial);
    assert forall|i: int| 0 <= i < id.len() implies '\0' <= #[trigger] id[i] <= '\u{7f}' by {
        if i >= 1 {
            assert(id[i] == body[i - 1]);
            assert(is_digit(body[i - 1]));
        }
    }
}

} // verus!
