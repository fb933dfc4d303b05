//! Decimal numbers and truth values as text, the way peers exchange them.

use vstd::prelude::*;
use vstd::string::StringExecFns;

verus! {

/// The texts that a sequence of strings holds.
pub open spec fn texts(v: Seq<String>) -> Seq<Seq<char>> {
    Seq::new(v.len(), |i: int| v[i]@)
}

/// A copy of a list of strings.
pub fn clone_texts(list: &Vec<String>) -> (copy: Vec<String>)
    ensures
        texts(copy@) == texts(list@),
{
    let mut copy: Vec<String> = Vec::new();
    let mut i: usize = 0;
    while i < list.len()
        invariant
            i <= list.len(),
            copy.len() == i,
            forall|j: int| 0 <= j < i ==> copy@[j]@ == list@[j]@,
        decreases list.len() - i,
    {
        copy.push(list[i].clone());
        i = i + 1;
    }
    assert(texts(copy@) =~= texts(list@));
    copy
}

/// The character of the decimal digit `d`.
pub open spec fn digit_char(d: int) -> char {
    if d == 0 {
        '0'
    } else if d == 1 {
        '1'
    } else if d == 2 {
        '2'
    } else if d == 3 {
        '3'
    } else if d == 4 {
        '4'
    } else if d == 5 {
        '5'
    } else if d == 6 {
        '6'
    } else if d == 7 {
        '7'
    } else if d == 8 {
        '8'
    } else {
        '9'
    }
}

/// Whether `c` is one of the ten decimal digits.
pub open spec fn is_digit(c: char) -> bool {
    '0' <= c && c <= '9'
}

/// The value of the decimal digit `c`.
pub open spec fn digit_value(c: char) -> nat {
    (c as int - '0' as int) as nat
}

/// The decimal notation of `n`, without sign or leading zeros.
pub open spec fn decimal(n: nat) -> Seq<char>
    decreases n,
{
    if n < 10 {
        seq![digit_char(n as int)]
    } else {
        decimal(n / 10).push(digit_char((n % 10) as int))
    }
}

/// The number that a sequence of decimal digits denotes.
pub open spec fn digits_value(s: Seq<char>) -> nat
    decreases s.len(),
{
    if s.len() == 0 {
        0
    } else {
        digits_value(s.drop_last()) * 10 + digit_value(s.last())
    }
}

/// Whether every character of `s` is a decimal digit.
pub open spec fn all_digits(s: Seq<char>) -> bool {
    forall|i: int| 0 <= i < s.len() ==> is_digit(#[trigger] s[i])
}

/// The number that `s` denotes as an unsigned 64-bit decimal: an optional
/// `+`, then at least one digit and nothing else, the value within range.
pub open spec fn parse_decimal(s: Seq<char>) -> Option<u64> {
    let body = if s.len() > 0 && s[0] == '+' {
        s.drop_first()
    } else {
        s
    };
    if body.len() > 0 && all_digits(body) && digits_value(body) <= u64::MAX {
        Some(digits_value(body) as u64)
    } else {
        None
    }
}

fn digit_text(d: u64) -> (text: &'static str)
    requires
        d < 10,
    ensures
        text@ == seq![digit_char(d as int)],
{
    proof {
        reveal_strlit("0");
        reveal_strlit("1");
        reveal_strlit("2");
        reveal_strlit("3");
        reveal_strlit("4");
        reveal_strlit("5");
        reveal_strlit("6");
        reveal_strlit("7");
        reveal_strlit("8");
        reveal_strlit("9");
    }
    let text = if d == 0 {
        "0"
    } else if d == 1 {
        "1"
    } else if d == 2 {
        "2"
    } else if d == 3 {
        "3"
    } else if d == 4 {
        "4"
    } else if d == 5 {
        "5"
    } else if d == 6 {
        "6"
    } else if d == 7 {
        "7"
    } else if d == 8 {
        "8"
    } else {
        "9"
    };
    assert(text@ =~= seq![digit_char(d as int)]);
    text
}

/// Writes `n` in decimal.
pub fn decimal_text(n: u64) -> (text: String)
    ensures
        text@ == decimal(n as nat),
    decreases n,
{
    if n < 10 {
        String::from_str(digit_text(n))
    } else {
        let mut text = decimal_text(n / 10);
        text.append(digit_text(n % 10));
        assert(text@ =~= decimal(n as nat));
        text
    }
}

/// A prefix of a digit sequence denotes no more than the whole sequence.
proof fn lemma_prefix_value(s: Seq<char>, j: int)
    requires
        0 <= j <= s.len(),
    ensures
        digits_value(s.subrange(0, j)) <= digits_value(s),
    decreases s.len(),
{
    if j == s.len() {
        assert(s.subrange(0, j) =~= s);
    } else {
        lemma_prefix_value(s.drop_last(), j);
        assert(s.drop_last().subrange(0, j) =~= s.subrange(0, j));
    }
}

/// Reads an unsigned 64-bit number in decimal notation.
///
/// The text is an optional `+` followed by one or more digits; anything
/// else, and a value that does not fit, gives `None`.
pub fn parse_decimal_text(text: &str) -> (value: Option<u64>)
    ensures
        value == parse_decimal(text@),
{
    let mut acc: u64 = 0;
    let mut seen_digit = false;
    let mut first = true;
    let mut plus = false;
    let ghost mut read: int = 0;
    let ghost body = if text@.len() > 0 && text@[0] == '+' {
        text@.drop_first()
    } else {
        text@
    };
    for c in it: text.chars()
        invariant
            it.seq() == text@,
            read == it.index(),
            body == if text@.len() > 0 && text@[0] == '+' {
                text@.drop_first()
            } else {
                text@
            },
            first <==> it.index() == 0,
            plus <==> (it.index() > 0 && text@[0] == '+'),
            it.index() - (if plus { 1int } else { 0int }) <= body.len(),
            all_digits(body.subrange(0, it.index() - if plus { 1int } else { 0int })),
            acc == digits_value(body.subrange(0, it.index() - if plus { 1int } else { 0int })),
            seen_digit <==> it.index() - (if plus { 1int } else { 0int }) > 0,
    {
        let ghost at = it.index() - if plus { 1int } else { 0int };
        if first && c == '+' {
            plus = true;
            assert(body.subrange(0, 0) =~= Seq::<char>::empty());
        } else if c >= '0' && c <= '9' {
            let d: u64 = (c as u32 - '0' as u32) as u64;
            proof {
                assert(body[at] == c);
                assert(body.subrange(0, at + 1).drop_last() =~= body.subrange(0, at));
                assert(body.subrange(0, at + 1).last() == c);
                lemma_prefix_value(body, at + 1);
            }
            match acc.checked_mul(10) {
                None => {
                    return None;
                },
                Some(tens) => match tens.checked_add(d) {
                    None => {
                        return None;
                    },
                    Some(next) => {
                        acc = next;
                        seen_digit = true;
                    },
                },
            }
        } else {
            assert(body[at] == c);
            assert(!is_digit(body[at]));
            return None;
        }
        first = false;
        proof {
            read = read + 1;
        }
    }
    proof {
        let at = read - if plus { 1int } else { 0int };
        assert(at == body.len());
        assert(body.subrange(0, at) =~= body);
    }
    if seen_digit {
        Some(acc)
    } else {
        None
    }
}

/// The text of a truth value: `true` or `false`.
pub open spec fn bool_text(b: bool) -> Seq<char> {
    if b {
        "true"@
    } else {
        "false"@
    }
}

/// Writes a truth value as `true` or `false`.
pub fn render_bool(b: bool) -> (text: String)
    ensures
        text@ == bool_text(b),
{
    if b {
        String::from_str("true")
    } else {
        String::from_str("false")
    }
}

/// Reads a truth value: exactly `true` or `false`, nothing else.
pub fn parse_bool(text: &str) -> (value: Option<bool>)
    ensures
        value == if text@ == bool_text(true) {
            Some(true)
        } else if text@ == bool_text(false) {
            Some(false)
        } else {
            None
        },
{
    if str_equal(text, "true") {
        Some(true)
    } else if str_equal(text, "false") {
        Some(false)
    } else {
        None
    }
}

/// Whether two texts hold the same characters.
pub fn str_equal(a: &str, b: &str) -> (same: bool)
    ensures
        same == (a@ == b@),
{
    let x = String::from_str(a);
    let y = String::from_str(b);
    x == y
}

} // verus!
