//! Hexadecimal text for 32-bit map ids: parsing the id segment of a path or
//! the id field of a record, and printing an id for an upstream URL.

use vstd::prelude::*;
use vstd::string::*;

verus! {

/// The value of one hexadecimal digit, in either case.
pub open spec fn hex_digit_value(c: char) -> Option<nat> {
    if '0' <= c && c <= '9' {
        Some((c as nat - '0' as nat) as nat)
    } else if 'a' <= c && c <= 'f' {
        Some((c as nat - 'a' as nat + 10) as nat)
    } else if 'A' <= c && c <= 'F' {
        Some((c as nat - 'A' as nat + 10) as nat)
    } else {
        None
    }
}

/// The number that a run of hexadecimal digits denotes, most significant
/// digit first; `None` as soon as one character is no digit.
pub open spec fn hex_digits_value(digits: Seq<char>) -> Option<nat>
    decreases digits.len(),
{
    if digits.len() == 0 {
        Some(0)
    } else {
        match (hex_digits_value(digits.drop_last()), hex_digit_value(digits.last())) {
            (Some(high), Some(low)) => Some(16 * high + low),
            _ => None,
        }
    }
}

/// The text without one leading plus sign, if it has one.
pub open spec fn unsigned_part(text: Seq<char>) -> Seq<char> {
    if text.len() > 0 && text[0] == '+' {
        text.skip(1)
    } else {
        text
    }
}

/// What a text means as a hexadecimal 32-bit id: an optional plus sign, then
/// at least one digit, denoting a number that fits in 32 bits.
pub open spec fn parse_hex_u32(text: Seq<char>) -> Option<u32> {
    let digits = unsigned_part(text);
    if digits.len() == 0 {
        None
    } else {
        match hex_digits_value(digits) {
            Some(value) => if value <= u32::MAX {
                Some(value as u32)
            } else {
                None
            },
            None => None,
        }
    }
}

/// The lower-case digit for a value below sixteen.
pub open spec fn hex_char(digit: nat) -> char {
    if digit < 10 {
        (digit + '0' as nat) as char
    } else {
        (digit - 10 + 'a' as nat) as char
    }
}

/// The shortest lower-case hexadecimal text of a number.
pub open spec fn hex_text(value: nat) -> Seq<char>
    decreases value,
{
    if value < 16 {
        seq![hex_char(value)]
    } else {
        hex_text(value / 16).push(hex_char(value % 16))
    }
}

fn digit_of(c: char) -> (digit: Option<u8>)
    ensures
        match digit {
            Some(d) => hex_digit_value(c) == Some(d as nat) && d < 16,
            None => hex_digit_value(c) is None,
        },
{
    if '0' <= c && c <= '9' {
        Some((c as u32 - '0' as u32) as u8)
    } else if 'a' <= c && c <= 'f' {
        Some((c as u32 - 'a' as u32 + 10) as u8)
    } else if 'A' <= c && c <= 'F' {
        Some((c as u32 - 'A' as u32 + 10) as u8)
    } else {
        None
    }
}

/// A longer run of digits never denotes less than its beginning does, and is
/// no run of digits if its beginning is none.
proof fn lemma_prefix_bounds(digits: Seq<char>, n: int)
    requires
        0 <= n <= digits.len(),
    ensures
        hex_digits_value(digits.take(n)) is None ==> hex_digits_value(digits) is None,
        match (hex_digits_value(digits.take(n)), hex_digits_value(digits)) {
            (Some(part), Some(whole)) => part <= whole,
            _ => true,
        },
    decreases digits.len() - n,
{
    if n == digits.len() {
        assert(digits.take(n) =~= digits);
    } else {
        lemma_prefix_bounds(digits, n + 1);
        assert(digits.take(n + 1).drop_last() =~= digits.take(n));
    }
}

/// Parses a hexadecimal 32-bit id.
pub fn parse_hex(text: &str) -> (id: Option<u32>)
    ensures
        id == parse_hex_u32(text@),
{
    let mut value: u64 = 0;
    let mut signed = false;
    let mut first = true;
    let mut any = false;
    for c in it: text.chars()
        invariant
            it.seq() == text@,
            first <==> it.index() == 0,
            signed <==> it.index() > 0 && text@[0] == '+',
            any <==> it.index() > (if signed { 1int } else { 0int }),
            hex_digits_value(
                text@.subrange(if signed { 1int } else { 0int }, if first { 0int } else { it.index() as int }),
            ) == Some(value as nat),
            value <= u32::MAX,
    {
        if first && c == '+' {
            signed = true;
        } else {
            let ghost start: int = if signed { 1 } else { 0 };
            let ghost at: int = it.index() as int;
            proof {
                let digits = unsigned_part(text@);
                assert(digits.take(at - start + 1) =~= text@.subrange(start, at + 1));
                assert(text@.subrange(start, at + 1).drop_last() =~= text@.subrange(start, at));
                lemma_prefix_bounds(digits, at - start + 1);
            }
            match digit_of(c) {
                Some(d) => {
                    value = value * 16 + d as u64;
                    if value > 0xffff_ffff {
                        return None;
                    }
                    any = true;
                },
                None => {
                    return None;
                },
            }
        }
        first = false;
    }
    proof {
        let start: int = if signed { 1 } else { 0 };
        let digits = unsigned_part(text@);
        if any {
            assert(text@.subrange(start, text@.len() as int) =~= digits);
        }
    }
    if any {
        Some(value as u32)
    } else {
        None
    }
}

fn digit_text(digit: u8) -> (text: &'static str)
    requires
        digit < 16,
    ensures
        text@ =~= seq![hex_char(digit as nat)],
{
    match digit {
        0 => {
            proof {
                reveal_strlit("0");
            }
            "0"
        },
        1 => {
            proof {
                reveal_strlit("1");
            }
            "1"
        },
        2 => {
            proof {
                reveal_strlit("2");
            }
            "2"
        },
        3 => {
            proof {
                reveal_strlit("3");
            }
            "3"
        },
        4 => {
            proof {
                reveal_strlit("4");
            }
            "4"
        },
        5 => {
            proof {
                reveal_strlit("5");
            }
            "5"
        },
        6 => {
            proof {
                reveal_strlit("6");
            }
            "6"
        },
        7 => {
            proof {
                reveal_strlit("7");
            }
            "7"
        },
        8 => {
            proof {
                reveal_strlit("8");
            }
            "8"
        },
        9 => {
            proof {
                reveal_strlit("9");
            }
            "9"
        },
        10 => {
            proof {
                reveal_strlit("a");
            }
            "a"
        },
        11 => {
            proof {
                reveal_strlit("b");
            }
            "b"
        },
        12 => {
            proof {
                reveal_strlit("c");
            }
            "c"
        },
        13 => {
            proof {
                reveal_strlit("d");
            }
            "d"
        },
        14 => {
            proof {
                reveal_strlit("e");
            }
            "e"
        },
        _ => {
            proof {
                reveal_strlit("f");
            }
            "f"
        },
    }
}

/// Prints an id as the shortest lower-case hexadecimal text.
pub fn format_hex(id: u32) -> (text: String)
    ensures
        text@ == hex_text(id as nat),
{
    let wide: u64 = id as u64;
    let mut text = String::new();
    let mut started = false;
    let mut shift: u64 = 32;
    assert(wide >> 32 == 0) by (bit_vector)
        requires
            wide <= 0xffff_ffff,
    ;
    while shift > 0
        invariant
            shift <= 32,
            shift % 4 == 0,
            wide == id,
            shift == 0 ==> started,
            !started ==> text@.len() == 0 && wide >> shift == 0,
            started ==> text@ == hex_text((wide >> shift) as nat) && (wide >> shift > 0 || shift
                == 0),
        decreases shift,
    {
        let ghost above: u64 = wide >> shift;
        shift = shift - 4;
        let top: u64 = wide >> shift;
        assert(top / 16 == above && top % 16 == top & 0xf && top & 0xf < 16) by (bit_vector)
            requires
                shift <= 28,
                top == wide >> shift,
                above == wide >> ((shift + 4) as u64),
        ;
        let digit: u8 = (top & 0xf) as u8;
        if started || digit != 0 || shift == 0 {
            text.append(digit_text(digit));
            started = true;
        }
    }
    assert(wide >> 0 == wide) by (bit_vector);
    text
}

proof fn lemma_digit_round_trip(digit: nat)
    requires
        digit < 16,
    ensures
        hex_digit_value(hex_char(digit)) == Some(digit),
        hex_char(digit) != '+',
{
}

proof fn lemma_text_value(value: nat)
    ensures
        hex_digits_value(hex_text(value)) == Some(value),
        hex_text(value).len() > 0,
        hex_text(value)[0] != '+',
    decreases value,
{
    if value < 16 {
        lemma_digit_round_trip(value);
        let text = hex_text(value);
        assert(hex_digits_value(text.drop_last()) == Some(0nat));
    } else {
        lemma_text_value(value / 16);
        lemma_digit_round_trip(value % 16);
        let text = hex_text(value);
        assert(text.drop_last() =~= hex_text(value / 16));
    }
}

/// Printing an id and parsing the text gives the id back.
pub proof fn lemma_parse_inverts_format(id: u32)
    ensures
        parse_hex_u32(hex_text(id as nat)) == Some(id),
{
    lemma_text_value(id as nat);
}

} // verus!
