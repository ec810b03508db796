//! Text helpers stated over the characters of a string.

use vstd::prelude::*;

verus! {

/// The characters of `value`, in order.
pub fn characters(value: &str) -> (result: Vec<char>)
    ensures
        result@ == value@,
{
    let mut result: Vec<char> = Vec::new();
    for character in iter: value.chars()
        invariant
            iter.seq() == value@,
            result@ == value@.take(iter.index() as int),
    {
        result.push(character);
        assert(value@.take(iter.index() + 1) =~= value@.take(iter.index() as int).push(
            value@[iter.index() as int],
        ));
    }
    assert(value@.take(value@.len() as int) =~= value@);
    result
}

/// Whether both strings hold the same characters.
pub fn same(left: &str, right: &str) -> (result: bool)
    ensures
        result == (left@ == right@),
{
    left.to_owned() == right.to_owned()
}

/// Whether `needle` occurs in `haystack`.
pub fn contains(haystack: &str, needle: char) -> (result: bool)
    ensures
        result == haystack@.contains(needle),
{
    let symbols: Vec<char> = characters(haystack);
    for index in 0..symbols.len()
        invariant
            symbols@ == haystack@,
            forall|k: int| 0 <= k < index ==> haystack@[k] != needle,
    {
        if symbols[index] == needle {
            assert(haystack@[index as int] == needle);
            return true;
        }
    }
    false
}

/// The decimal numeral of `value`, without leading zeros.
pub open spec fn decimal(value: nat) -> Seq<char>
    decreases value,
{
    let digit = ('0' as u32 + value % 10) as char;
    if value < 10 {
        seq![digit]
    } else {
        decimal(value / 10).push(digit)
    }
}

/// The one-character numeral of a digit.
fn digit_text(digit: usize) -> (result: &'static str)
    requires
        digit < 10,
    ensures
        result@ == seq![('0' as u32 + digit) as char],
{
    proof {
        reveal_strlit("0");
        reveal_strlit("1");
        reveal_strlit("2");
        reveal_strlit("3");
        reveal_strlit("4");
        reveal_strlit("5");
        reveal_strlit("6");
        reveal_strlit("7");
        reveal_strlit("8");
        reveal_strlit("9");
    }
    let result: &'static str = match digit {
        0 => "0",
        1 => "1",
        2 => "2",
        3 => "3",
        4 => "4",
        5 => "5",
        6 => "6",
        7 => "7",
        8 => "8",
        _ => "9",
    };
    assert(result@ =~= seq![('0' as u32 + digit) as char]);
    result
}

/// Writes `value` in decimal.
pub fn decimal_text(value: usize) -> (result: String)
    ensures
        result@ == decimal(value as nat),
    decreases value,
{
    if value < 10 {
        digit_text(value).to_owned()
    } else {
        let mut result: String = decimal_text(value / 10);
        result.append(digit_text(value % 10));
        assert(result@ =~= decimal((value / 10) as nat).push(
            ('0' as u32 + value % 10) as char,
        ));
        result
    }
}

/// The number that a decimal numeral stands for.
pub open spec fn numeral_value(numeral: Seq<char>) -> int
    decreases numeral.len(),
{
    if numeral.len() == 0 {
        0
    } else {
        10 * numeral_value(numeral.drop_last()) + (numeral.last() as int - '0' as int)
    }
}

/// A decimal numeral is made of digits, stands for its number and begins with a zero
/// only if it is nothing else.
pub proof fn law_numerals_stand_for_their_number(value: nat)
    ensures
        numeral_value(decimal(value)) == value,
        decimal(value).len() > 0,
        forall|index: int|
            0 <= index < decimal(value).len() ==> '0' <= #[trigger] decimal(value)[index] <= '9',
        decimal(value)[0] == '0' ==> value == 0 && decimal(value).len() == 1,
    decreases value,
{
    let digit = ('0' as u32 + value % 10) as char;
    if value < 10 {
        assert(decimal(value).drop_last() =~= Seq::<char>::empty());
        assert(decimal(value).last() == digit);
        assert(numeral_value(Seq::<char>::empty()) == 0);
    } else {
        law_numerals_stand_for_their_number(value / 10);
        assert(decimal(value).drop_last() =~= decimal(value / 10));
        assert(decimal(value)[0] == decimal(value / 10)[0]);
    }
}

} // verus!
