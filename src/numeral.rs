//! Roman numerals, in which Republican years are traditionally written.

use vstd::prelude::*;

verus! {

/// The largest value that a Roman numeral writes.
pub const MAX_NUMERAL_VALUE: u16 = 3_999;

/// Value of the `i`-th symbol of the table of numerals, from the largest down.
pub open spec fn numeral_value(i: int) -> int {
    if i == 0 {
        1000
    } else if i == 1 {
        900
    } else if i == 2 {
        500
    } else if i == 3 {
        400
    } else if i == 4 {
        100
    } else if i == 5 {
        90
    } else if i == 6 {
        50
    } else if i == 7 {
        40
    } else if i == 8 {
        10
    } else if i == 9 {
        9
    } else if i == 10 {
        5
    } else if i == 11 {
        4
    } else {
        1
    }
}

/// Text of the `i`-th symbol of the table of numerals.
pub open spec fn numeral_symbol(i: int) -> Seq<char> {
    if i == 0 {
        "M"@
    } else if i == 1 {
        "CM"@
    } else if i == 2 {
        "D"@
    } else if i == 3 {
        "CD"@
    } else if i == 4 {
        "C"@
    } else if i == 5 {
        "XC"@
    } else if i == 6 {
        "L"@
    } else if i == 7 {
        "XL"@
    } else if i == 8 {
        "X"@
    } else if i == 9 {
        "IX"@
    } else if i == 10 {
        "V"@
    } else if i == 11 {
        "IV"@
    } else {
        "I"@
    }
}

/// `value` written greedily with the symbols from the `i`-th on: the largest
/// symbol that fits, as often as it fits, then the next.
pub open spec fn numeral_from(value: nat, i: nat) -> Seq<char>
    decreases 13 - i, value,
{
    if i >= 13 {
        Seq::empty()
    } else if value >= numeral_value(i as int) {
        numeral_symbol(i as int) + numeral_from((value - numeral_value(i as int)) as nat, i)
    } else {
        numeral_from(value, i + 1)
    }
}

/// The Roman numeral of `value`.
pub open spec fn roman_numeral(value: nat) -> Seq<char> {
    numeral_from(value, 0)
}

fn numeral_entry(i: usize) -> (r: (u16, &'static str))
    requires
        i < 13,
    ensures
        r.0 == numeral_value(i as int),
        r.1@ == numeral_symbol(i as int),
{
    match i {
        0 => (1000, "M"),
        1 => (900, "CM"),
        2 => (500, "D"),
        3 => (400, "CD"),
        4 => (100, "C"),
        5 => (90, "XC"),
        6 => (50, "L"),
        7 => (40, "XL"),
        8 => (10, "X"),
        9 => (9, "IX"),
        10 => (5, "V"),
        11 => (4, "IV"),
        _ => (1, "I"),
    }
}

/// The Roman numeral of `value`, or `None` above `MAX_NUMERAL_VALUE`.
pub fn to_numeral(value: u16) -> (r: Option<String>)
    ensures
        r is Some <==> value <= MAX_NUMERAL_VALUE,
        r is Some ==> r->Some_0@ == roman_numeral(value as nat),
{
    if value > MAX_NUMERAL_VALUE {
        return None;
    }

    let mut s = String::new();
    let mut rest = value;
    let mut i: usize = 0;

    while i < 13
        invariant
            i <= 13,
            s@ + numeral_from(rest as nat, i as nat) == roman_numeral(value as nat),
        decreases 13 - i,
    {
        let (number, numeral) = numeral_entry(i);
        while rest >= number
            invariant
                i < 13,
                number == numeral_value(i as int),
                numeral@ == numeral_symbol(i as int),
                s@ + numeral_from(rest as nat, i as nat) == roman_numeral(value as nat),
            decreases rest,
        {
            let ghost before = s@;
            rest = rest - number;
            s.append(numeral);
            assert(before + (numeral@ + numeral_from(rest as nat, i as nat)) =~= s@ + numeral_from(
                rest as nat,
                i as nat,
            ));
        }
        i += 1;
    }

    Some(s)
}

} // verus!
