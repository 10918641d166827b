//! Verified construction of the human-readable ruling messages.
//!
//! Each message has a spec-level definition over `Seq<char>` and an
//! executable builder proved to produce exactly that sequence, so contracts
//! elsewhere in the crate can pin the full text of every ruling.

use vstd::prelude::*;
use vstd::string::StringExecFns;

use crate::models::Color;

verus! {

/// The character for the decimal digit `d`.
pub open spec fn digit_char(d: int) -> char
    recommends
        0 <= d <= 9,
{
    if d == 0 {
        '0'
    } else if d == 1 {
        '1'
    } else if d == 2 {
        '2'
    } else if d == 3 {
        '3'
    } else if d == 4 {
        '4'
    } else if d == 5 {
        '5'
    } else if d == 6 {
        '6'
    } else if d == 7 {
        '7'
    } else if d == 8 {
        '8'
    } else {
        '9'
    }
}

/// The decimal representation of `n`, most significant digit first, with no
/// leading zeros (a single `'0'` for zero itself).
pub open spec fn dec_digits(n: int) -> Seq<char>
    recommends
        n >= 0,
    decreases n,
{
    if n <= 9 {
        seq![digit_char(n)]
    } else {
        dec_digits(n / 10).push(digit_char(n % 10))
    }
}

/// Appends the single decimal digit `d` to `s`.
fn append_digit(s: &mut String, d: u64)
    requires
        d <= 9,
    ensures
        final(s)@ == old(s)@ + seq![digit_char(d as int)],
{
    if d == 0 {
        proof {
            reveal_strlit("0");
        }
        s.append("0");
    } else if d == 1 {
        proof {
            reveal_strlit("1");
        }
        s.append("1");
    } else if d == 2 {
        proof {
            reveal_strlit("2");
        }
        s.append("2");
    } else if d == 3 {
        proof {
            reveal_strlit("3");
        }
        s.append("3");
    } else if d == 4 {
        proof {
            reveal_strlit("4");
        }
        s.append("4");
    } else if d == 5 {
        proof {
            reveal_strlit("5");
        }
        s.append("5");
    } else if d == 6 {
        proof {
            reveal_strlit("6");
        }
        s.append("6");
    } else if d == 7 {
        proof {
            reveal_strlit("7");
        }
        s.append("7");
    } else if d == 8 {
        proof {
            reveal_strlit("8");
        }
        s.append("8");
    } else {
        proof {
            reveal_strlit("9");
        }
        s.append("9");
    }
    proof {
        assert(final(s)@ =~= old(s)@ + seq![digit_char(d as int)]);
    }
}

/// Appends the decimal representation of `n` to `s`.
pub fn append_decimal(s: &mut String, n: u64)
    ensures
        final(s)@ == old(s)@ + dec_digits(n as int),
    decreases n,
{
    if n > 9 {
        append_decimal(s, n / 10);
    }
    append_digit(s, n % 10);
    proof {
        if n > 9 {
            assert(final(s)@ =~= old(s)@ + dec_digits(n as int));
        }
    }
}

/// The message reported when two legendary permanents share a name and a
/// controller.
pub open spec fn legend_rule_msg(name: Seq<char>, controller: Seq<char>) -> Seq<char> {
    "Legend Rule Violation: Two instances of '"@ + name + "' controlled by '"@ + controller + "'"@
}

/// Builds `legend_rule_msg(name@, controller@)`.
pub fn make_legend_rule_msg(name: &str, controller: &str) -> (r: String)
    ensures
        r@ == legend_rule_msg(name@, controller@),
{
    let mut s = String::from_str("Legend Rule Violation: Two instances of '");
    s.append(name);
    s.append("' controlled by '");
    s.append(controller);
    s.append("'");
    proof {
        assert(s@ =~= legend_rule_msg(name@, controller@));
    }
    s
}

/// The message reported when a card played as a land has no Land type.
pub open spec fn not_a_land_msg(name: Seq<char>) -> Seq<char> {
    name + " is not a Land."@
}

/// Builds `not_a_land_msg(name@)`.
pub fn make_not_a_land_msg(name: &str) -> (r: String)
    ensures
        r@ == not_a_land_msg(name@),
{
    let mut s = String::from_str(name);
    s.append(" is not a Land.");
    s
}

/// The parse error for a cost symbol that is neither a recognized letter nor
/// a non-negative integer.
pub open spec fn unknown_symbol_msg(symbol: Seq<char>) -> Seq<char> {
    "Unknown symbol '"@ + symbol + "'"@
}

/// Builds `unknown_symbol_msg(symbol@)`.
pub fn make_unknown_symbol_msg(symbol: &str) -> (r: String)
    ensures
        r@ == unknown_symbol_msg(symbol@),
{
    let mut s = String::from_str("Unknown symbol '");
    s.append(symbol);
    s.append("'");
    proof {
        assert(s@ =~= unknown_symbol_msg(symbol@));
    }
    s
}

/// The ruling message that wraps a cost parse error.
pub open spec fn invalid_cost_msg(e: Seq<char>) -> Seq<char> {
    "Invalid Mana Cost: "@ + e
}

/// Builds `invalid_cost_msg(e@)`.
pub fn make_invalid_cost_msg(e: &str) -> (r: String)
    ensures
        r@ == invalid_cost_msg(e@),
{
    let mut s = String::from_str("Invalid Mana Cost: ");
    s.append(e);
    s
}

/// The message reported when the pool left after colored payment cannot
/// cover the generic part of a cost: `need` is the generic amount owed,
/// `have` the total mana remaining.
pub open spec fn generic_short_msg(need: int, have: int) -> Seq<char> {
    "Not enough generic mana. Need "@ + dec_digits(need) + ", have "@ + dec_digits(have) + "."@
}

/// Builds `generic_short_msg(need as int, have as int)`.
pub fn make_generic_short_msg(need: u64, have: u64) -> (r: String)
    ensures
        r@ == generic_short_msg(need as int, have as int),
{
    let mut s = String::from_str("Not enough generic mana. Need ");
    append_decimal(&mut s, need);
    s.append(", have ");
    append_decimal(&mut s, have);
    s.append(".");
    proof {
        assert(s@ =~= generic_short_msg(need as int, have as int));
    }
    s
}

/// The identity given to the `n`-th permanent the engine creates. Removal of
/// permanents is outside this engine's scope, so the battlefield only grows
/// under it and the battlefield's size is a fresh serial number.
pub open spec fn perm_id_msg(n: int) -> Seq<char> {
    "perm-"@ + dec_digits(n)
}

/// Builds `perm_id_msg(n as int)`.
pub fn make_perm_id(n: u64) -> (r: String)
    ensures
        r@ == perm_id_msg(n as int),
{
    let mut s = String::from_str("perm-");
    append_decimal(&mut s, n);
    s
}

/// The message reported when the pool is short of one colored requirement;
/// fixed text per color.
pub open spec fn color_short_msg(c: Color) -> Seq<char> {
    match c {
        Color::White => "Not enough White mana."@,
        Color::Blue => "Not enough Blue mana."@,
        Color::Black => "Not enough Black mana."@,
        Color::Red => "Not enough Red mana."@,
        Color::Green => "Not enough Green mana."@,
        Color::Colorless => "Not enough Colorless mana."@,
    }
}

/// Builds `color_short_msg(c)`.
pub fn make_color_short_msg(c: Color) -> (r: String)
    ensures
        r@ == color_short_msg(c),
{
    match c {
        Color::White => String::from_str("Not enough White mana."),
        Color::Blue => String::from_str("Not enough Blue mana."),
        Color::Black => String::from_str("Not enough Black mana."),
        Color::Red => String::from_str("Not enough Red mana."),
        Color::Green => String::from_str("Not enough Green mana."),
        Color::Colorless => String::from_str("Not enough Colorless mana."),
    }
}

} // verus!
