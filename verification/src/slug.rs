//! Naming conventions of the exchange: market slugs of the form
//! `{prefix}-updown-15m-{period_timestamp}`, and the reserved `dummy_`
//! condition-id prefix that marks the placeholder market of a disabled
//! asset.

use vstd::prelude::*;
use vstd::string::{StringExecFns, StrSliceExecFns};

verus! {

/// The decimal digit character of `d`.
pub open spec fn spec_digit_char(d: int) -> char {
    if d == 0 {
        '0'
    } else if d == 1 {
        '1'
    } else if d == 2 {
        '2'
    } else if d == 3 {
        '3'
    } else if d == 4 {
        '4'
    } else if d == 5 {
        '5'
    } else if d == 6 {
        '6'
    } else if d == 7 {
        '7'
    } else if d == 8 {
        '8'
    } else {
        '9'
    }
}

/// The decimal rendering of `n`, without leading zeroes (just "0" for zero).
pub open spec fn spec_dec(n: int) -> Seq<char>
    recommends
        n >= 0,
    decreases n,
{
    if n < 10 {
        seq![spec_digit_char(n)]
    } else {
        spec_dec(n / 10).push(spec_digit_char(n % 10))
    }
}

/// The one-character string of the decimal digit `d`.
fn digit_str(d: u64) -> (s: &'static str)
    requires
        d < 10,
    ensures
        s@ == seq![spec_digit_char(d as int)],
{
    let s: &'static str = match d {
        0 => "0",
        1 => "1",
        2 => "2",
        3 => "3",
        4 => "4",
        5 => "5",
        6 => "6",
        7 => "7",
        8 => "8",
        _ => "9",
    };
    proof {
        reveal_strlit("0");
        reveal_strlit("1");
        reveal_strlit("2");
        reveal_strlit("3");
        reveal_strlit("4");
        reveal_strlit("5");
        reveal_strlit("6");
        reveal_strlit("7");
        reveal_strlit("8");
        reveal_strlit("9");
        assert(s@ =~= seq![spec_digit_char(d as int)]);
    }
    s
}

/// Append the decimal rendering of `n` to `out`.
pub fn push_dec(out: &mut String, n: u64)
    ensures
        final(out)@ == old(out)@ + spec_dec(n as int),
    decreases n,
{
    if n >= 10 {
        push_dec(out, n / 10);
        out.append(digit_str(n % 10));
        proof {
            assert(final(out)@ =~= old(out)@ + spec_dec(n as int));
        }
    } else {
        out.append(digit_str(n));
    }
}

/// The slug of the market instance of `prefix` for the period `period`.
pub open spec fn spec_slug(prefix: Seq<char>, period: int) -> Seq<char> {
    prefix + "-updown-15m-"@ + spec_dec(period)
}

/// Build the slug `{prefix}-updown-15m-{period}`.
pub fn slug_for(prefix: &str, period: u64) -> (s: String)
    ensures
        s@ == spec_slug(prefix@, period as int),
{
    let mut s: String = String::from_str(prefix);
    s.append("-updown-15m-");
    push_dec(&mut s, period);
    s
}

/// The reserved prefix of a placeholder condition id.
pub open spec fn dummy_prefix() -> Seq<char> {
    seq!['d', 'u', 'm', 'm', 'y', '_']
}

/// A condition id of a placeholder market of a disabled asset: it starts
/// with `dummy_`. Such markets are never traded and are excluded from the
/// per-market history files.
pub open spec fn spec_is_dummy(id: Seq<char>) -> bool {
    id.len() >= 6 && id.subrange(0, 6) == dummy_prefix()
}

/// Whether `id` is a placeholder condition id (starts with `dummy_`).
pub fn is_dummy_id(id: &str) -> (r: bool)
    ensures
        r == spec_is_dummy(id@),
{
    let n: usize = id.unicode_len();
    if n < 6 {
        return false;
    }
    let r: bool = id.get_char(0) == 'd' && id.get_char(1) == 'u' && id.get_char(2) == 'm'
        && id.get_char(3) == 'm' && id.get_char(4) == 'y' && id.get_char(5) == '_';
    proof {
        if r {
            assert(id@.subrange(0, 6) =~= dummy_prefix());
        } else {
            assert(id@.subrange(0, 6) != dummy_prefix()) by {
                if id@.subrange(0, 6) == dummy_prefix() {
                    assert(id@.subrange(0, 6)[0] == 'd');
                    assert(id@.subrange(0, 6)[1] == 'u');
                    assert(id@.subrange(0, 6)[2] == 'm');
                    assert(id@.subrange(0, 6)[3] == 'm');
                    assert(id@.subrange(0, 6)[4] == 'y');
                    assert(id@.subrange(0, 6)[5] == '_');
                }
            }
        }
    }
    r
}

/// The name of a market's append-only history file:
/// `history/market_{first 16 characters of the condition id}_{period}.toml`.
/// Placeholder (`dummy_`) markets and short condition ids get none.
pub open spec fn spec_market_file_name(id: Seq<char>, period: int) -> Option<Seq<char>> {
    if spec_is_dummy(id) || id.len() < 16 {
        None
    } else {
        Some(
            "history/market_"@ + id.subrange(0, 16) + "_"@ + spec_dec(period) + ".toml"@,
        )
    }
}

/// The per-market history file of a condition id, if the market gets one.
pub fn market_file_name(condition_id: &str, period_timestamp: u64) -> (r: Option<String>)
    ensures
        match r {
            Some(name) => Some(name@) == spec_market_file_name(
                condition_id@,
                period_timestamp as int,
            ),
            None => spec_market_file_name(condition_id@, period_timestamp as int) is None,
        },
{
    if is_dummy_id(condition_id) {
        return None;
    }
    let n: usize = condition_id.unicode_len();
    if n < 16 {
        return None;
    }
    let prefix: &str = condition_id.substring_char(0, 16);
    let mut name: String = String::from_str("history/market_");
    name.append(prefix);
    name.append("_");
    push_dec(&mut name, period_timestamp);
    name.append(".toml");
    proof {
        assert(name@ =~= "history/market_"@ + condition_id@.subrange(0, 16) + "_"@ + spec_dec(
            period_timestamp as int,
        ) + ".toml"@);
    }
    Some(name)
}

} // verus!
