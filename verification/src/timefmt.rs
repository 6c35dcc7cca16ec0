use vstd::prelude::*;

use crate::color::no_esc;
use vstd::string::StringExecFns;

verus! {

pub const NANOS_PER_HOUR: u64 = 3_600_000_000_000;

pub const NANOS_PER_MINUTE: u64 = 60_000_000_000;

pub const NANOS_PER_SECOND: u64 = 1_000_000_000;

pub const NANOS_PER_MICRO: u64 = 1_000;

pub const MICROS_PER_SECOND: u64 = 1_000_000;

pub const SECONDS_PER_HOUR: u64 = 3_600;

/// The character for one decimal digit.
pub open spec fn digit_char(d: nat) -> char {
    if d == 0 {
        '0'
    } else if d == 1 {
        '1'
    } else if d == 2 {
        '2'
    } else if d == 3 {
        '3'
    } else if d == 4 {
        '4'
    } else if d == 5 {
        '5'
    } else if d == 6 {
        '6'
    } else if d == 7 {
        '7'
    } else if d == 8 {
        '8'
    } else {
        '9'
    }
}

/// The decimal rendering of `n`, most significant digit first, no leading
/// zeroes (a lone zero for 0).
pub open spec fn dec_spec(n: nat) -> Seq<char>
    decreases n,
{
    if n < 10 {
        seq![digit_char(n)]
    } else {
        dec_spec(n / 10).push(digit_char(n % 10))
    }
}

/// The decimal rendering of `n` left-padded with zeroes to at least two
/// digits.
pub open spec fn padded2_spec(n: nat) -> Seq<char> {
    if n < 10 {
        seq!['0'] + dec_spec(n)
    } else {
        dec_spec(n)
    }
}

/// The decimal rendering of `n` left-padded with zeroes to at least six
/// digits.
pub open spec fn padded6_spec(n: nat) -> Seq<char> {
    if n < 10 {
        seq!['0', '0', '0', '0', '0'] + dec_spec(n)
    } else if n < 100 {
        seq!['0', '0', '0', '0'] + dec_spec(n)
    } else if n < 1000 {
        seq!['0', '0', '0'] + dec_spec(n)
    } else if n < 10000 {
        seq!['0', '0'] + dec_spec(n)
    } else if n < 100000 {
        seq!['0'] + dec_spec(n)
    } else {
        dec_spec(n)
    }
}

/// The relative timestamp prefix for an elapsed duration of `d` nanoseconds:
/// `HH:MM:SS.ssssss` by truncating conversion, where the hour and minute
/// counts are whole units of the full duration (not wrapped at 24 or 60),
/// the second count restarts with each whole hour, and the final field is
/// the microseconds within the current second.
pub open spec fn relative_spec(d: nat) -> Seq<char> {
    padded2_spec(d / (NANOS_PER_HOUR as nat)) + seq![':'] + padded2_spec(
        d / (NANOS_PER_MINUTE as nat),
    ) + seq![':'] + padded2_spec((d / (NANOS_PER_SECOND as nat)) % (SECONDS_PER_HOUR as nat))
        + seq!['.'] + padded6_spec((d / (NANOS_PER_MICRO as nat)) % (MICROS_PER_SECOND as nat))
}

/// Append the character for one decimal digit.
fn push_digit(s: &mut String, d: u64)
    requires
        d < 10,
    ensures
        final(s)@ == old(s)@ + seq![digit_char(d as nat)],
{
    proof {
        reveal_strlit("0");
        reveal_strlit("1");
        reveal_strlit("2");
        reveal_strlit("3");
        reveal_strlit("4");
        reveal_strlit("5");
        reveal_strlit("6");
        reveal_strlit("7");
        reveal_strlit("8");
        reveal_strlit("9");
    }
    match d {
        0 => s.append("0"),
        1 => s.append("1"),
        2 => s.append("2"),
        3 => s.append("3"),
        4 => s.append("4"),
        5 => s.append("5"),
        6 => s.append("6"),
        7 => s.append("7"),
        8 => s.append("8"),
        _ => s.append("9"),
    }
    proof {
        assert(final(s)@ =~= old(s)@ + seq![digit_char(d as nat)]);
    }
}

/// Append the decimal rendering of `n`.
fn push_decimal(s: &mut String, n: u64)
    ensures
        final(s)@ == old(s)@ + dec_spec(n as nat),
    decreases n,
{
    if n >= 10 {
        push_decimal(s, n / 10);
        push_digit(s, n % 10);
        proof {
            assert(final(s)@ =~= old(s)@ + dec_spec(n as nat));
        }
    } else {
        push_digit(s, n);
    }
}

/// Append the decimal rendering of `n`, zero-padded to at least two digits.
fn push_padded2(s: &mut String, n: u64)
    ensures
        final(s)@ == old(s)@ + padded2_spec(n as nat),
{
    if n < 10 {
        push_digit(s, 0);
    }
    push_decimal(s, n);
    proof {
        assert(final(s)@ =~= old(s)@ + padded2_spec(n as nat));
    }
}

/// Append the decimal rendering of `n`, zero-padded to at least six digits.
fn push_padded6(s: &mut String, n: u64)
    ensures
        final(s)@ == old(s)@ + padded6_spec(n as nat),
{
    let zeroes: u64 = if n < 10 {
        5
    } else if n < 100 {
        4
    } else if n < 1000 {
        3
    } else if n < 10000 {
        2
    } else if n < 100000 {
        1
    } else {
        0
    };
    let mut i: u64 = 0;
    while i < zeroes
        invariant
            i <= zeroes,
            zeroes <= 5,
            s@ == old(s)@ + Seq::new(i as nat, |j: int| '0'),
        decreases zeroes - i,
    {
        push_digit(s, 0);
        proof {
            assert(s@ =~= old(s)@ + Seq::new((i + 1) as nat, |j: int| '0'));
        }
        i = i + 1;
    }
    push_decimal(s, n);
    proof {
        assert(Seq::new(5nat, |j: int| '0') =~= seq!['0', '0', '0', '0', '0']);
        assert(Seq::new(4nat, |j: int| '0') =~= seq!['0', '0', '0', '0']);
        assert(Seq::new(3nat, |j: int| '0') =~= seq!['0', '0', '0']);
        assert(Seq::new(2nat, |j: int| '0') =~= seq!['0', '0']);
        assert(Seq::new(1nat, |j: int| '0') =~= seq!['0']);
        assert(Seq::new(0nat, |j: int| '0') =~= Seq::<char>::empty());
        assert(final(s)@ =~= old(s)@ + padded6_spec(n as nat));
    }
}

/// Render an elapsed duration of `duration_nanos` nanoseconds as the
/// relative timestamp prefix `HH:MM:SS.ssssss` (truncating, non-calendar:
/// hours and minutes count whole units of the full duration).
pub fn format_relative(duration_nanos: u64) -> (r: String)
    ensures
        r@ == relative_spec(duration_nanos as nat),
{
    proof {
        reveal_strlit(":");
        reveal_strlit(".");
    }
    let mut s = String::new();
    push_padded2(&mut s, duration_nanos / NANOS_PER_HOUR);
    s.append(":");
    push_padded2(&mut s, duration_nanos / NANOS_PER_MINUTE);
    s.append(":");
    push_padded2(&mut s, (duration_nanos / NANOS_PER_SECOND) % SECONDS_PER_HOUR);
    s.append(".");
    push_padded6(&mut s, (duration_nanos / NANOS_PER_MICRO) % MICROS_PER_SECOND);
    proof {
        assert(s@ =~= relative_spec(duration_nanos as nat));
    }
    s
}

/// The fixed human-readable calendar rendering of the instant `nanos`
/// nanoseconds after the Unix epoch, as the `time` crate displays it.
pub uninterp spec fn absolute_display_of(nanos: u64) -> Seq<char>;

/// Render a capture instant in the fixed calendar form.
///
/// Relies on `time::UtcDateTime::from_unix_timestamp_nanos`, which succeeds
/// for every `u64` nanosecond count (the largest lies far inside the
/// supported year range), and on `UtcDateTime`'s `Display`, which renders
/// the instant in a fixed calendar form computed from the instant alone,
/// in ASCII text that holds no escape character.
#[verifier::external_body]
pub fn format_absolute(nanos: u64) -> (r: String)
    ensures
        r@ == absolute_display_of(nanos),
        no_esc(r@),
{
    let instant = time::UtcDateTime::from_unix_timestamp_nanos(nanos as i128).expect(
        "every u64 nanosecond count is a valid timestamp",
    );
    instant.to_string()
}

/// No decimal digit is the escape character.
proof fn lemma_dec_spec_no_esc(n: nat)
    ensures
        no_esc(dec_spec(n)),
    decreases n,
{
    if n >= 10 {
        lemma_dec_spec_no_esc(n / 10);
    }
}

/// A relative timestamp prefix holds no escape character, so colorizing it
/// wraps exactly the rendered digits.
pub proof fn lemma_relative_no_esc(d: nat)
    ensures
        no_esc(relative_spec(d)),
{
    lemma_dec_spec_no_esc(d / (NANOS_PER_HOUR as nat));
    lemma_dec_spec_no_esc(d / (NANOS_PER_MINUTE as nat));
    lemma_dec_spec_no_esc((d / (NANOS_PER_SECOND as nat)) % (SECONDS_PER_HOUR as nat));
    lemma_dec_spec_no_esc((d / (NANOS_PER_MICRO as nat)) % (MICROS_PER_SECOND as nat));
}

} // verus!
