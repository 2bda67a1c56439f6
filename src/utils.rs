use vstd::prelude::*;

verus! {

/// The character for a decimal digit `d < 10`.
pub open spec fn digit_char(d: nat) -> char {
    seq!['0', '1', '2', '3', '4', '5', '6', '7', '8', '9'][d as int]
}

/// Plain base-ten digits of `n`: no sign, no leading zeros, no grouping.
pub open spec fn decimal(n: nat) -> Seq<char>
    decreases n,
{
    if n < 10 {
        seq![digit_char(n)]
    } else {
        decimal(n / 10).push(digit_char(n % 10))
    }
}

/// The text of a duration of `secs` seconds and `subsec_nanos` nanoseconds:
/// whole seconds and milliseconds when at least a second, else milliseconds
/// and microseconds when at least a millisecond, else microseconds and
/// nanoseconds. The fractional part is written without zero padding.
pub open spec fn duration_text(secs: nat, subsec_nanos: nat) -> Seq<char> {
    let millis = subsec_nanos / 1_000_000;
    let micros = (subsec_nanos / 1000) % 1000;
    let nanos = subsec_nanos % 1000;
    if secs > 0 {
        decimal(secs) + seq!['.'] + decimal(millis) + seq![' ', 's']
    } else if millis > 0 {
        decimal(millis) + seq!['.'] + decimal(micros) + seq![' ', 'm', 's']
    } else {
        decimal(micros) + seq!['.'] + decimal(nanos) + seq![' ', 'μ', 's']
    }
}

/// Relies on `u64`'s `Display` impl, reached through `ToString::to_string`:
/// it writes the plain base-ten digits of the value.
#[verifier::external_body]
pub(crate) fn decimal_string(n: u64) -> (r: String)
    ensures
        r@ == decimal(n as nat),
{
    n.to_string()
}

/// Formats an elapsed time of `secs` seconds plus `subsec_nanos` nanoseconds
/// with an adaptive unit (`s`, `ms` or `μs`).
pub fn format_duration(secs: u64, subsec_nanos: u32) -> (r: String)
    requires
        subsec_nanos < 1_000_000_000,
    ensures
        r@ == duration_text(secs as nat, subsec_nanos as nat),
{
    let millis: u32 = subsec_nanos / 1_000_000;
    let micros: u32 = (subsec_nanos / 1000) % 1000;
    let nanos: u32 = subsec_nanos % 1000;
    proof {
        reveal_strlit(".");
        reveal_strlit(" s");
        reveal_strlit(" ms");
        reveal_strlit(" μs");
    }
    let (whole, frac, unit) = if secs > 0 {
        (secs, millis as u64, " s")
    } else if millis > 0 {
        (millis as u64, micros as u64, " ms")
    } else {
        (micros as u64, nanos as u64, " μs")
    };
    let mut r = decimal_string(whole);
    r.append(".");
    let f = decimal_string(frac);
    r.append(f.as_str());
    r.append(unit);
    r
}

} // verus!
