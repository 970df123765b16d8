//! Rendering of decoded events into log lines. Numbers are written in
//! decimal; argument lists are written quoted and comma-separated (no
//! escaping inside an argument).

use vstd::prelude::*;

verus! {

/// The character of one decimal digit value.
pub open spec fn spec_digit(d: u64) -> char
    recommends
        d < 10,
{
    ((d as u8) + 48) as char
}

/// The decimal text of `n`: most significant digit first, no leading zero
/// except for zero itself.
pub open spec fn spec_decimal(n: u64) -> Seq<char>
    decreases n,
{
    if n < 10 {
        seq![spec_digit(n)]
    } else {
        spec_decimal((n / 10) as u64).push(spec_digit(n % 10))
    }
}

/// Writes `n` in decimal.
pub fn u64_to_string(n: u64) -> (r: String)
    ensures
        r@ == spec_decimal(n),
    decreases n,
{
    if n < 10 {
        let mut s: String = String::new();
        s.push(((n as u8) + 48) as char);
        assert(s@ =~= spec_decimal(n));
        s
    } else {
        let mut s: String = u64_to_string(n / 10);
        s.push((((n % 10) as u8) + 48) as char);
        assert(s@ =~= spec_decimal(n));
        s
    }
}

/// A number padded to at least two decimal digits.
pub open spec fn spec_padded2(n: u64) -> Seq<char> {
    if n < 10 {
        seq!['0'] + spec_decimal(n)
    } else {
        spec_decimal(n)
    }
}

/// Writes `n` in decimal, padded with a leading zero to at least two
/// digits.
pub fn padded2_to_string(n: u64) -> (r: String)
    ensures
        r@ == spec_padded2(n),
{
    let mut s: String = String::new();
    if n < 10 {
        s.push('0');
    }
    let digits: String = u64_to_string(n);
    s.append(digits.as_str());
    assert(s@ =~= spec_padded2(n));
    s
}

/// An uptime in seconds written as hours, minutes and seconds, each at
/// least two digits, separated by colons.
pub open spec fn spec_uptime_text(seconds: u64) -> Seq<char> {
    spec_padded2((seconds / 3600) as u64) + seq![':'] + spec_padded2(
        ((seconds % 3600) / 60) as u64,
    ) + seq![':'] + spec_padded2((seconds % 60) as u64)
}

/// Writes an uptime in seconds as colon-separated hours, minutes and
/// seconds.
pub fn format_uptime(seconds: u64) -> (r: String)
    ensures
        r@ == spec_uptime_text(seconds),
{
    let mut s: String = padded2_to_string(seconds / 3600);
    s.push(':');
    let minutes: String = padded2_to_string((seconds % 3600) / 60);
    s.append(minutes.as_str());
    s.push(':');
    let secs: String = padded2_to_string(seconds % 60);
    s.append(secs.as_str());
    assert(s@ =~= spec_uptime_text(seconds));
    s
}

/// One rendered argument: the argument text in double quotes.
pub open spec fn spec_quoted(a: Seq<char>) -> Seq<char> {
    seq!['"'] + a + seq!['"']
}

/// A rendered argument list body: the quoted arguments, comma-separated.
pub open spec fn spec_args_body(args: Seq<Seq<char>>) -> Seq<char>
    decreases args.len(),
{
    if args.len() == 0 {
        Seq::empty()
    } else if args.len() == 1 {
        spec_quoted(args[0])
    } else {
        spec_args_body(args.drop_last()) + seq![',', ' '] + spec_quoted(args.last())
    }
}

/// A rendered argument list: the body in square brackets.
pub open spec fn spec_args(args: Seq<Seq<char>>) -> Seq<char> {
    seq!['['] + spec_args_body(args) + seq![']']
}

/// Renders the first `k` arguments, quoted and comma-separated.
fn render_args_prefix(args: &Vec<String>, k: usize) -> (r: String)
    requires
        k <= args@.len(),
    ensures
        r@ == spec_args_body(args@.map_values(|s: String| s@).take(k as int)),
    decreases k,
{
    let ghost view = args@.map_values(|s: String| s@);
    if k == 0 {
        let s: String = String::new();
        assert(s@ =~= spec_args_body(view.take(0)));
        s
    } else if k == 1 {
        let mut s: String = String::new();
        s.push('"');
        s.append(args[0].as_str());
        s.push('"');
        proof {
            assert(view.take(1).len() == 1);
            assert(view.take(1)[0] == view[0]);
            assert(s@ =~= spec_quoted(view[0]));
        }
        s
    } else {
        let mut s: String = render_args_prefix(args, k - 1);
        s.push(',');
        s.push(' ');
        s.push('"');
        s.append(args[k - 1].as_str());
        s.push('"');
        proof {
            assert(view.take(k as int).drop_last() =~= view.take(k - 1));
            assert(view.take(k as int).last() == view[k - 1]);
            assert(s@ =~= spec_args_body(view.take(k as int)));
        }
        s
    }
}

/// Renders an argument list, quoted, comma-separated, in square brackets.
pub fn render_args(args: &Vec<String>) -> (r: String)
    ensures
        r@ == spec_args(args@.map_values(|s: String| s@)),
{
    let ghost view = args@.map_values(|s: String| s@);
    let mut s: String = String::new();
    s.push('[');
    let body: String = render_args_prefix(args, args.len());
    s.append(body.as_str());
    s.push(']');
    proof {
        assert(view.take(view.len() as int) =~= view);
        assert(s@ =~= spec_args(view));
    }
    s
}

} // verus!
