//! Names of a run's artifacts: the benchmark slug and the run id.

use crate::text::chars_of;
use vstd::prelude::*;
use vstd::string::*;

verus! {

/// What `sanitize_filename` makes of a name (not for Windows, truncating,
/// dropping what it removes).
pub uninterp spec fn sanitized(s: Seq<char>) -> Seq<char>;

/// Relies on sanitize_filename::sanitize_with_options: the file-system-safe
/// form of `name`, which depends on the name alone once the options are fixed.
#[verifier::external_body]
fn sanitize_name(name: &str) -> (r: String)
    ensures
        r@ == sanitized(name@),
{
    let options = sanitize_filename::Options { windows: false, truncate: true, replacement: "" };
    sanitize_filename::sanitize_with_options(name, options)
}

pub open spec fn digit_chars() -> Seq<char> {
    "0123456789"@
}

/// The decimal digits of `n`, without leading zeros.
pub open spec fn decimal(n: nat) -> Seq<char>
    decreases n,
{
    if n < 10 {
        seq![digit_chars()[n as int]]
    } else {
        decimal(n / 10) + seq![digit_chars()[(n % 10) as int]]
    }
}

/// The last `w` decimal digits of `n`, with leading zeros.
pub open spec fn fixed_digits(n: nat, w: nat) -> Seq<char>
    decreases w,
{
    if w == 0 {
        Seq::empty()
    } else {
        fixed_digits(n / 10, (w - 1) as nat) + seq![digit_chars()[(n % 10) as int]]
    }
}

fn push_digit(out: &mut String, d: u64)
    requires
        d < 10,
    ensures
        final(out)@ == old(out)@ + seq![digit_chars()[d as int]],
{
    let digits = "0123456789";
    proof {
        reveal_strlit("0123456789");
    }
    let one = digits.substring_char(d as usize, (d + 1) as usize);
    proof {
        assert(one@ =~= seq![digit_chars()[d as int]]);
    }
    out.append(one);
}

/// Appends the decimal digits of `n`.
pub fn push_decimal(out: &mut String, n: u64)
    ensures
        final(out)@ == old(out)@ + decimal(n as nat),
    decreases n,
{
    if n >= 10 {
        push_decimal(out, n / 10);
    }
    push_digit(out, n % 10);
    proof {
        if n >= 10 {
            assert(final(out)@ =~= old(out)@ + decimal(n as nat));
        }
    }
}

/// Appends the last `w` decimal digits of `n`, with leading zeros.
pub fn push_fixed_digits(out: &mut String, n: u64, w: u64)
    ensures
        final(out)@ == old(out)@ + fixed_digits(n as nat, w as nat),
    decreases w,
{
    if w == 0 {
        proof {
            assert(final(out)@ =~= old(out)@ + fixed_digits(n as nat, w as nat));
        }
        return;
    }
    push_fixed_digits(out, n / 10, w - 1);
    push_digit(out, n % 10);
    proof {
        assert(final(out)@ =~= old(out)@ + fixed_digits(n as nat, w as nat));
    }
}

/// The model name with `/` and `.` replaced by `-`.
pub open spec fn dashed(s: Seq<char>) -> Seq<char> {
    s.map_values(|c: char| if c == '/' || c == '.' { '-' } else { c })
}

fn dash_model(model: &str) -> (r: String)
    ensures
        r@ == dashed(model@),
{
    let cs = chars_of(model);
    let n = cs.len();
    let mut out = String::new();
    let mut i: usize = 0;
    proof {
        reveal_strlit("-");
    }
    while i < n
        invariant
            n == model@.len(),
            cs@ == model@,
            0 <= i <= n,
            out@ == dashed(model@.take(i as int)),
            "-"@ == seq!['-'],
        decreases n - i,
    {
        if cs[i] == '/' || cs[i] == '.' {
            out.append("-");
        } else {
            out.append(model.substring_char(i, i + 1));
        }
        proof {
            assert(out@ =~= dashed(model@.take(i + 1)));
        }
        i = i + 1;
    }
    proof {
        assert(model@.take(n as int) =~= model@);
    }
    out
}

/// The benchmark slug: the sanitized model name, the mean input length and
/// the mean output length (or `none`), joined by `_`.
pub open spec fn slug_of(model: Seq<char>, mean_input: u32, mean_output: Option<u32>) -> Seq<char> {
    sanitized(dashed(model)) + "_"@ + decimal(mean_input as nat) + "_"@ + match mean_output {
        Some(m) => decimal(m as nat),
        None => "none"@,
    }
}

/// Builds the benchmark slug.
pub fn benchmark_slug(model: &str, mean_input: u32, mean_output: Option<u32>) -> (r: String)
    ensures
        r@ == slug_of(model@, mean_input, mean_output),
{
    let dashed_model = dash_model(model);
    let mut out = sanitize_name(dashed_model.as_str());
    out.append("_");
    push_decimal(&mut out, mean_input as u64);
    out.append("_");
    match mean_output {
        Some(m) => push_decimal(&mut out, m as u64),
        None => out.append("none"),
    }
    out
}

/// The run id `{secs}_{nanos}`, the nanoseconds written with nine digits.
pub open spec fn run_id_of(secs: u64, nanos: u32) -> Seq<char> {
    decimal(secs as nat) + "_"@ + fixed_digits(nanos as nat, 9)
}

/// Builds the run id from a wall-clock time: whole seconds since the epoch
/// and the nanoseconds past the last whole second.
pub fn run_id(secs: u64, nanos: u32) -> (r: String)
    ensures
        r@ == run_id_of(secs, nanos),
{
    let mut out = String::new();
    push_decimal(&mut out, secs);
    out.append("_");
    push_fixed_digits(&mut out, nanos as u64, 9);
    proof {
        assert(out@ =~= run_id_of(secs, nanos));
    }
    out
}

} // verus!
