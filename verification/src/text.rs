//! Display-text helpers shared by front ends: UTF-8-safe truncation and
//! compact renderings of counts and durations.

use vstd::prelude::*;
use vstd::string::StrSliceExecFns;
use vstd::string::StringExecFns;
use vstd::string::StringSliceAdditionalSpecFns;
use crate::strutil::dec_digits;
use crate::strutil::push_char;
use crate::strutil::append_u64;

verus! {

/// The largest index at or below `i` that sits on a character boundary of
/// `bytes`; index zero always qualifies.
pub open spec fn best_boundary(bytes: Seq<u8>, i: int) -> int
    decreases i,
{
    if i <= 0 {
        0
    } else if vstd::utf8::is_char_boundary(bytes, i) {
        i
    } else {
        best_boundary(bytes, i - 1)
    }
}

pub proof fn lemma_best_boundary(bytes: Seq<u8>, i: int)
    requires
        vstd::utf8::valid_utf8(bytes),
        0 <= i <= bytes.len(),
    ensures
        0 <= best_boundary(bytes, i) <= i,
        vstd::utf8::is_char_boundary(bytes, best_boundary(bytes, i)),
    decreases i,
{
    broadcast use vstd::utf8::is_char_boundary_start_end_of_seq;

    if i > 0 && !vstd::utf8::is_char_boundary(bytes, i) {
        lemma_best_boundary(bytes, i - 1);
    }
}

proof fn lemma_best_boundary_above(bytes: Seq<u8>, i: int, e: int)
    requires
        0 <= e <= i,
        forall|j: int| e < j <= i ==> !vstd::utf8::is_char_boundary(bytes, j),
        e == 0 || vstd::utf8::is_char_boundary(bytes, e),
    ensures
        best_boundary(bytes, i) == if e == 0 && !vstd::utf8::is_char_boundary(bytes, 0) {
            0
        } else {
            e
        },
    decreases i,
{
    if i > e {
        lemma_best_boundary_above(bytes, i - 1, e);
    }
}

/// Truncates to at most `max_bytes` bytes without ever splitting a UTF-8
/// character: the result is the longest prefix that fits and ends on a
/// character boundary.
pub fn truncate_str(s: &str, max_bytes: usize) -> (r: &str)
    ensures
        s.spec_bytes().len() <= max_bytes ==> r@ == s@,
        s.spec_bytes().len() > max_bytes ==> r.spec_bytes() == s.spec_bytes().take(
            best_boundary(s.spec_bytes(), max_bytes as int),
        ),
{
    broadcast use vstd::utf8::encode_utf8_valid_utf8;
    broadcast use vstd::utf8::is_char_boundary_start_end_of_seq;
    broadcast use vstd::slice::axiom_spec_len;

    let nb = s.as_bytes().len();
    if nb <= max_bytes {
        return s;
    }
    let mut end = max_bytes;
    while end > 0 && !s.is_char_boundary(end)
        invariant
            end <= max_bytes,
            forall|j: int|
                end < j <= max_bytes ==> !vstd::utf8::is_char_boundary(s.spec_bytes(), j),
        decreases end,
    {
        end = end - 1;
    }
    proof {
        if end == 0 {
            lemma_best_boundary_above(s.spec_bytes(), max_bytes as int, 0);
        } else {
            lemma_best_boundary_above(s.spec_bytes(), max_bytes as int, end as int);
        }
        assert(vstd::utf8::is_char_boundary(s.spec_bytes(), end as int));
        assert(best_boundary(s.spec_bytes(), max_bytes as int) == end);
    }
    let pair = s.split_at(end);
    pair.0
}

/// The horizontal-ellipsis character appended to a shortened text.
pub open spec fn ellipsis() -> char {
    '\u{2026}'
}

/// Shortens to at most `max` bytes for display: text that fits is returned
/// whole; anything longer is cut on a character boundary within `max - 1`
/// bytes and marked with an ellipsis.
pub fn truncate(s: &str, max: usize) -> (r: String)
    ensures
        s.spec_bytes().len() <= max ==> r@ == s@,
        s.spec_bytes().len() > max ==> r@ == vstd::utf8::decode_utf8(
            s.spec_bytes().take(
                best_boundary(
                    s.spec_bytes(),
                    if max > 0 {
                        max - 1
                    } else {
                        0
                    },
                ),
            ),
        ).push(ellipsis()),
{
    broadcast use vstd::utf8::encode_utf8_valid_utf8;
    broadcast use vstd::utf8::encode_utf8_decode_utf8;
    broadcast use vstd::utf8::decode_utf8_encode_utf8;
    broadcast use vstd::slice::axiom_spec_len;

    let nb = s.as_bytes().len();
    if nb <= max {
        return s.to_owned();
    }
    let budget = if max > 0 {
        max - 1
    } else {
        0
    };
    let head = truncate_str(s, budget);
    proof {
        lemma_best_boundary(s.spec_bytes(), budget as int);
        assert(vstd::utf8::decode_utf8(head.spec_bytes()) == head@);
    }
    let mut out = head.to_owned();
    push_char(&mut out, '\u{2026}');
    out
}

/// Shortens one display line to at most `max_len` bytes, marking a cut with
/// an ellipsis.
pub fn truncate_line(s: &str, max_len: usize) -> (r: String)
    ensures
        s.spec_bytes().len() <= max_len ==> r@ == s@,
        s.spec_bytes().len() > max_len ==> r@ == vstd::utf8::decode_utf8(
            s.spec_bytes().take(
                best_boundary(
                    s.spec_bytes(),
                    if max_len > 0 {
                        max_len - 1
                    } else {
                        0
                    },
                ),
            ),
        ).push(ellipsis()),
{
    truncate(s, max_len)
}

/// An uptime in compact units: seconds below a minute, then minutes and
/// seconds, then hours and minutes, then days and hours.
pub open spec fn uptime_text(secs: u64) -> Seq<char> {
    if secs < 60 {
        dec_digits(secs as nat) + "s"@
    } else if secs < 3600 {
        dec_digits((secs / 60) as nat) + "m "@ + dec_digits((secs % 60) as nat) + "s"@
    } else if secs < 86400 {
        dec_digits((secs / 3600) as nat) + "h "@ + dec_digits((secs % 3600 / 60) as nat) + "m"@
    } else {
        dec_digits((secs / 86400) as nat) + "d "@ + dec_digits((secs % 86400 / 3600) as nat) + "h"@
    }
}

/// Renders an uptime in compact units.
pub fn format_uptime(secs: u64) -> (r: String)
    ensures
        r@ == uptime_text(secs),
{
    let mut out = String::new();
    if secs < 60 {
        append_u64(&mut out, secs);
        out.append("s");
    } else if secs < 3600 {
        append_u64(&mut out, secs / 60);
        out.append("m ");
        append_u64(&mut out, secs % 60);
        out.append("s");
    } else if secs < 86400 {
        append_u64(&mut out, secs / 3600);
        out.append("h ");
        append_u64(&mut out, secs % 3600 / 60);
        out.append("m");
    } else {
        append_u64(&mut out, secs / 86400);
        out.append("d ");
        append_u64(&mut out, secs % 86400 / 3600);
        out.append("h");
    }
    proof {
        assert(out@ =~= uptime_text(secs));
    }
    out
}

/// A count in tenths of the unit, the tenths digit rounded half up.
pub open spec fn tenths_of(n: u64, unit: u64) -> nat {
    (n / (unit / 10) + if n % (unit / 10) >= unit / 20 {
        1nat
    } else {
        0nat
    }) as nat
}

/// A count with one decimal place in millions or thousands: the tenths
/// digit is rounded half up.
pub open spec fn scaled_text(n: u64, unit: u64, suffix: Seq<char>) -> Seq<char> {
    let tenths = tenths_of(n, unit);
    dec_digits(tenths / 10) + "."@ + dec_digits(tenths % 10) + suffix
}

/// A large count in compact form: `M` above a million, `K` above a
/// thousand, plain digits below.
pub open spec fn count_text(n: u64) -> Seq<char> {
    if n >= 1000000 {
        scaled_text(n, 1000000, "M"@)
    } else if n >= 1000 {
        scaled_text(n, 1000, "K"@)
    } else {
        dec_digits(n as nat)
    }
}

fn append_scaled(out: &mut String, n: u64, unit: u64, suffix: &str)
    requires
        unit == 1000000 || unit == 1000,
    ensures
        final(out)@ == old(out)@ + scaled_text(n, unit, suffix@),
{
    proof {
        vstd::arithmetic::div_mod::lemma_fundamental_div_mod(n as int, (unit / 10) as int);
    }
    let base = n / (unit / 10);
    let carry: u64 = if n % (unit / 10) >= unit / 20 {
        1
    } else {
        0
    };
    proof {
        assert((unit / 10) * base <= n) by (nonlinear_arith)
            requires
                base == n / (unit / 10) && (unit == 1000000 || unit == 1000),
        ;
        assert(base < u64::MAX) by {
            if unit == 1000000 {
                assert(100000 * base <= n);
            } else {
                assert(100 * base <= n);
            }
        }
    }
    let tenths = base + carry;
    append_u64(out, tenths / 10);
    out.append(".");
    append_u64(out, tenths % 10);
    out.append(suffix);
    proof {
        assert(final(out)@ =~= old(out)@ + scaled_text(n, unit, suffix@));
    }
}

/// Renders a token count in compact form, as usage summaries show it.
pub fn format_tokens(n: u64) -> (r: String)
    ensures
        r@ == count_text(n),
{
    let mut out = String::new();
    if n >= 1000000 {
        append_scaled(&mut out, n, 1000000, "M");
    } else if n >= 1000 {
        append_scaled(&mut out, n, 1000, "K");
    } else {
        append_u64(&mut out, n);
    }
    proof {
        assert(out@ =~= count_text(n));
    }
    out
}

/// Renders a download count in compact form.
pub fn format_count(n: u64) -> (r: String)
    ensures
        r@ == count_text(n),
{
    format_tokens(n)
}

/// A context-window size: one decimal in millions, whole thousands with
/// `K`, plain digits below a thousand.
pub open spec fn context_text(n: u64) -> Seq<char> {
    if n >= 1000000 {
        scaled_text(n, 1000000, "M"@)
    } else if n >= 1000 {
        dec_digits((n / 1000) as nat) + "K"@
    } else {
        dec_digits(n as nat)
    }
}

/// Renders a model's context-window size in compact form.
pub fn format_context(n: u64) -> (r: String)
    ensures
        r@ == context_text(n),
{
    let mut out = String::new();
    if n >= 1000000 {
        append_scaled(&mut out, n, 1000000, "M");
    } else if n >= 1000 {
        append_u64(&mut out, n / 1000);
        out.append("K");
    } else {
        append_u64(&mut out, n);
    }
    proof {
        assert(out@ =~= context_text(n));
    }
    out
}

} // verus!
