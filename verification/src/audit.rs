//! The audit log line: every raw message is recorded as
//! `<unix_timestamp>,<source_label>,<raw_message>`. Building the line is
//! verified here; appending it to the log file is the caller's I/O.

use vstd::prelude::*;

verus! {

pub open spec fn digit_char(d: int) -> char {
    if d == 0 {
        '0'
    } else if d == 1 {
        '1'
    } else if d == 2 {
        '2'
    } else if d == 3 {
        '3'
    } else if d == 4 {
        '4'
    } else if d == 5 {
        '5'
    } else if d == 6 {
        '6'
    } else if d == 7 {
        '7'
    } else if d == 8 {
        '8'
    } else {
        '9'
    }
}

/// The decimal digits of `n`, most significant first.
pub open spec fn dec_str(n: nat) -> Seq<char>
    decreases n,
{
    if n < 10 {
        seq![digit_char(n as int)]
    } else {
        dec_str(n / 10).push(digit_char((n % 10) as int))
    }
}

fn digit_text(d: u64) -> (r: &'static str)
    requires
        d <= 9,
    ensures
        r@ == seq![digit_char(d as int)],
{
    proof {
        reveal_strlit("0");
        reveal_strlit("1");
        reveal_strlit("2");
        reveal_strlit("3");
        reveal_strlit("4");
        reveal_strlit("5");
        reveal_strlit("6");
        reveal_strlit("7");
        reveal_strlit("8");
        reveal_strlit("9");
    }
    let r = if d == 0 {
        "0"
    } else if d == 1 {
        "1"
    } else if d == 2 {
        "2"
    } else if d == 3 {
        "3"
    } else if d == 4 {
        "4"
    } else if d == 5 {
        "5"
    } else if d == 6 {
        "6"
    } else if d == 7 {
        "7"
    } else if d == 8 {
        "8"
    } else {
        "9"
    };
    proof {
        assert(r@ =~= seq![digit_char(d as int)]);
    }
    r
}

/// Appends the decimal form of `n` to `out`.
fn push_decimal(n: u64, out: &mut String)
    ensures
        final(out)@ == old(out)@ + dec_str(n as nat),
    decreases n,
{
    if n >= 10 {
        push_decimal(n / 10, out);
    }
    let d = digit_text(n % 10);
    out.append(d);
    proof {
        assert(out@ =~= old(out)@ + dec_str(n as nat));
    }
}

/// One audit log line: the receipt timestamp, the source label and the
/// raw message, comma-separated. The caller appends it to the log file.
pub fn format_log_line(timestamp: u64, source: &str, message: &str) -> (r: String)
    ensures
        r@ == dec_str(timestamp as nat) + ","@ + source@ + ","@ + message@,
{
    let mut out = String::new();
    push_decimal(timestamp, &mut out);
    out.append(",");
    out.append(source);
    out.append(",");
    out.append(message);
    proof {
        assert(out@ =~= dec_str(timestamp as nat) + ","@ + source@ + ","@ + message@);
    }
    out
}

} // verus!
