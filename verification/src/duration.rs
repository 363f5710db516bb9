//! Rendering of durations as text: decimal numerals and the `NhNmNs` shape
//! used by query responses.

use vstd::prelude::*;

verus! {

/// The decimal digit character for `d` (meaningful for `0 <= d < 10`).
pub open spec fn digit_char(d: int) -> char {
    if d == 0 {
        '0'
    } else if d == 1 {
        '1'
    } else if d == 2 {
        '2'
    } else if d == 3 {
        '3'
    } else if d == 4 {
        '4'
    } else if d == 5 {
        '5'
    } else if d == 6 {
        '6'
    } else if d == 7 {
        '7'
    } else if d == 8 {
        '8'
    } else {
        '9'
    }
}

/// The decimal numeral of `n`, most significant digit first, no leading zeros
/// (a single `'0'` for zero).
pub open spec fn dec_digits(n: nat) -> Seq<char>
    decreases n,
{
    if n < 10 {
        seq![digit_char(n as int)]
    } else {
        dec_digits(n / 10) + seq![digit_char((n % 10) as int)]
    }
}

fn digit_str(d: u8) -> (r: &'static str)
    requires
        d < 10,
    ensures
        r@ == seq![digit_char(d as int)],
{
    proof {
        reveal_strlit("0");
        reveal_strlit("1");
        reveal_strlit("2");
        reveal_strlit("3");
        reveal_strlit("4");
        reveal_strlit("5");
        reveal_strlit("6");
        reveal_strlit("7");
        reveal_strlit("8");
        reveal_strlit("9");
    }
    let r = if d == 0 {
        "0"
    } else if d == 1 {
        "1"
    } else if d == 2 {
        "2"
    } else if d == 3 {
        "3"
    } else if d == 4 {
        "4"
    } else if d == 5 {
        "5"
    } else if d == 6 {
        "6"
    } else if d == 7 {
        "7"
    } else if d == 8 {
        "8"
    } else {
        "9"
    };
    proof {
        assert(r@ =~= seq![digit_char(d as int)]);
    }
    r
}

/// The decimal numeral of `n` as a `String`.
pub fn decimal_string(n: u128) -> (r: String)
    ensures
        r@ == dec_digits(n as nat),
    decreases n,
{
    if n < 10 {
        digit_str(n as u8).to_owned()
    } else {
        let mut s = decimal_string(n / 10);
        let d = digit_str((n % 10) as u8);
        s.append(d);
        s
    }
}

/// Joins two pieces with a single space, dropping the space when either side
/// is empty.
pub open spec fn with_sep(a: Seq<char>, b: Seq<char>) -> Seq<char> {
    if a.len() == 0 {
        b
    } else if b.len() == 0 {
        a
    } else {
        a + seq![' '] + b
    }
}

/// A duration of `total` seconds in the `NhNmNs` shape: zero-valued units are
/// omitted, the remaining parts are space-separated, and a duration of no
/// positive seconds is `0s`.
pub open spec fn spec_format_duration(total: int) -> Seq<char> {
    if total <= 0 {
        seq!['0', 's']
    } else {
        let h = total / 3600;
        let m = (total / 60) % 60;
        let s = total % 60;
        let hp = if h > 0 {
            dec_digits(h as nat) + seq!['h']
        } else {
            Seq::empty()
        };
        let mp = if m > 0 {
            dec_digits(m as nat) + seq!['m']
        } else {
            Seq::empty()
        };
        let sp = if s > 0 {
            dec_digits(s as nat) + seq!['s']
        } else {
            Seq::empty()
        };
        with_sep(with_sep(hp, mp), sp)
    }
}

/// Renders `total` seconds as `NhNmNs` text.
pub fn format_duration(total: u128) -> (r: String)
    ensures
        r@ == spec_format_duration(total as int),
{
    if total == 0 {
        let r = "0s".to_owned();
        proof {
            reveal_strlit("0s");
            assert(r@ =~= seq!['0', 's']);
        }
        return r;
    }
    let h = total / 3600;
    let m = (total / 60) % 60;
    let s = total % 60;
    let mut out = String::new();
    if h > 0 {
        let hd = decimal_string(h);
        out.append(hd.as_str());
        out.append("h");
        proof {
            reveal_strlit("h");
            assert(out@ =~= dec_digits(h as nat) + seq!['h']);
        }
    }
    if m > 0 {
        if !out.as_str().is_empty() {
            out.append(" ");
            proof {
                reveal_strlit(" ");
            }
        }
        let md = decimal_string(m);
        out.append(md.as_str());
        out.append("m");
        proof {
            reveal_strlit("m");
        }
    }
    proof {
        let hp = if h > 0 {
            dec_digits(h as nat) + seq!['h']
        } else {
            Seq::<char>::empty()
        };
        let mp = if m > 0 {
            dec_digits(m as nat) + seq!['m']
        } else {
            Seq::<char>::empty()
        };
        assert(out@ =~= with_sep(hp, mp));
    }
    if s > 0 {
        if !out.as_str().is_empty() {
            out.append(" ");
            proof {
                reveal_strlit(" ");
            }
        }
        let sd = decimal_string(s);
        out.append(sd.as_str());
        out.append("s");
        proof {
            reveal_strlit("s");
        }
    }
    proof {
        let hp = if h > 0 {
            dec_digits(h as nat) + seq!['h']
        } else {
            Seq::<char>::empty()
        };
        let mp = if m > 0 {
            dec_digits(m as nat) + seq!['m']
        } else {
            Seq::<char>::empty()
        };
        let sp = if s > 0 {
            dec_digits(s as nat) + seq!['s']
        } else {
            Seq::<char>::empty()
        };
        assert(out@ =~= with_sep(with_sep(hp, mp), sp));
    }
    out
}

} // verus!
