//! Plain decimal numbers in thousandths, standing in for the radius and
//! angle figures of the line grammar. Three fractional digits cover the
//! format's practical precision; further digits are ignored.
use vstd::prelude::*;

use crate::chars::{
    all_digits, chars_of, dec_rep, dec_rep_pad, digit_run_end, digits_val, exec_digit_run_end,
    frac_milli, parse_digits_capped, pow10, push_dec_u64, push_dec_pad, string_of,
};
use crate::altitude::all_digits_range;

verus! {

/// A signed decimal number held in thousandths.
#[derive(Debug, PartialEq, Eq, Clone, Copy, Structural)]
pub struct Decimal {
    /// The value times one thousand.
    pub milli: i64,
}

impl Decimal {
    /// Magnitudes every parsed decimal obeys and the writer relies on.
    pub open spec fn wf(&self) -> bool {
        -1000000000000000000 <= self.milli <= 1000000000000000000
    }
}

/// The largest whole part the parser accepts.
pub open spec fn decimal_int_limit() -> int {
    999999999999999
}

/// The number denoted (in thousandths) by an optional sign, digits, and an
/// optional fraction, or `None` for anything else.
pub open spec fn spec_parse_decimal(s: Seq<char>) -> Option<int> {
    if s.len() == 0 {
        None
    } else {
        let neg = s[0] == '-';
        let i1: int = if s[0] == '-' || s[0] == '+' {
            1
        } else {
            0
        };
        let e = digit_run_end(s, i1);
        let intv = digits_val(s.subrange(i1, e)) as int;
        if e < s.len() && s[e] == '.' {
            let fd = s.subrange(e + 1, s.len() as int);
            if !all_digits(fd) {
                None
            } else if e == i1 && fd.len() == 0 {
                None
            } else if intv > decimal_int_limit() {
                None
            } else {
                let m = intv * 1000 + frac_milli(fd);
                Some(
                    if neg {
                        -m
                    } else {
                        m
                    },
                )
            }
        } else if e != s.len() {
            None
        } else if e == i1 {
            None
        } else if intv > decimal_int_limit() {
            None
        } else {
            Some(
                if neg {
                    -(intv * 1000)
                } else {
                    intv * 1000
                },
            )
        }
    }
}

/// The written form: the whole part, then the fraction with trailing zeros
/// dropped, and no fraction at all for a whole number.
pub open spec fn spec_render_decimal(milli: int) -> Seq<char> {
    let a = if milli < 0 {
        -milli
    } else {
        milli
    };
    let sign: Seq<char> = if milli < 0 {
        seq!['-']
    } else {
        Seq::empty()
    };
    let ip = a / 1000;
    let fr = a % 1000;
    if fr == 0 {
        sign + dec_rep(ip as nat)
    } else if fr % 100 == 0 {
        sign + dec_rep(ip as nat) + seq!['.'] + dec_rep((fr / 100) as nat)
    } else if fr % 10 == 0 {
        sign + dec_rep(ip as nat) + seq!['.'] + dec_rep_pad((fr / 10) as nat, 2)
    } else {
        sign + dec_rep(ip as nat) + seq!['.'] + dec_rep_pad(fr as nat, 3)
    }
}

impl Decimal {
    /// Reads a decimal number; `None` for anything outside the plain decimal
    /// notation.
    pub fn parse(data: &str) -> (r: Option<Decimal>)
        ensures
            match r {
                Some(d) => spec_parse_decimal(data@) == Some(d.milli as int) && d.wf(),
                None => spec_parse_decimal(data@) is None,
            },
    {
        let v = chars_of(data);
        let n = v.len();
        if n == 0 {
            return None;
        }
        let neg = v[0] == '-';
        let i1: usize = if v[0] == '-' || v[0] == '+' {
            1
        } else {
            0
        };
        let e = exec_digit_run_end(&v, i1);
        proof {
            crate::chars::lemma_digit_run_end(v@, i1 as int);
            assert(forall|j: int|
                0 <= j < e - i1 ==> crate::chars::is_digit(
                    #[trigger] v@.subrange(i1 as int, e as int)[j],
                ));
        }
        if e < n && v[e] == '.' {
            if !all_digits_range(&v, e + 1, n) {
                return None;
            }
            if e == i1 && e + 1 == n {
                return None;
            }
            let intv = match parse_digits_capped(&v, i1, e, 999_999_999_999_999) {
                Some(u) => u,
                None => {
                    return None;
                },
            };
            let fm = exec_frac_milli(&v, e + 1, n);
            let m: i64 = intv as i64 * 1000 + fm as i64;
            Some(
                Decimal {
                    milli: if neg {
                        -m
                    } else {
                        m
                    },
                },
            )
        } else if e != n {
            None
        } else if e == i1 {
            None
        } else {
            let intv = match parse_digits_capped(&v, i1, e, 999_999_999_999_999) {
                Some(u) => u,
                None => {
                    return None;
                },
            };
            let m: i64 = intv as i64 * 1000;
            Some(
                Decimal {
                    milli: if neg {
                        -m
                    } else {
                        m
                    },
                },
            )
        }
    }

    /// Writes the number with trailing fractional zeros dropped.
    pub fn write(&self) -> (r: String)
        requires
            self.wf(),
        ensures
            r@ == spec_render_decimal(self.milli as int),
    {
        let mut out: Vec<char> = Vec::new();
        let a: i64 = if self.milli < 0 {
            out.push('-');
            -self.milli
        } else {
            self.milli
        };
        let ip: i64 = a / 1000;
        let fr: i64 = a % 1000;
        push_dec_u64(&mut out, ip as u64);
        if fr == 0 {
        } else if fr % 100 == 0 {
            out.push('.');
            push_dec_u64(&mut out, (fr / 100) as u64);
        } else if fr % 10 == 0 {
            out.push('.');
            push_dec_pad(&mut out, (fr / 10) as u64, 2);
        } else {
            out.push('.');
            push_dec_pad(&mut out, fr as u64, 3);
        }
        proof {
            assert(out@ =~= spec_render_decimal(self.milli as int));
        }
        string_of(&out)
    }
}

/// Thousandths contributed by the fractional digits `v[from..to]`.
fn exec_frac_milli(v: &Vec<char>, from: usize, to: usize) -> (r: u64)
    requires
        from <= to <= v@.len(),
        all_digits(v@.subrange(from as int, to as int)),
    ensures
        r == frac_milli(v@.subrange(from as int, to as int)),
        r < 1000,
{
    let ghost fd = v@.subrange(from as int, to as int);
    let avail: usize = to - from;
    let k: usize = if avail < 3 {
        avail
    } else {
        3
    };
    proof {
        assert(fd.take(k as int) =~= v@.subrange(from as int, from + k as int));
        assert(forall|j: int|
            0 <= j < k ==> crate::chars::is_digit(
                #[trigger] v@.subrange(from as int, from + k as int)[j],
            ));
    }
    let val = match parse_digits_capped(v, from, from + k, 999) {
        Some(u) => u,
        None => {
            proof {
                crate::chars::lemma_pow10_values();
                crate::chars::lemma_digits_val_bound(v@.subrange(from as int, from + k as int));
                crate::chars::lemma_pow10_le(v@.subrange(from as int, from + k as int).len(), 3);
            }
            assert(false);
            0
        },
    };
    let scale: u64 = match 3 - k {
        0 => 1,
        1 => 10,
        2 => 100,
        _ => 1000,
    };
    proof {
        crate::chars::lemma_pow10_values();
        crate::chars::lemma_digits_val_bound(fd.take(k as int));
        let dv = digits_val(fd.take(k as int)) as int;
        let pk = pow10(k as nat) as int;
        let sc = pow10((3 - k) as nat) as int;
        assert(scale == sc);
        assert(dv * sc < pk * sc) by (nonlinear_arith)
            requires
                dv < pk,
                1 <= sc,
                0 <= dv,
        ;
        assert(pk * sc == 1000) by {
            crate::chars::lemma_pow10_adds(k as nat, (3 - k) as nat);
        }
    }
    val * scale
}

} // verus!
