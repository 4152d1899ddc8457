//! Vertical bounds: the lenient altitude notation parser, the meter-to-feet
//! conversion and the canonical writer.
use vstd::prelude::*;

use crate::chars::{
    all_digits, chars_of, dec_rep, digit_run_end, digits_val, eq_ci, exec_digit_run_end,
    exec_rskip_spaces, exec_skip_spaces, find_space, int_rep, parse_digits_capped, str_eq,
    str_eq_ci, subvec, trimmed, chars_eq_str_ci, exec_find_space, i64_string, u64_string,
};

verus! {

broadcast use vstd::string::group_string_axioms;

/// Altitude, either ground or a certain height AMSL in feet.
#[derive(Debug, Clone, PartialEq, Eq)]
pub enum Altitude {
    /// Ground/surface level
    Gnd,
    /// Feet above mean sea level
    FeetAmsl(i32),
    /// Feet above ground level
    FeetAgl(i32),
    /// Flight level
    FlightLevel(u16),
    /// Unlimited
    Unlimited,
    /// Other (could not be parsed)
    Other(String),
}

/// Mathematical image of an `Altitude`.
pub enum AltV {
    Gnd,
    FeetAmsl(int),
    FeetAgl(int),
    FlightLevel(int),
    Unlimited,
    Other(Seq<char>),
}

impl View for Altitude {
    type V = AltV;

    open spec fn view(&self) -> AltV {
        match self {
            Altitude::Gnd => AltV::Gnd,
            Altitude::FeetAmsl(n) => AltV::FeetAmsl(*n as int),
            Altitude::FeetAgl(n) => AltV::FeetAgl(*n as int),
            Altitude::FlightLevel(n) => AltV::FlightLevel(*n as int),
            Altitude::Unlimited => AltV::Unlimited,
            Altitude::Other(s) => AltV::Other(s@),
        }
    }
}

/// The two inputs on which the meter-to-feet conversion refuses to convert.
pub enum AltErr {
    MeterTooLarge,
    MeterTooSmall,
}

pub open spec fn alt_err_msg(e: AltErr) -> Seq<char> {
    match e {
        AltErr::MeterTooLarge => "m2ft out of bounds (too large)"@,
        AltErr::MeterTooSmall => "m2ft out of bounds (too small)"@,
    }
}

/// Meters to feet: division by 0.3048 (i.e. times 1250/381), rounded to the
/// nearest integer, halves away from zero.
pub open spec fn spec_m2ft(v: int) -> int {
    if v >= 0 {
        (v * 1250 + 190) / 381
    } else {
        -(((-v) * 1250 + 190) / 381)
    }
}

/// A suffix meaning feet above mean sea level; an empty suffix defaults here.
pub open spec fn spec_is_amsl_suffix(s: Seq<char>) -> bool {
    s.len() == 0 || eq_ci(s, "amsl"@) || eq_ci(s, "msl"@)
}

/// A suffix meaning feet above ground level.
pub open spec fn spec_is_agl_suffix(s: Seq<char>) -> bool {
    eq_ci(s, "agl"@) || eq_ci(s, "gnd"@) || eq_ci(s, "sfc"@)
}

/// An unsigned 16-bit integer as `str::parse::<u16>` reads it: an optional
/// leading `+`, then decimal digits.
pub open spec fn spec_parse_u16(t: Seq<char>) -> Option<int> {
    let d = if t.len() >= 1 && t[0] == '+' {
        t.subrange(1, t.len() as int)
    } else {
        t
    };
    if d.len() >= 1 && all_digits(d) && digits_val(d) <= 65535 {
        Some(digits_val(d) as int)
    } else {
        None
    }
}

/// The altitude denoted by a notation, or the input on which the meter
/// conversion refuses. Unrecognised notation is the lenient fallback, not an
/// error.
pub open spec fn spec_parse_altitude(s: Seq<char>) -> Result<AltV, AltErr> {
    if eq_ci(s, "gnd"@) || eq_ci(s, "sfc"@) || s == "0"@ {
        Ok(AltV::Gnd)
    } else if eq_ci(s, "unl"@) || eq_ci(s, "unlim"@) || eq_ci(s, "unltd"@) || eq_ci(
        s,
        "unlimited"@,
    ) {
        Ok(AltV::Unlimited)
    } else if s.len() >= 2 && eq_ci(s.subrange(0, 2), "fl"@) {
        match spec_parse_u16(trimmed(s.subrange(2, s.len() as int))) {
            Some(val) => Ok(AltV::FlightLevel(val)),
            None => Ok(AltV::Other(s)),
        }
    } else {
        let e = digit_run_end(s, 0);
        if e == 0 || digits_val(s.subrange(0, e)) > 2147483647 {
            Ok(AltV::Other(s))
        } else {
            let val = digits_val(s.subrange(0, e)) as int;
            let rest = trimmed(s.subrange(e, s.len() as int));
            if spec_is_amsl_suffix(rest) {
                Ok(AltV::FeetAmsl(val))
            } else if spec_is_agl_suffix(rest) {
                Ok(AltV::FeetAgl(val))
            } else {
                let sp = find_space(rest, 0);
                let unit = rest.subrange(0, sp);
                let reference = trimmed(rest.subrange(sp, rest.len() as int));
                if eq_ci(unit, "m"@) {
                    if val > 654553015 {
                        Err(AltErr::MeterTooLarge)
                    } else if spec_is_amsl_suffix(reference) {
                        Ok(AltV::FeetAmsl(spec_m2ft(val)))
                    } else if spec_is_agl_suffix(reference) {
                        Ok(AltV::FeetAgl(spec_m2ft(val)))
                    } else {
                        Ok(AltV::Other(s))
                    }
                } else if !eq_ci(unit, "ft"@) {
                    Ok(AltV::Other(s))
                } else if spec_is_amsl_suffix(reference) {
                    Ok(AltV::FeetAmsl(val))
                } else if spec_is_agl_suffix(reference) {
                    Ok(AltV::FeetAgl(val))
                } else {
                    Ok(AltV::Other(s))
                }
            }
        }
    }
}

/// The canonical text of each altitude variant.
pub open spec fn spec_render_altitude(a: AltV) -> Seq<char> {
    match a {
        AltV::Gnd => "GND"@,
        AltV::FeetAmsl(n) => int_rep(n) + "ft AMSL"@,
        AltV::FeetAgl(n) => int_rep(n) + "ft AGL"@,
        AltV::FlightLevel(n) => "FL"@ + dec_rep(n as nat),
        AltV::Unlimited => "UNLIM"@,
        AltV::Other(s) => s,
    }
}

impl Altitude {
    /// Meters to feet, rounded to the nearest foot; inputs whose image does
    /// not fit a 32-bit signed integer are refused.
    pub fn m2ft(val: i32) -> (r: Result<i32, &'static str>)
        ensures
            match r {
                Ok(f) => -654553016 <= val <= 654553015 && f == spec_m2ft(val as int),
                Err(m) => (val > 654553015 && m@ == "m2ft out of bounds (too large)"@) || (val
                    < -654553016 && m@ == "m2ft out of bounds (too small)"@),
            },
    {
        if val > 654_553_015 {
            return Err("m2ft out of bounds (too large)");
        }
        if val < -654_553_016 {
            return Err("m2ft out of bounds (too small)");
        }
        let m = val as i64;
        if m >= 0 {
            let p: i64 = m * 1250 + 190;
            let f: i64 = p / 381;
            proof {
                vstd::arithmetic::mul::lemma_mul_inequality(m as int, 654553015, 1250);
                vstd::arithmetic::div_mod::lemma_div_is_ordered(
                    p as int,
                    818191268940,
                    381,
                );
                assert(f <= 2147483645);
                assert(p >= 0);
                vstd::arithmetic::div_mod::lemma_div_is_ordered(0, p as int, 381);
            }
            Ok(f as i32)
        } else {
            let q: i64 = -m;
            let p: i64 = q * 1250 + 190;
            let f: i64 = p / 381;
            proof {
                vstd::arithmetic::mul::lemma_mul_inequality(q as int, 654553016, 1250);
                vstd::arithmetic::div_mod::lemma_div_is_ordered(
                    p as int,
                    818191270190,
                    381,
                );
                assert(f <= 2147483648);
                assert(p >= 0);
                vstd::arithmetic::div_mod::lemma_div_is_ordered(0, p as int, 381);
            }
            Ok((-f) as i32)
        }
    }

    /// Decodes one vertical-bound notation. Whatever cannot be recognised
    /// comes back as the lenient fallback; only a meter value out of range is
    /// an error.
    pub fn parse(data: &str) -> (r: Result<Altitude, String>)
        ensures
            match r {
                Ok(a) => spec_parse_altitude(data@) == Result::<AltV, AltErr>::Ok(a@),
                Err(m) => spec_parse_altitude(data@) is Err && m@ == alt_err_msg(
                    spec_parse_altitude(data@)->Err_0,
                ),
            },
    {
        if str_eq_ci(data, "gnd") || str_eq_ci(data, "sfc") || str_eq(data, "0") {
            return Ok(Altitude::Gnd);
        }
        if str_eq_ci(data, "unl") || str_eq_ci(data, "unlim") || str_eq_ci(data, "unltd")
            || str_eq_ci(data, "unlimited") {
            return Ok(Altitude::Unlimited);
        }
        let v = chars_of(data);
        let n = v.len();
        if n >= 2 && chars_eq_str_ci(&v, 0, 2, "fl") {
            let sub = subvec(&v, 2, n);
            match parse_u16_trimmed(&sub) {
                Some(val) => {
                    return Ok(Altitude::FlightLevel(val));
                },
                None => {
                    return Ok(Altitude::Other(String::from_str(data)));
                },
            }
        }
        let e = exec_digit_run_end(&v, 0);
        if e == 0 {
            return Ok(Altitude::Other(String::from_str(data)));
        }
        proof {
            crate::chars::lemma_digit_run_end(v@, 0);
            assert(forall|j: int|
                0 <= j < e ==> crate::chars::is_digit(#[trigger] v@.subrange(0, e as int)[j]));
        }
        let val_u = match parse_digits_capped(&v, 0, e, 2147483647) {
            Some(u) => u,
            None => {
                return Ok(Altitude::Other(String::from_str(data)));
            },
        };
        let val = val_u as i32;
        let sub = subvec(&v, e, n);
        let rest = trim_vec(&sub);
        let rn = rest.len();
        if exec_is_amsl_suffix(&rest, 0, rn) {
            return Ok(Altitude::FeetAmsl(val));
        }
        if exec_is_agl_suffix(&rest, 0, rn) {
            return Ok(Altitude::FeetAgl(val));
        }
        let sp = exec_find_space(&rest, 0);
        let refsub = subvec(&rest, sp, rn);
        let reference = trim_vec(&refsub);
        let refn = reference.len();
        if chars_eq_str_ci(&rest, 0, sp, "m") {
            if val > 654_553_015 {
                return Err(String::from_str("m2ft out of bounds (too large)"));
            }
            let ft = match Altitude::m2ft(val) {
                Ok(f) => f,
                Err(_) => {
                    // m2ft accepts every value the bound check above lets through
                    assert(false);
                    0
                },
            };
            if exec_is_amsl_suffix(&reference, 0, refn) {
                return Ok(Altitude::FeetAmsl(ft));
            }
            if exec_is_agl_suffix(&reference, 0, refn) {
                return Ok(Altitude::FeetAgl(ft));
            }
            return Ok(Altitude::Other(String::from_str(data)));
        }
        if !chars_eq_str_ci(&rest, 0, sp, "ft") {
            return Ok(Altitude::Other(String::from_str(data)));
        }
        if exec_is_amsl_suffix(&reference, 0, refn) {
            return Ok(Altitude::FeetAmsl(val));
        }
        if exec_is_agl_suffix(&reference, 0, refn) {
            return Ok(Altitude::FeetAgl(val));
        }
        Ok(Altitude::Other(String::from_str(data)))
    }

    /// Writes the altitude in its canonical textual form.
    pub fn write(&self) -> (r: String)
        ensures
            r@ == spec_render_altitude(self@),
    {
        match self {
            Altitude::Gnd => String::from_str("GND"),
            Altitude::FeetAmsl(n) => i64_string(*n as i64).concat("ft AMSL"),
            Altitude::FeetAgl(n) => i64_string(*n as i64).concat("ft AGL"),
            Altitude::FlightLevel(n) => String::from_str("FL").concat(
                u64_string(*n as u64).as_str(),
            ),
            Altitude::Unlimited => String::from_str("UNLIM"),
            Altitude::Other(s) => s.clone(),
        }
    }
}

/// A sequence opening with a digit is never case-insensitively equal to one
/// opening with anything that folds outside the digits.
proof fn lemma_digit_head_refutes(s: Seq<char>, t: Seq<char>)
    requires
        s.len() > 0,
        crate::chars::is_digit(s[0]),
        t.len() > 0,
        !(48 <= crate::chars::lower_code(t[0]) <= 57),
    ensures
        !eq_ci(s, t),
{
    if eq_ci(s, t) {
        assert(crate::chars::lower_code(s[0]) == crate::chars::lower_code(t[0]));
    }
}

/// Digits are not whitespace.
proof fn lemma_digits_not_space(s: Seq<char>)
    requires
        all_digits(s),
    ensures
        forall|j: int| 0 <= j < s.len() ==> !crate::chars::is_space(s[j]),
{
    assert forall|j: int| 0 <= j < s.len() implies !crate::chars::is_space(s[j]) by {
        assert(crate::chars::is_digit(s[j]));
    }
}

/// Altitude round trip: every variant except the lenient fallback, written in
/// its canonical form and parsed again, comes back unchanged. The
/// feet-carrying variants hold non-negative counts here, as the parser's digit
/// grammar has no sign.
pub proof fn lemma_altitude_round_trip(a: AltV)
    requires
        match a {
            AltV::Gnd => true,
            AltV::FeetAmsl(n) => 0 <= n <= 2147483647,
            AltV::FeetAgl(n) => 0 <= n <= 2147483647,
            AltV::FlightLevel(n) => 0 <= n <= 65535,
            AltV::Unlimited => true,
            AltV::Other(_) => false,
        },
    ensures
        spec_parse_altitude(spec_render_altitude(a)) == Result::<AltV, AltErr>::Ok(a),
{
    reveal_strlit("GND");
    reveal_strlit("gnd");
    reveal_strlit("sfc");
    reveal_strlit("0");
    reveal_strlit("UNLIM");
    reveal_strlit("unl");
    reveal_strlit("unlim");
    reveal_strlit("unltd");
    reveal_strlit("unlimited");
    reveal_strlit("FL");
    reveal_strlit("fl");
    reveal_strlit("ft AMSL");
    reveal_strlit("ft AGL");
    reveal_strlit("amsl");
    reveal_strlit("msl");
    reveal_strlit("agl");
    reveal_strlit("m");
    reveal_strlit("ft");
    match a {
        AltV::Gnd => {
            let s = "GND"@;
            assert(s.len() == 3 && s[0] == 'G' && s[1] == 'N' && s[2] == 'D');
            assert(eq_ci(s, "gnd"@)) by {
                assert forall|i: int| 0 <= i < 3 implies crate::chars::lower_code(s[i])
                    == crate::chars::lower_code("gnd"@[i]) by {
                    if i == 0 {
                    } else if i == 1 {
                    } else {
                    }
                }
            }
        },
        AltV::Unlimited => {
            let s = "UNLIM"@;
            assert(s.len() == 5);
            assert(!eq_ci(s, "gnd"@) && !eq_ci(s, "sfc"@));
            assert(s != "0"@);
            assert(!eq_ci(s, "unl"@));
            assert(eq_ci(s, "unlim"@)) by {
                assert forall|i: int| 0 <= i < 5 implies crate::chars::lower_code(s[i])
                    == crate::chars::lower_code("unlim"@[i]) by {
                    if i == 0 {
                    } else if i == 1 {
                    } else if i == 2 {
                    } else if i == 3 {
                    } else {
                    }
                }
            }
        },
        AltV::FlightLevel(n) => {
            let d = crate::chars::dec_rep(n as nat);
            crate::chars::lemma_dec_rep(n as nat);
            let s = "FL"@ + d;
            assert(spec_render_altitude(a) == s);
            assert(s.len() >= 3);
            assert(s[0] == 'F');
            assert(crate::chars::lower_code('F') == 102);
            assert(!eq_ci(s, "gnd"@)) by {
                if eq_ci(s, "gnd"@) {
                    assert(crate::chars::lower_code(s[0]) == crate::chars::lower_code('g'));
                }
            }
            assert(!eq_ci(s, "sfc"@)) by {
                if eq_ci(s, "sfc"@) {
                    assert(crate::chars::lower_code(s[0]) == crate::chars::lower_code('s'));
                }
            }
            assert(s != "0"@);
            assert(!eq_ci(s, "unl"@) && !eq_ci(s, "unlim"@) && !eq_ci(s, "unltd"@) && !eq_ci(
                s,
                "unlimited"@,
            )) by {
                assert(crate::chars::lower_code('u') == 117);
                if eq_ci(s, "unl"@) {
                    assert(crate::chars::lower_code(s[0]) == crate::chars::lower_code("unl"@[0]));
                }
                if eq_ci(s, "unlim"@) {
                    assert(crate::chars::lower_code(s[0]) == crate::chars::lower_code("unlim"@[0]));
                }
                if eq_ci(s, "unltd"@) {
                    assert(crate::chars::lower_code(s[0]) == crate::chars::lower_code("unltd"@[0]));
                }
                if eq_ci(s, "unlimited"@) {
                    assert(crate::chars::lower_code(s[0]) == crate::chars::lower_code(
                        "unlimited"@[0],
                    ));
                }
            }
            assert(s.subrange(0, 2) =~= "FL"@);
            assert(eq_ci("FL"@, "fl"@)) by {
                assert forall|i: int| 0 <= i < 2 implies crate::chars::lower_code("FL"@[i])
                    == crate::chars::lower_code("fl"@[i]) by {
                    if i == 0 {
                    } else {
                    }
                }
            }
            let t0 = s.subrange(2, s.len() as int);
            assert(t0 =~= d);
            lemma_digits_not_space(d);
            crate::chars::lemma_trimmed_id(d);
            assert(trimmed(t0) == d);
            assert(d[0] != '+') by {
                assert(crate::chars::is_digit(d[0]));
            }
            assert(spec_parse_u16(d) == Some(n));
        },
        AltV::FeetAmsl(n) => {
            lemma_feet_round_trip(n, true);
        },
        AltV::FeetAgl(n) => {
            lemma_feet_round_trip(n, false);
        },
        AltV::Other(_) => {},
    }
}

/// The feet-above cases of the altitude round trip, shared between the two
/// reference datums.
proof fn lemma_feet_round_trip(n: int, amsl: bool)
    requires
        0 <= n <= 2147483647,
    ensures
        amsl ==> spec_parse_altitude(spec_render_altitude(AltV::FeetAmsl(n)))
            == Result::<AltV, AltErr>::Ok(AltV::FeetAmsl(n)),
        !amsl ==> spec_parse_altitude(spec_render_altitude(AltV::FeetAgl(n)))
            == Result::<AltV, AltErr>::Ok(AltV::FeetAgl(n)),
{
    reveal_strlit("gnd");
    reveal_strlit("sfc");
    reveal_strlit("0");
    reveal_strlit("unl");
    reveal_strlit("unlim");
    reveal_strlit("unltd");
    reveal_strlit("unlimited");
    reveal_strlit("fl");
    reveal_strlit("ft AMSL");
    reveal_strlit("ft AGL");
    reveal_strlit("amsl");
    reveal_strlit("AMSL");
    reveal_strlit("msl");
    reveal_strlit("agl");
    reveal_strlit("AGL");
    reveal_strlit("m");
    reveal_strlit("ft");
    let d = crate::chars::dec_rep(n as nat);
    crate::chars::lemma_dec_rep(n as nat);
    let suffix = if amsl {
        "ft AMSL"@
    } else {
        "ft AGL"@
    };
    let suflen: int = if amsl {
        7
    } else {
        6
    };
    assert(suffix.len() == suflen);
    assert(suffix[0] == 'f' && suffix[1] == 't' && suffix[2] == ' ');
    let s = d + suffix;
    assert(int_rep(n) == d);
    assert(spec_render_altitude(AltV::FeetAmsl(n)) == s || !amsl);
    assert(s.len() == d.len() + suflen);
    assert(s[0] == d[0]);
    assert(crate::chars::is_digit(s[0]));
    lemma_digit_head_refutes(s, "gnd"@);
    lemma_digit_head_refutes(s, "sfc"@);
    lemma_digit_head_refutes(s, "unl"@);
    lemma_digit_head_refutes(s, "unlim"@);
    lemma_digit_head_refutes(s, "unltd"@);
    lemma_digit_head_refutes(s, "unlimited"@);
    assert(s != "0"@) by {
        if s == "0"@ {
            assert(s.len() == 1);
        }
    }
    assert(!eq_ci(s.subrange(0, 2), "fl"@)) by {
        assert(s.subrange(0, 2)[0] == s[0]);
        lemma_digit_head_refutes(s.subrange(0, 2), "fl"@);
    }
    let e = crate::chars::digit_run_end(s, 0);
    assert(e == d.len()) by {
        assert(forall|j: int| 0 <= j < d.len() ==> crate::chars::is_digit(s[j]));
        assert(s[d.len() as int] == 'f');
        crate::chars::lemma_digit_run_end_is(s, 0, d.len() as int);
    }
    assert(s.subrange(0, e) =~= d);
    assert(crate::chars::digits_val(s.subrange(0, e)) == n);
    let t0 = s.subrange(e, s.len() as int);
    assert(t0 =~= suffix);
    crate::chars::lemma_trimmed_id(suffix);
    let rest = trimmed(t0);
    assert(rest == suffix);
    assert(!spec_is_amsl_suffix(rest) && !spec_is_agl_suffix(rest)) by {
        assert(rest.len() == suflen && suflen >= 6);
    }
    let sp = crate::chars::find_space(rest, 0);
    assert(sp == 2) by {
        crate::chars::lemma_find_space_is(rest, 0, 2);
    }
    let unit = rest.subrange(0, 2);
    assert(unit =~= "ft"@);
    assert(!eq_ci(unit, "m"@));
    assert(eq_ci(unit, "ft"@)) by {
        assert(forall|i: int|
            0 <= i < 2 ==> crate::chars::lower_code(unit[i]) == crate::chars::lower_code(
                #[trigger] "ft"@[i],
            ));
    }
    let tail = rest.subrange(2, rest.len() as int);
    let reference = trimmed(tail);
    if amsl {
        assert(tail =~= seq![' ', 'A', 'M', 'S', 'L']);
        assert(reference =~= "AMSL"@) by {
            crate::chars::lemma_skip_spaces_is(tail, 0, 1);
            crate::chars::lemma_rskip_spaces_is(tail, 5, 5);
        }
        assert(eq_ci(reference, "amsl"@)) by {
            assert(reference =~= "AMSL"@) by {
                crate::chars::lemma_skip_spaces_is(tail, 0, 1);
                crate::chars::lemma_rskip_spaces_is(tail, 5, 5);
            }
            assert forall|i: int| 0 <= i < 4 implies crate::chars::lower_code(reference[i])
                == crate::chars::lower_code("amsl"@[i]) by {
                if i == 0 {
                } else if i == 1 {
                } else if i == 2 {
                } else {
                }
            }
        }
        assert(spec_is_amsl_suffix(reference));
    } else {
        assert(tail =~= seq![' ', 'A', 'G', 'L']);
        assert(reference =~= "AGL"@) by {
            crate::chars::lemma_skip_spaces_is(tail, 0, 1);
            crate::chars::lemma_rskip_spaces_is(tail, 4, 4);
        }
        assert(eq_ci(reference, "agl"@)) by {
            assert(reference =~= "AGL"@) by {
                crate::chars::lemma_skip_spaces_is(tail, 0, 1);
                crate::chars::lemma_rskip_spaces_is(tail, 4, 4);
            }
            assert forall|i: int| 0 <= i < 3 implies crate::chars::lower_code(reference[i])
                == crate::chars::lower_code("agl"@[i]) by {
                if i == 0 {
                } else if i == 1 {
                } else {
                }
            }
        }
        assert(!spec_is_amsl_suffix(reference)) by {
            assert(reference.len() == 3);
            assert(reference[0] == 'A');
            assert(crate::chars::lower_code('A') == 97);
            if eq_ci(reference, "msl"@) {
                assert(crate::chars::lower_code(reference[0]) == crate::chars::lower_code(
                    "msl"@[0],
                ));
            }
        }
        assert(spec_is_agl_suffix(reference));
    }
}

/// The trimmed copy of `v`, with its view equal to `trimmed(v@)`.
pub fn trim_vec(v: &Vec<char>) -> (r: Vec<char>)
    ensures
        r@ == trimmed(v@),
{
    let n = v.len();
    let a = exec_skip_spaces(v, 0);
    let b = exec_rskip_spaces(v, n);
    if a <= b {
        subvec(v, a, b)
    } else {
        let r: Vec<char> = Vec::new();
        assert(r@ =~= trimmed(v@));
        r
    }
}

/// Reads `str::parse::<u16>` applied to the trimmed view of `v`.
fn parse_u16_trimmed(v: &Vec<char>) -> (r: Option<u16>)
    ensures
        match r {
            Some(val) => spec_parse_u16(trimmed(v@)) == Some(val as int),
            None => spec_parse_u16(trimmed(v@)) is None,
        },
{
    let t = trim_vec(v);
    let tn = t.len();
    let d0: usize = if tn >= 1 && t[0] == '+' {
        1
    } else {
        0
    };
    let ghost d = if trimmed(v@).len() >= 1 && trimmed(v@)[0] == '+' {
        trimmed(v@).subrange(1, trimmed(v@).len() as int)
    } else {
        trimmed(v@)
    };
    assert(d =~= t@.subrange(d0 as int, tn as int));
    if d0 == tn {
        return None;
    }
    if !all_digits_range(&t, d0, tn) {
        return None;
    }
    match parse_digits_capped(&t, d0, tn, 65535) {
        Some(u) => Some(u as u16),
        None => None,
    }
}

/// Whether every character of `v[from..to]` is a decimal digit.
pub fn all_digits_range(v: &Vec<char>, from: usize, to: usize) -> (r: bool)
    requires
        from <= to <= v@.len(),
    ensures
        r == all_digits(v@.subrange(from as int, to as int)),
{
    let mut i = from;
    while i < to
        invariant
            from <= i <= to <= v@.len(),
            forall|j: int| from <= j < i ==> crate::chars::is_digit(v@[j]),
        decreases to - i,
    {
        if !crate::chars::exec_is_digit(v[i]) {
            assert(v@.subrange(from as int, to as int)[i - from] == v@[i as int]);
            return false;
        }
        i += 1;
    }
    assert(forall|j: int|
        0 <= j < to - from ==> crate::chars::is_digit(
            #[trigger] v@.subrange(from as int, to as int)[j],
        ));
    true
}

/// A suffix meaning above mean sea level.
fn exec_is_amsl_suffix(v: &Vec<char>, from: usize, to: usize) -> (r: bool)
    requires
        from <= to <= v@.len(),
    ensures
        r == spec_is_amsl_suffix(v@.subrange(from as int, to as int)),
{
    from == to || chars_eq_str_ci(v, from, to, "amsl") || chars_eq_str_ci(v, from, to, "msl")
}

/// A suffix meaning above ground level.
fn exec_is_agl_suffix(v: &Vec<char>, from: usize, to: usize) -> (r: bool)
    requires
        from <= to <= v@.len(),
    ensures
        r == spec_is_agl_suffix(v@.subrange(from as int, to as int)),
{
    chars_eq_str_ci(v, from, to, "agl") || chars_eq_str_ci(v, from, to, "gnd") || chars_eq_str_ci(
        v,
        from,
        to,
        "sfc",
    )
}

} // verus!
