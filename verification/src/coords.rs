//! Coordinate pairs: the lenient notation parser and the arc-second writer.
//!
//! A coordinate half is held in milliarcseconds, an exact integer unit fine
//! enough for the notation's degrees, minutes, seconds and up to three
//! fractional digits of a second (or four fractional digits of a minute);
//! further fractional digits are beyond the resolution and are ignored.
use vstd::prelude::*;

use crate::chars::{
    digit_run_end, digits_val, frac_run_end, pow10, skip_spaces, trimmed, dec_rep_pad,
    exec_digit_run_end, exec_frac_run_end, exec_skip_spaces, parse_digits_capped, chars_of,
    push_dec_pad, string_of, all_digits,
};
use crate::altitude::{all_digits_range, trim_vec};

verus! {

broadcast use vstd::string::group_string_axioms;

/// A coordinate pair (WGS84), each half in signed milliarcseconds.
///
/// One degree is 3 600 000 milliarcseconds; south and west are negative.
#[derive(Debug, PartialEq, Eq, Clone, Copy, Structural)]
pub struct Coord {
    /// Latitude in milliarcseconds.
    pub lat_mas: i64,
    /// Longitude in milliarcseconds.
    pub lng_mas: i64,
}

/// The largest latitude magnitude the parser can produce: degrees bounded by
/// 90, two-digit minutes and seconds (values up to 99 are accepted by the
/// lenient grammar), and a fractional second below one.
pub open spec fn lat_mas_limit() -> int {
    330039999
}

/// The largest longitude magnitude the parser can produce.
pub open spec fn lng_mas_limit() -> int {
    654039999
}

impl Coord {
    /// Magnitudes a parsed coordinate obeys and the writer relies on.
    pub open spec fn wf(&self) -> bool {
        -lat_mas_limit() <= self.lat_mas <= lat_mas_limit() && -lng_mas_limit() <= self.lng_mas
            <= lng_mas_limit()
    }
}

/// Milliarcseconds contributed by the fractional digits of a decimal minute.
/// Only the first four digits are within resolution.
pub open spec fn ddm_frac_mas(fd: Seq<char>) -> int {
    let k = if fd.len() < 4 {
        fd.len() as int
    } else {
        4
    };
    digits_val(fd.take(k)) * 6 * (pow10((4 - k) as nat) as int)
}

/// Milliarcseconds contributed by the fractional digits of a second.
pub open spec fn sec_frac_mas(fd: Seq<char>) -> int {
    crate::chars::frac_milli(fd)
}

/// One coordinate half starting at `i`: degrees, a colon, minutes, and either
/// a decimal fraction of minutes or a colon and seconds. Returns the
/// magnitude in milliarcseconds and the index after the consumed text.
pub open spec fn spec_parse_comp(s: Seq<char>, i: int, is_lat: bool) -> Option<(int, int)>
    recommends
        0 <= i <= s.len(),
{
    let e = digit_run_end(s, i);
    let max_digits: int = if is_lat {
        2
    } else {
        3
    };
    if e == s.len() || e - i > max_digits || e == i {
        None
    } else {
        let deg = digits_val(s.subrange(i, e)) as int;
        if (is_lat && deg > 90) || (!is_lat && deg > 180) {
            None
        } else if s[e] != ':' {
            None
        } else {
            let m0 = e + 1;
            let m1 = digit_run_end(s, m0);
            if m1 == s.len() || m1 - m0 > 2 || m1 == m0 {
                None
            } else {
                let minutes = digits_val(s.subrange(m0, m1)) as int;
                if s[m1] == '.' {
                    spec_parse_ddm_frac(s, m1, deg, minutes)
                } else if s[m1] != ':' {
                    None
                } else {
                    spec_parse_seconds(s, m1 + 1, deg, minutes)
                }
            }
        }
    }
}

/// The decimal-minutes tail: a dot and fractional digits.
pub open spec fn spec_parse_ddm_frac(s: Seq<char>, m1: int, deg: int, minutes: int) -> Option<
    (int, int),
>
    recommends
        0 <= m1 < s.len(),
{
    let f1 = frac_run_end(s, m1);
    let fd = s.subrange(m1 + 1, f1);
    if f1 == m1 + 1 || !all_digits(fd) {
        None
    } else {
        Some((deg * 3600000 + minutes * 60000 + ddm_frac_mas(fd), f1))
    }
}

/// The seconds tail: an integer part of at most two digits and an optional
/// decimal fraction.
pub open spec fn spec_parse_seconds(s: Seq<char>, s0: int, deg: int, minutes: int) -> Option<
    (int, int),
>
    recommends
        0 <= s0 <= s.len(),
{
    let s1 = digit_run_end(s, s0);
    if s1 - s0 > 2 {
        None
    } else {
        let s2 = frac_run_end(s, s0);
        let fd = if s1 < s2 {
            s.subrange(s1 + 1, s2)
        } else {
            Seq::<char>::empty()
        };
        let has_digit = s1 > s0 || (s1 < s2 && s2 > s1 + 1);
        if !has_digit || !all_digits(fd) {
            None
        } else {
            let secs = digits_val(s.subrange(s0, s1)) as int;
            Some((deg * 3600000 + minutes * 60000 + secs * 1000 + sec_frac_mas(fd), s2))
        }
    }
}

/// The direction letter after a coordinate half; `true` means the negative
/// direction (south or west).
pub open spec fn spec_parse_direction_letter(s: Seq<char>, i: int, is_lat: bool) -> Option<
    (bool, int),
>
    recommends
        0 <= i <= s.len(),
{
    let j = skip_spaces(s, i);
    if j == s.len() {
        None
    } else {
        let c = s[j];
        if is_lat {
            if c == 'N' || c == 'n' {
                Some((false, j + 1))
            } else if c == 'S' || c == 's' {
                Some((true, j + 1))
            } else {
                None
            }
        } else {
            if c == 'E' || c == 'e' {
                Some((false, j + 1))
            } else if c == 'W' || c == 'w' {
                Some((true, j + 1))
            } else {
                None
            }
        }
    }
}

/// A whole coordinate pair: latitude half and letter, optional comma,
/// longitude half and letter; anything after the longitude letter is ignored.
pub open spec fn spec_parse_coord(s: Seq<char>) -> Option<Coord> {
    let t = trimmed(s);
    match spec_parse_comp(t, 0, true) {
        None => None,
        Some((lat_abs, i1)) => match spec_parse_direction_letter(t, i1, true) {
            None => None,
            Some((lat_neg, i2)) => {
                let i3 = skip_spaces(t, i2);
                let i4 = if i3 < t.len() && t[i3] == ',' {
                    i3 + 1
                } else {
                    i3
                };
                let i5 = skip_spaces(t, i4);
                match spec_parse_comp(t, i5, false) {
                    None => None,
                    Some((lng_abs, i6)) => match spec_parse_direction_letter(t, i6, false) {
                        None => None,
                        Some((lng_neg, _)) => Some(
                            Coord {
                                lat_mas: (if lat_neg {
                                    -lat_abs
                                } else {
                                    lat_abs
                                }) as i64,
                                lng_mas: (if lng_neg {
                                    -lng_abs
                                } else {
                                    lng_abs
                                }) as i64,
                            },
                        ),
                    },
                }
            },
        },
    }
}

/// One written coordinate half: the magnitude rounded to whole arc-seconds,
/// decomposed with carry, zero-padded, and closed by the direction letter.
pub open spec fn spec_render_half(mas: int, is_lat: bool) -> Seq<char> {
    let a = if mas < 0 {
        -mas
    } else {
        mas
    };
    let t = (a + 500) / 1000;
    let deg = t / 3600;
    let minutes = (t % 3600) / 60;
    let secs = t % 60;
    let width: nat = if is_lat {
        2
    } else {
        3
    };
    let letter = if is_lat {
        if mas < 0 {
            'S'
        } else {
            'N'
        }
    } else {
        if mas < 0 {
            'W'
        } else {
            'E'
        }
    };
    dec_rep_pad(deg as nat, width) + seq![':'] + dec_rep_pad(minutes as nat, 2) + seq![':']
        + dec_rep_pad(secs as nat, 2) + seq![' '] + seq![letter]
}

/// The written coordinate pair.
pub open spec fn spec_render_coord(c: Coord) -> Seq<char> {
    spec_render_half(c.lat_mas as int, true) + seq![' '] + spec_render_half(
        c.lng_mas as int,
        false,
    )
}

/// Reads one coordinate half of `v` starting at `i`.
fn parse_comp(v: &Vec<char>, i: usize, is_lat: bool) -> (r: Option<(i64, usize)>)
    requires
        i <= v@.len(),
    ensures
        match r {
            Some((mas, next)) => {
                &&& spec_parse_comp(v@, i as int, is_lat) == Some((mas as int, next as int))
                &&& i <= next <= v@.len()
                &&& 0 <= mas <= (if is_lat {
                    lat_mas_limit()
                } else {
                    lng_mas_limit()
                })
            },
            None => spec_parse_comp(v@, i as int, is_lat) is None,
        },
{
    let n = v.len();
    let e = exec_digit_run_end(v, i);
    let max_digits: usize = if is_lat {
        2
    } else {
        3
    };
    if e == n || e - i > max_digits || e == i {
        return None;
    }
    proof {
        crate::chars::lemma_digit_run_end(v@, i as int);
        assert(forall|j: int|
            0 <= j < e - i ==> crate::chars::is_digit(#[trigger] v@.subrange(i as int, e as int)[j]));
    }
    let deg = match parse_digits_capped(v, i, e, 999) {
        Some(u) => u,
        None => {
            proof {
                crate::chars::lemma_pow10_values();
                crate::chars::lemma_digits_val_bound(v@.subrange(i as int, e as int));
                crate::chars::lemma_pow10_le(v@.subrange(i as int, e as int).len(), 3);
            }
            assert(false);
            0
        },
    };
    if (is_lat && deg > 90) || (!is_lat && deg > 180) {
        return None;
    }
    if v[e] != ':' {
        return None;
    }
    let m0 = e + 1;
    let m1 = exec_digit_run_end(v, m0);
    if m1 == n || m1 - m0 > 2 || m1 == m0 {
        return None;
    }
    proof {
        crate::chars::lemma_digit_run_end(v@, m0 as int);
        assert(forall|j: int|
            0 <= j < m1 - m0 ==> crate::chars::is_digit(
                #[trigger] v@.subrange(m0 as int, m1 as int)[j],
            ));
    }
    let minutes = match parse_digits_capped(v, m0, m1, 99) {
        Some(u) => u,
        None => {
            proof {
                crate::chars::lemma_pow10_values();
                crate::chars::lemma_digits_val_bound(v@.subrange(m0 as int, m1 as int));
                crate::chars::lemma_pow10_le(v@.subrange(m0 as int, m1 as int).len(), 2);
            }
            assert(false);
            0
        },
    };
    if v[m1] == '.' {
        // decimal minutes
        let f1 = exec_frac_run_end(v, m1);
        proof {
            crate::chars::lemma_frac_run_end(v@, m1 as int);
            assert(f1 != m1);
        }
        if f1 == m1 + 1 || !all_digits_range(v, m1 + 1, f1) {
            return None;
        }
        let fmas = frac_scaled(v, m1 + 1, f1, 4, 6);
        proof {
            crate::chars::lemma_pow10_values();
        }
        assert(fmas < 60000);
        assert(fmas == ddm_frac_mas(v@.subrange(m1 + 1, f1 as int)));
        let mas: i64 = deg as i64 * 3600000 + minutes as i64 * 60000 + fmas as i64;
        Some((mas, f1))
    } else if v[m1] != ':' {
        None
    } else {
        let s0 = m1 + 1;
        let s1 = exec_digit_run_end(v, s0);
        if s1 - s0 > 2 {
            return None;
        }
        let s2 = exec_frac_run_end(v, s0);
        proof {
            crate::chars::lemma_digit_run_end(v@, s0 as int);
            crate::chars::lemma_frac_run_end(v@, s0 as int);
        }
        let has_digit = s1 > s0 || (s1 < s2 && s2 > s1 + 1);
        if !has_digit {
            return None;
        }
        if s1 < s2 && !all_digits_range(v, s1 + 1, s2) {
            return None;
        }
        proof {
            if s1 >= s2 {
                assert(s1 == s2);
            }
            assert(forall|j: int|
                0 <= j < s1 - s0 ==> crate::chars::is_digit(
                    #[trigger] v@.subrange(s0 as int, s1 as int)[j],
                ));
        }
        let secs = match parse_digits_capped(v, s0, s1, 99) {
            Some(u) => u,
            None => {
                proof {
                    crate::chars::lemma_pow10_values();
                    crate::chars::lemma_digits_val_bound(v@.subrange(s0 as int, s1 as int));
                    crate::chars::lemma_pow10_le(v@.subrange(s0 as int, s1 as int).len(), 2);
                }
                assert(false);
                0
            },
        };
        let fmas = if s1 < s2 {
            let fm = frac_scaled(v, s1 + 1, s2, 3, 1);
            proof {
                crate::chars::lemma_pow10_values();
            }
            assert(fm < 1000);
            fm
        } else {
            proof {
                lemma_sec_frac_empty();
            }
            0
        };
        assert(fmas == sec_frac_mas(
            if s1 < s2 {
                v@.subrange(s1 + 1, s2 as int)
            } else {
                Seq::<char>::empty()
            },
        ));
        let mas: i64 = deg as i64 * 3600000 + minutes as i64 * 60000 + secs as i64 * 1000
            + fmas as i64;
        Some((mas, s2))
    }
}

/// Value of the first `width` fractional digits of `v[from..to]`, scaled by
/// `unit * 10^(width - taken)`.
fn frac_scaled(v: &Vec<char>, from: usize, to: usize, width: u64, unit: u64) -> (r: u64)
    requires
        from <= to <= v@.len(),
        all_digits(v@.subrange(from as int, to as int)),
        1 <= width <= 4,
        1 <= unit <= 6,
    ensures
        ({
            let fd = v@.subrange(from as int, to as int);
            let k = if fd.len() < width {
                fd.len() as int
            } else {
                width as int
            };
            r == digits_val(fd.take(k)) * unit * pow10((width - k) as nat)
        }),
        r < unit * pow10(width as nat),
{
    let ghost fd = v@.subrange(from as int, to as int);
    let avail: u64 = (to - from) as u64;
    let k: u64 = if avail < width {
        avail
    } else {
        width
    };
    let kk = k as usize;
    proof {
        assert(fd.take(k as int) =~= v@.subrange(from as int, from + k as int));
        assert(forall|j: int|
            0 <= j < k ==> crate::chars::is_digit(
                #[trigger] v@.subrange(from as int, from + k as int)[j],
            ));
    }
    let val = match parse_digits_capped(v, from, from + kk, 9999) {
        Some(u) => u,
        None => {
            proof {
                crate::chars::lemma_pow10_values();
                crate::chars::lemma_digits_val_bound(v@.subrange(from as int, from + k as int));
                crate::chars::lemma_pow10_le(v@.subrange(from as int, from + k as int).len(), 4);
            }
            assert(false);
            0
        },
    };
    let scale: u64 = match width - k {
        0 => 1,
        1 => 10,
        2 => 100,
        3 => 1000,
        _ => 10000,
    };
    proof {
        crate::chars::lemma_pow10_values();
        crate::chars::lemma_digits_val_bound(fd.take(k as int));
        crate::chars::lemma_pow10_adds(k as nat, (width - k) as nat);
        let dv = digits_val(fd.take(k as int)) as int;
        let pk = pow10(k as nat) as int;
        let sc = pow10((width - k) as nat) as int;
        assert(scale == sc);
        assert(dv * unit * sc < unit * (pk * sc)) by (nonlinear_arith)
            requires
                dv < pk,
                1 <= unit as int,
                1 <= sc,
                0 <= dv,
        ;
        assert(val * unit <= 9999 * 6) by (nonlinear_arith)
            requires
                0 <= val <= 9999,
                0 <= unit <= 6,
        ;
        assert(val * unit * scale <= 59994 * 10000) by (nonlinear_arith)
            requires
                0 <= val * unit <= 59994,
                0 <= scale <= 10000,
        ;
    }
    let prod: u64 = val * unit;
    prod * scale
}

impl Coord {
    /// Decodes a coordinate pair; a failure of any part is one uniform hard
    /// failure naming the whole fragment.
    pub fn parse(data: &str) -> (r: Result<Coord, String>)
        ensures
            match r {
                Ok(c) => spec_parse_coord(data@) == Some(c) && c.wf(),
                Err(m) => spec_parse_coord(data@) is None && m@ == "Invalid coord: \""@ + data@
                    + "\""@,
            },
    {
        let v = chars_of(data);
        let t = trim_vec(&v);
        let n = t.len();
        let lat_pair = parse_comp(&t, 0, true);
        match lat_pair {
            None => Err(coord_err(data)),
            Some((lat_abs, i1)) => {
                match parse_direction_letter(&t, i1, true) {
                    None => Err(coord_err(data)),
                    Some((lat_neg, i2)) => {
                        let i3 = exec_skip_spaces(&t, i2);
                        let i4: usize = if i3 < n && t[i3] == ',' {
                            i3 + 1
                        } else {
                            i3
                        };
                        let i5 = exec_skip_spaces(&t, i4);
                        match parse_comp(&t, i5, false) {
                            None => Err(coord_err(data)),
                            Some((lng_abs, i6)) => {
                                match parse_direction_letter(&t, i6, false) {
                                    None => Err(coord_err(data)),
                                    Some((lng_neg, _)) => {
                                        let lat_mas: i64 = if lat_neg {
                                            -lat_abs
                                        } else {
                                            lat_abs
                                        };
                                        let lng_mas: i64 = if lng_neg {
                                            -lng_abs
                                        } else {
                                            lng_abs
                                        };
                                        Ok(Coord { lat_mas, lng_mas })
                                    },
                                }
                            },
                        }
                    },
                }
            },
        }
    }

    /// Writes the coordinate pair as zero-padded degrees, minutes and whole
    /// arc-seconds with direction letters.
    pub fn write(&self) -> (r: String)
        requires
            self.wf(),
        ensures
            r@ == spec_render_coord(*self),
    {
        let mut out: Vec<char> = Vec::new();
        push_half(&mut out, self.lat_mas, true);
        out.push(' ');
        push_half(&mut out, self.lng_mas, false);
        proof {
            assert(out@ =~= spec_render_coord(*self));
        }
        string_of(&out)
    }
}

/// Appends one written coordinate half.
fn push_half(out: &mut Vec<char>, mas: i64, is_lat: bool)
    requires
        -lng_mas_limit() <= mas <= lng_mas_limit(),
    ensures
        final(out)@ == old(out)@ + spec_render_half(mas as int, is_lat),
{
    let a: i64 = if mas < 0 {
        -mas
    } else {
        mas
    };
    let t: i64 = (a + 500) / 1000;
    let deg: i64 = t / 3600;
    let minutes: i64 = (t % 3600) / 60;
    let secs: i64 = t % 60;
    let width: u64 = if is_lat {
        2
    } else {
        3
    };
    let letter: char = if is_lat {
        if mas < 0 {
            'S'
        } else {
            'N'
        }
    } else {
        if mas < 0 {
            'W'
        } else {
            'E'
        }
    };
    push_dec_pad(out, deg as u64, width);
    out.push(':');
    push_dec_pad(out, minutes as u64, 2);
    out.push(':');
    push_dec_pad(out, secs as u64, 2);
    out.push(' ');
    out.push(letter);
    proof {
        assert(final(out)@ =~= old(out)@ + spec_render_half(mas as int, is_lat));
    }
}

/// The empty fraction contributes nothing.
proof fn lemma_sec_frac_empty()
    ensures
        sec_frac_mas(Seq::<char>::empty()) == 0,
{
    assert(Seq::<char>::empty().take(0) =~= Seq::<char>::empty());
    assert(digits_val(Seq::<char>::empty()) == 0);
}

/// Parsing one written coordinate half, in place inside a larger sequence,
/// recovers its magnitude and sign.
proof fn lemma_parse_half_at(s: Seq<char>, off: int, mas: int, is_lat: bool)
    requires
        0 <= off,
        mas % 1000 == 0,
        is_lat ==> -324000000 <= mas <= 324000000,
        !is_lat ==> -648000000 <= mas <= 648000000,
        s.len() >= off + (if is_lat {
            10int
        } else {
            11int
        }),
        s.subrange(
            off,
            off + (if is_lat {
                10int
            } else {
                11int
            }),
        ) == spec_render_half(mas, is_lat),
    ensures
        ({
            let w: int = if is_lat {
                2
            } else {
                3
            };
            let a: int = if mas < 0 {
                -mas
            } else {
                mas
            };
            spec_parse_comp(s, off, is_lat) == Some((a, off + w + 6)) && spec_parse_direction_letter(
                s,
                off + w + 6,
                is_lat,
            ) == Some((mas < 0, off + w + 8))
        }),
{
    crate::chars::lemma_pow10_values();
    let w: int = if is_lat {
        2
    } else {
        3
    };
    let a: int = if mas < 0 {
        -mas
    } else {
        mas
    };
    let q = mas / 1000;
    vstd::arithmetic::div_mod::lemma_fundamental_div_mod(mas, 1000);
    assert(mas == 1000 * q);
    let aq: int = if q < 0 {
        -q
    } else {
        q
    };
    assert(a == 1000 * aq);
    let t = (a + 500) / 1000;
    vstd::arithmetic::div_mod::lemma_fundamental_div_mod_converse(a + 500, 1000, aq, 500);
    assert(t == aq);
    let deg = t / 3600;
    let minutes = (t % 3600) / 60;
    let secs = t % 60;
    vstd::arithmetic::div_mod::lemma_fundamental_div_mod(t, 3600);
    vstd::arithmetic::div_mod::lemma_fundamental_div_mod(t % 3600, 60);
    let r60 = (t % 3600) % 60;
    assert(t == 60 * (60 * deg + minutes) + r60);
    vstd::arithmetic::div_mod::lemma_fundamental_div_mod_converse(t, 60, 60 * deg + minutes, r60);
    assert(r60 == secs);
    assert(t == deg * 3600 + minutes * 60 + secs);
    assert(0 <= deg);
    assert(deg <= 180) by {
        if deg > 180 {
            assert(t >= 3600 * deg);
        }
    }
    assert(is_lat ==> deg <= 90) by {
        if is_lat && deg > 90 {
            assert(t >= 3600 * deg);
        }
    }
    assert(0 <= minutes < 60 && 0 <= secs < 60);
    let pd = dec_rep_pad(deg as nat, w as nat);
    let pm = dec_rep_pad(minutes as nat, 2);
    let ps = dec_rep_pad(secs as nat, 2);
    crate::chars::lemma_dec_rep_pad(deg as nat, w as nat);
    crate::chars::lemma_dec_rep_pad(minutes as nat, 2);
    crate::chars::lemma_dec_rep_pad(secs as nat, 2);
    let letter: char = if is_lat {
        if mas < 0 {
            'S'
        } else {
            'N'
        }
    } else {
        if mas < 0 {
            'W'
        } else {
            'E'
        }
    };
    let h = spec_render_half(mas, is_lat);
    assert(h == pd + seq![':'] + pm + seq![':'] + ps + seq![' '] + seq![letter]);
    assert(h.len() == w + 8);
    // the characters of the half, read off the concatenation
    assert(forall|j: int| 0 <= j < w ==> h[j] == pd[j]);
    assert(h[w] == ':');
    assert(forall|j: int| 0 <= j < 2 ==> h[w + 1 + j] == pm[j]);
    assert(h[w + 3] == ':');
    assert(forall|j: int| 0 <= j < 2 ==> h[w + 4 + j] == ps[j]);
    assert(h[w + 6] == ' ');
    assert(h[w + 7] == letter);
    assert(forall|j: int| off <= j < off + w + 8 ==> s[j] == h[j - off]) by {
        assert(forall|j: int|
            off <= j < off + w + 8 ==> #[trigger] s.subrange(off, off + w + 8)[j - off] == s[j]);
    }
    assert(forall|j: int| off <= j < off + w ==> s[j] == pd[j - off]);
    assert(forall|j: int| off <= j < off + w ==> crate::chars::is_digit(s[j])) by {
        assert(forall|j: int|
            off <= j < off + w ==> crate::chars::is_digit(#[trigger] pd[j - off]));
    }
    assert(s[off + w] == ':');
    assert(forall|j: int| off + w + 1 <= j < off + w + 3 ==> s[j] == pm[j - (off + w + 1)]);
    assert(forall|j: int| off + w + 1 <= j < off + w + 3 ==> crate::chars::is_digit(s[j])) by {
        assert(forall|j: int|
            off + w + 1 <= j < off + w + 3 ==> crate::chars::is_digit(
                #[trigger] pm[j - (off + w + 1)],
            ));
    }
    assert(s[off + w + 3] == ':');
    assert(forall|j: int| off + w + 4 <= j < off + w + 6 ==> s[j] == ps[j - (off + w + 4)]);
    assert(forall|j: int| off + w + 4 <= j < off + w + 6 ==> crate::chars::is_digit(s[j])) by {
        assert(forall|j: int|
            off + w + 4 <= j < off + w + 6 ==> crate::chars::is_digit(
                #[trigger] ps[j - (off + w + 4)],
            ));
    }
    assert(s[off + w + 6] == ' ');
    assert(s[off + w + 7] == letter);
    assert(!crate::chars::is_digit(':')) by {
        assert(':' as u32 == 58);
    }
    assert(!crate::chars::is_digit(' ') && ' ' != '.') by {
        assert(' ' as u32 == 32);
    }
    // degrees
    crate::chars::lemma_digit_run_end_is(s, off, off + w);
    assert(s.subrange(off, off + w) =~= pd);
    assert(digits_val(s.subrange(off, off + w)) == deg);
    // minutes
    crate::chars::lemma_digit_run_end_is(s, off + w + 1, off + w + 3);
    assert(s.subrange(off + w + 1, off + w + 3) =~= pm);
    assert(digits_val(s.subrange(off + w + 1, off + w + 3)) == minutes);
    // seconds
    crate::chars::lemma_digit_run_end_is(s, off + w + 4, off + w + 6);
    crate::chars::lemma_frac_run_end_is(s, off + w + 4, off + w + 6);
    assert(s.subrange(off + w + 4, off + w + 6) =~= ps);
    assert(digits_val(s.subrange(off + w + 4, off + w + 6)) == secs);
    assert(all_digits(Seq::<char>::empty()));
    lemma_sec_frac_empty();
    assert(spec_parse_seconds(s, off + w + 4, deg, minutes) == Some(
        (deg * 3600000 + minutes * 60000 + secs * 1000, off + w + 6),
    ));
    assert(deg * 3600000 + minutes * 60000 + secs * 1000 == t * 1000) by {
        assert(t == deg * 3600 + minutes * 60 + secs);
        vstd::arithmetic::mul::lemma_mul_is_distributive_add_other_way(
            1000,
            deg * 3600 + minutes * 60,
            secs,
        );
        vstd::arithmetic::mul::lemma_mul_is_distributive_add_other_way(
            1000,
            deg * 3600,
            minutes * 60,
        );
        vstd::arithmetic::mul::lemma_mul_is_associative(deg, 3600, 1000);
        vstd::arithmetic::mul::lemma_mul_is_associative(minutes, 60, 1000);
    }
    assert(t * 1000 == a) by {
        assert(a == 1000 * aq && t == aq);
        vstd::arithmetic::mul::lemma_mul_is_commutative(t, 1000);
    }
    assert(spec_parse_comp(s, off, is_lat) == Some((a, off + w + 6)));
    // direction letter
    assert(!crate::chars::is_space(letter));
    crate::chars::lemma_skip_spaces_is(s, off + w + 6, off + w + 7);
    assert(spec_parse_direction_letter(s, off + w + 6, is_lat) == Some((mas < 0, off + w + 8)));
}

/// Coordinate round trip: a coordinate holding whole arc-seconds within the
/// 90- and 180-degree bounds, written and parsed again, comes back unchanged.
#[verifier::rlimit(100)]
pub proof fn lemma_coord_round_trip(c: Coord)
    requires
        c.lat_mas % 1000 == 0,
        c.lng_mas % 1000 == 0,
        -324000000 <= c.lat_mas <= 324000000,
        -648000000 <= c.lng_mas <= 648000000,
    ensures
        spec_parse_coord(spec_render_coord(c)) == Some(c),
{
    let hl = spec_render_half(c.lat_mas as int, true);
    let hg = spec_render_half(c.lng_mas as int, false);
    let s = spec_render_coord(c);
    assert(s == hl + seq![' '] + hg);
    crate::chars::lemma_pow10_values();
    assert(hl.len() == 10 && hg.len() == 11) by {
        lemma_render_half_len(c.lat_mas as int, true);
        lemma_render_half_len(c.lng_mas as int, false);
    }
    assert(s.len() == 22);
    // the whole string neither starts nor ends with whitespace
    assert(s.subrange(0, 10) =~= hl);
    assert(s.subrange(11, 22) =~= hg);
    lemma_parse_half_at(s, 0, c.lat_mas as int, true);
    lemma_parse_half_at(s, 11, c.lng_mas as int, false);
    assert(!crate::chars::is_space(s[0])) by {
        lemma_parse_half_at(s, 0, c.lat_mas as int, true);
        assert(crate::chars::is_digit(s[0])) by {
            let t = ((if c.lat_mas < 0 {
                -c.lat_mas as int
            } else {
                c.lat_mas as int
            }) + 500) / 1000;
            crate::chars::lemma_dec_rep_pad((t / 3600) as nat, 2);
            assert(s[0] == dec_rep_pad((t / 3600) as nat, 2)[0]);
        }
    }
    assert(!crate::chars::is_space(s[21]));
    crate::chars::lemma_trimmed_id(s);
    assert(trimmed(s) == s);
    // walk the middle: the separating space, no comma, then the longitude
    assert(s[10] == ' ');
    assert(crate::chars::is_digit(s[11]));
    crate::chars::lemma_skip_spaces_is(s, 10, 11);
    assert(s[11] != ',');
    crate::chars::lemma_skip_spaces_is(s, 11, 11);
    let a_lat: int = if c.lat_mas < 0 {
        -c.lat_mas as int
    } else {
        c.lat_mas as int
    };
    let a_lng: int = if c.lng_mas < 0 {
        -c.lng_mas as int
    } else {
        c.lng_mas as int
    };
    assert(spec_parse_comp(s, 0, true) == Some((a_lat, 8int)));
    assert(spec_parse_direction_letter(s, 8, true) == Some((c.lat_mas < 0, 10int)));
    assert(spec_parse_comp(s, 11, false) == Some((a_lng, 20int)));
    assert(spec_parse_direction_letter(s, 20, false) == Some((c.lng_mas < 0, 22int)));
    assert(spec_parse_coord(s) == Some(c));
}

/// A written coordinate half is eight characters past its degree digits.
proof fn lemma_render_half_len(mas: int, is_lat: bool)
    ensures
        spec_render_half(mas, is_lat).len() == (if is_lat {
            10int
        } else {
            11int
        }),
{
    let a: int = if mas < 0 {
        -mas
    } else {
        mas
    };
    let t = (a + 500) / 1000;
    let w: nat = if is_lat {
        2
    } else {
        3
    };
    lemma_dec_rep_pad_len(t / 3600, w);
    lemma_dec_rep_pad_len((t % 3600) / 60, 2);
    lemma_dec_rep_pad_len(t % 60, 2);
}

/// The padded form always has exactly its width, whatever the value.
proof fn lemma_dec_rep_pad_len(n: int, width: nat)
    requires
        width >= 1,
    ensures
        dec_rep_pad(n as nat, width).len() == width,
    decreases width,
{
    if width > 1 {
        lemma_dec_rep_pad_len(n as nat as int / 10, (width - 1) as nat);
    }
}

/// Reads the direction letter of one half.
fn parse_direction_letter(v: &Vec<char>, i: usize, is_lat: bool) -> (r: Option<(bool, usize)>)
    requires
        i <= v@.len(),
    ensures
        match r {
            Some((neg, next)) => spec_parse_direction_letter(v@, i as int, is_lat) == Some(
                (neg, next as int),
            ) && next <= v@.len(),
            None => spec_parse_direction_letter(v@, i as int, is_lat) is None,
        },
{
    let n = v.len();
    let j = exec_skip_spaces(v, i);
    if j == n {
        return None;
    }
    let c = v[j];
    if is_lat {
        if c == 'N' || c == 'n' {
            Some((false, j + 1))
        } else if c == 'S' || c == 's' {
            Some((true, j + 1))
        } else {
            None
        }
    } else {
        if c == 'E' || c == 'e' {
            Some((false, j + 1))
        } else if c == 'W' || c == 'w' {
            Some((true, j + 1))
        } else {
            None
        }
    }
}

/// The uniform hard-failure message for a coordinate fragment.
fn coord_err(data: &str) -> (r: String)
    ensures
        r@ == "Invalid coord: \""@ + data@ + "\""@,
{
    String::from_str("Invalid coord: \"").concat(data).concat("\"")
}

} // verus!
