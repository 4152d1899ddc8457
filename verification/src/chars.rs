//! Character-level utilities shared by the parsers and writers:
//! digit runs, decimal values, decimal rendering, whitespace trimming
//! and case-insensitive comparison, all specified over `Seq<char>`.
use vstd::prelude::*;
use vstd::string::StrSliceExecFns;

verus! {

/// Whitespace as the line grammar understands it.
pub open spec fn is_space(c: char) -> bool {
    c == ' ' || c == '\t' || c == '\n' || c == '\r' || c == '\u{0b}' || c == '\u{0c}'
}

pub open spec fn is_digit(c: char) -> bool {
    48 <= c as u32 && c as u32 <= 57
}

/// Numeric value of a decimal digit character.
pub open spec fn digit_val(c: char) -> nat
    recommends
        is_digit(c),
{
    (c as u32 - 48) as nat
}

/// Lower-cased code point, folding only the ASCII letters.
pub open spec fn lower_code(c: char) -> u32 {
    if 65 <= c as u32 && c as u32 <= 90 {
        (c as u32 + 32) as u32
    } else {
        c as u32
    }
}

/// ASCII-case-insensitive equality of two character sequences.
pub open spec fn eq_ci(a: Seq<char>, b: Seq<char>) -> bool {
    a.len() == b.len() && forall|i: int| 0 <= i < a.len() ==> lower_code(a[i]) == lower_code(b[i])
}

pub fn exec_is_space(c: char) -> (r: bool)
    ensures
        r == is_space(c),
{
    c == ' ' || c == '\t' || c == '\n' || c == '\r' || c == '\u{0b}' || c == '\u{0c}'
}

pub fn exec_is_digit(c: char) -> (r: bool)
    ensures
        r == is_digit(c),
{
    let u = c as u32;
    48 <= u && u <= 57
}

pub fn exec_digit_val(c: char) -> (r: u32)
    requires
        is_digit(c),
    ensures
        r == digit_val(c),
{
    c as u32 - 48
}

/// First index at or after `i` that does not hold a decimal digit.
pub open spec fn digit_run_end(s: Seq<char>, i: int) -> int
    recommends
        0 <= i <= s.len(),
    decreases s.len() - i,
{
    if i < s.len() && is_digit(s[i]) {
        digit_run_end(s, i + 1)
    } else {
        i
    }
}

pub proof fn lemma_digit_run_end(s: Seq<char>, i: int)
    requires
        0 <= i <= s.len(),
    ensures
        i <= digit_run_end(s, i) <= s.len(),
        forall|j: int| i <= j < digit_run_end(s, i) ==> is_digit(s[j]),
        digit_run_end(s, i) < s.len() ==> !is_digit(s[digit_run_end(s, i)]),
    decreases s.len() - i,
{
    if i < s.len() && is_digit(s[i]) {
        lemma_digit_run_end(s, i + 1);
    }
}

pub fn exec_digit_run_end(v: &Vec<char>, i: usize) -> (r: usize)
    requires
        i <= v@.len(),
    ensures
        i <= r <= v@.len(),
        r == digit_run_end(v@, i as int),
{
    let n = v.len();
    let mut j = i;
    while j < n && exec_is_digit(v[j])
        invariant
            i <= j <= n,
            n == v@.len(),
            digit_run_end(v@, i as int) == digit_run_end(v@, j as int),
        decreases n - j,
    {
        j += 1;
    }
    j
}

/// First index at or after `i` whose character is neither a digit nor `'.'`.
pub open spec fn frac_run_end(s: Seq<char>, i: int) -> int
    recommends
        0 <= i <= s.len(),
    decreases s.len() - i,
{
    if i < s.len() && (is_digit(s[i]) || s[i] == '.') {
        frac_run_end(s, i + 1)
    } else {
        i
    }
}

pub proof fn lemma_frac_run_end(s: Seq<char>, i: int)
    requires
        0 <= i <= s.len(),
    ensures
        i <= frac_run_end(s, i) <= s.len(),
        forall|j: int| i <= j < frac_run_end(s, i) ==> is_digit(s[j]) || s[j] == '.',
        frac_run_end(s, i) < s.len() ==> !(is_digit(s[frac_run_end(s, i)]) || s[frac_run_end(
            s,
            i,
        )] == '.'),
    decreases s.len() - i,
{
    if i < s.len() && (is_digit(s[i]) || s[i] == '.') {
        lemma_frac_run_end(s, i + 1);
    }
}

pub fn exec_frac_run_end(v: &Vec<char>, i: usize) -> (r: usize)
    requires
        i <= v@.len(),
    ensures
        i <= r <= v@.len(),
        r == frac_run_end(v@, i as int),
{
    let n = v.len();
    let mut j = i;
    while j < n && (exec_is_digit(v[j]) || v[j] == '.')
        invariant
            i <= j <= n,
            n == v@.len(),
            frac_run_end(v@, i as int) == frac_run_end(v@, j as int),
        decreases n - j,
    {
        j += 1;
    }
    j
}

/// Value of a sequence of decimal digits, most significant first.
pub open spec fn digits_val(s: Seq<char>) -> nat
    decreases s.len(),
{
    if s.len() == 0 {
        0
    } else {
        digits_val(s.drop_last()) * 10 + digit_val(s.last())
    }
}

pub open spec fn all_digits(s: Seq<char>) -> bool {
    forall|i: int| 0 <= i < s.len() ==> is_digit(s[i])
}

/// Growing a digit sequence by one character multiplies its value by ten.
pub proof fn lemma_digits_val_push(s: Seq<char>, c: char)
    ensures
        digits_val(s.push(c)) == digits_val(s) * 10 + digit_val(c),
{
    assert(s.push(c).drop_last() =~= s);
    assert(s.push(c).last() == c);
}

/// Once a digit prefix exceeds a bound, every extension does too.
pub proof fn lemma_digits_val_grows(s: Seq<char>, i: int, limit: nat)
    requires
        0 <= i <= s.len(),
        digits_val(s.subrange(0, i)) > limit,
    ensures
        digits_val(s) > limit,
    decreases s.len() - i,
{
    if i == s.len() {
        assert(s.subrange(0, i) =~= s);
    } else {
        assert(s.subrange(0, i + 1).drop_last() =~= s.subrange(0, i));
        assert(digits_val(s.subrange(0, i + 1)) == digits_val(s.subrange(0, i)) * 10 + digit_val(
            s.subrange(0, i + 1).last(),
        ));
        lemma_digits_val_grows(s, i + 1, limit);
    }
}

/// Reads the decimal value of the digits `v[from..to]`; `None` when the value
/// exceeds `limit`.
pub fn parse_digits_capped(v: &Vec<char>, from: usize, to: usize, limit: u64) -> (r: Option<u64>)
    requires
        from <= to <= v@.len(),
        all_digits(v@.subrange(from as int, to as int)),
    ensures
        match r {
            Some(val) => val == digits_val(v@.subrange(from as int, to as int)) && val <= limit,
            None => digits_val(v@.subrange(from as int, to as int)) > limit,
        },
{
    let ghost s = v@.subrange(from as int, to as int);
    let mut val: u64 = 0;
    let mut i = from;
    while i < to
        invariant
            from <= i <= to <= v@.len(),
            s == v@.subrange(from as int, to as int),
            all_digits(s),
            val == digits_val(v@.subrange(from as int, i as int)),
            val <= limit,
        decreases to - i,
    {
        let ghost pre = v@.subrange(from as int, i as int);
        assert(s[i - from] == v@[i as int]);
        let d = exec_digit_val(v[i]);
        proof {
            assert(v@.subrange(from as int, i + 1) =~= pre.push(v@[i as int]));
            lemma_digits_val_push(pre, v@[i as int]);
        }
        let next_ok: bool = d as u64 <= limit && val <= (limit - d as u64) / 10;
        proof {
            let newv = digits_val(v@.subrange(from as int, i + 1));
            assert(newv == val * 10 + d);
            if d as u64 <= limit {
                let q = (limit - d as u64) as nat / 10;
                if val <= q {
                    assert(val * 10 <= q * 10) by (nonlinear_arith)
                        requires
                            val <= q,
                    ;
                    assert(q * 10 <= limit - d);
                } else {
                    assert(val >= q + 1);
                    assert(val * 10 >= (q + 1) * 10) by (nonlinear_arith)
                        requires
                            val >= q + 1,
                    ;
                    assert((q + 1) * 10 > limit - d);
                }
            }
        }
        if !next_ok {
            proof {
                assert(digits_val(v@.subrange(from as int, i + 1)) > limit);
                assert(s.subrange(0, i + 1 - from) =~= v@.subrange(from as int, i + 1));
                lemma_digits_val_grows(s, i + 1 - from, limit as nat);
            }
            return None;
        }
        val = val * 10 + d as u64;
        i += 1;
    }
    assert(s =~= v@.subrange(from as int, to as int));
    Some(val)
}

/// Ten to the `k`.
pub open spec fn pow10(k: nat) -> nat
    decreases k,
{
    if k == 0 {
        1
    } else {
        10 * pow10((k - 1) as nat)
    }
}

pub proof fn lemma_pow10_values()
    ensures
        pow10(0) == 1,
        pow10(1) == 10,
        pow10(2) == 100,
        pow10(3) == 1000,
        pow10(4) == 10000,
        pow10(5) == 100000,
        pow10(6) == 1000000,
        pow10(7) == 10000000,
{
    assert(pow10(0) == 1);
    assert(pow10(1) == 10);
    assert(pow10(2) == 100);
    assert(pow10(3) == 1000);
    assert(pow10(4) == 10000);
    assert(pow10(5) == 100000);
    assert(pow10(6) == 1000000);
    assert(pow10(7) == 10000000);
}

pub proof fn lemma_pow10_le(a: nat, b: nat)
    requires
        a <= b,
    ensures
        pow10(a) <= pow10(b),
    decreases b,
{
    if a < b {
        lemma_pow10_le(a, (b - 1) as nat);
    }
}

pub proof fn lemma_pow10_adds(a: nat, b: nat)
    ensures
        pow10(a + b) == pow10(a) * pow10(b),
    decreases a,
{
    if a == 0 {
        assert(pow10(0) == 1);
        assert(pow10(0 + b) == pow10(b));
        assert(pow10(0) * pow10(b) == pow10(b));
    } else {
        lemma_pow10_adds((a - 1) as nat, b);
        assert(pow10(a + b) == 10 * pow10((a + b - 1) as nat));
        assert(pow10((a + b - 1) as nat) == pow10((a - 1) as nat) * pow10(b));
        assert(pow10(a + b) == 10 * (pow10((a - 1) as nat) * pow10(b)));
        assert(10 * (pow10((a - 1) as nat) * pow10(b)) == (10 * pow10((a - 1) as nat)) * pow10(
            b,
        )) by (nonlinear_arith);
        assert(pow10(a) == 10 * pow10((a - 1) as nat));
        assert(pow10(a + b) == pow10(a) * pow10(b));
    }
}

/// The value of a digit sequence is below ten to its length.
pub proof fn lemma_digits_val_bound(s: Seq<char>)
    requires
        all_digits(s),
    ensures
        digits_val(s) < pow10(s.len()),
    decreases s.len(),
{
    if s.len() == 0 {
    } else {
        assert(all_digits(s.drop_last())) by {
            assert(forall|i: int| 0 <= i < s.len() - 1 ==> s.drop_last()[i] == s[i]);
        }
        lemma_digits_val_bound(s.drop_last());
        assert(is_digit(s.last()));
        assert(digit_val(s.last()) <= 9);
        assert(pow10(s.len()) == 10 * pow10((s.len() - 1) as nat));
        vstd::arithmetic::mul::lemma_mul_inequality(
            digits_val(s.drop_last()) as int + 1,
            pow10((s.len() - 1) as nat) as int,
            10,
        );
    }
}

/// Thousandths denoted by fractional digits after a decimal point; only the
/// first three digits are within resolution.
pub open spec fn frac_milli(fd: Seq<char>) -> int {
    let k = if fd.len() < 3 {
        fd.len() as int
    } else {
        3
    };
    digits_val(fd.take(k)) * (pow10((3 - k) as nat) as int)
}

/// Decimal representation of `n`, without sign or padding.
pub open spec fn dec_rep(n: nat) -> Seq<char>
    decreases n,
{
    if n < 10 {
        seq![digit_char(n)]
    } else {
        dec_rep(n / 10).push(digit_char(n % 10))
    }
}

pub open spec fn digit_char(n: nat) -> char
    recommends
        n < 10,
{
    if n == 0 {
        '0'
    } else if n == 1 {
        '1'
    } else if n == 2 {
        '2'
    } else if n == 3 {
        '3'
    } else if n == 4 {
        '4'
    } else if n == 5 {
        '5'
    } else if n == 6 {
        '6'
    } else if n == 7 {
        '7'
    } else if n == 8 {
        '8'
    } else {
        '9'
    }
}

pub proof fn lemma_digit_char(n: nat)
    requires
        n < 10,
    ensures
        is_digit(digit_char(n)),
        digit_val(digit_char(n)) == n,
{
}

/// `dec_rep` produces digits whose value reads back as `n`.
pub proof fn lemma_dec_rep(n: nat)
    ensures
        dec_rep(n).len() >= 1,
        all_digits(dec_rep(n)),
        digits_val(dec_rep(n)) == n,
        n >= 1 ==> dec_rep(n)[0] != '0',
        n < 10 ==> dec_rep(n).len() == 1,
    decreases n,
{
    if n < 10 {
        lemma_digit_char(n);
        assert(dec_rep(n) =~= seq![digit_char(n)]);
        assert(dec_rep(n).drop_last() =~= Seq::<char>::empty());
        assert(dec_rep(n)[0] == digit_char(n));
        assert(dec_rep(n).last() == digit_char(n));
        assert(digits_val(dec_rep(n)) == digits_val(Seq::<char>::empty()) * 10 + digit_val(
            digit_char(n),
        ));
    } else {
        lemma_dec_rep(n / 10);
        lemma_digit_char(n % 10);
        let s = dec_rep(n / 10);
        lemma_digits_val_push(s, digit_char(n % 10));
        assert(s.push(digit_char(n % 10)).drop_last() =~= s);
        assert(forall|i: int|
            0 <= i < s.push(digit_char(n % 10)).len() ==> is_digit(
                #[trigger] s.push(digit_char(n % 10))[i],
            ));
        assert(s.push(digit_char(n % 10))[0] == s[0]);
    }
}

pub fn exec_digit_char(n: u64) -> (c: char)
    requires
        n < 10,
    ensures
        c == digit_char(n as nat),
{
    match n {
        0 => '0',
        1 => '1',
        2 => '2',
        3 => '3',
        4 => '4',
        5 => '5',
        6 => '6',
        7 => '7',
        8 => '8',
        _ => '9',
    }
}

/// Pushes the decimal representation of `n` onto `out`.
pub fn push_dec_u64(out: &mut Vec<char>, n: u64)
    ensures
        final(out)@ == old(out)@ + dec_rep(n as nat),
    decreases n,
{
    if n < 10 {
        out.push(exec_digit_char(n));
        assert(final(out)@ =~= old(out)@ + dec_rep(n as nat));
    } else {
        push_dec_u64(out, n / 10);
        out.push(exec_digit_char(n % 10));
        assert(final(out)@ =~= old(out)@ + dec_rep(n as nat));
    }
}

/// Zero-padded decimal representation, `width` characters, for `n < 10^width`.
pub open spec fn dec_rep_pad(n: nat, width: nat) -> Seq<char>
    decreases width,
{
    if width <= 1 {
        seq![digit_char(n % 10)]
    } else {
        dec_rep_pad(n / 10, (width - 1) as nat).push(digit_char(n % 10))
    }
}

pub proof fn lemma_dec_rep_pad(n: nat, width: nat)
    requires
        n < pow10(width),
        width >= 1,
    ensures
        dec_rep_pad(n, width).len() == width,
        all_digits(dec_rep_pad(n, width)),
        digits_val(dec_rep_pad(n, width)) == n,
    decreases width,
{
    if width <= 1 {
        lemma_digit_char(n % 10);
        assert(pow10(0nat) == 1);
        assert(pow10(1nat) == 10);
        assert(n % 10 == n);
        assert(dec_rep_pad(n, width).drop_last() =~= Seq::<char>::empty());
        assert(dec_rep_pad(n, width).last() == digit_char(n % 10));
        assert(digits_val(dec_rep_pad(n, width)) == digits_val(Seq::<char>::empty()) * 10
            + digit_val(digit_char(n % 10)));
    } else {
        assert(pow10(width) == 10 * pow10((width - 1) as nat));
        lemma_dec_rep_pad(n / 10, (width - 1) as nat);
        lemma_digit_char(n % 10);
        let s = dec_rep_pad(n / 10, (width - 1) as nat);
        lemma_digits_val_push(s, digit_char(n % 10));
        assert(s.push(digit_char(n % 10)).drop_last() =~= s);
        assert(forall|i: int|
            0 <= i < s.push(digit_char(n % 10)).len() ==> is_digit(
                #[trigger] s.push(digit_char(n % 10))[i],
            ));
    }
}

pub fn push_dec_pad(out: &mut Vec<char>, n: u64, width: u64)
    requires
        width >= 1,
    ensures
        final(out)@ == old(out)@ + dec_rep_pad(n as nat, width as nat),
    decreases width,
{
    if width <= 1 {
        out.push(exec_digit_char(n % 10));
        assert(final(out)@ =~= old(out)@ + dec_rep_pad(n as nat, width as nat));
    } else {
        push_dec_pad(out, n / 10, width - 1);
        out.push(exec_digit_char(n % 10));
        assert(final(out)@ =~= old(out)@ + dec_rep_pad(n as nat, width as nat));
    }
}

/// First index at or after `i` that holds a non-whitespace character.
pub open spec fn skip_spaces(s: Seq<char>, i: int) -> int
    recommends
        0 <= i <= s.len(),
    decreases s.len() - i,
{
    if i < s.len() && is_space(s[i]) {
        skip_spaces(s, i + 1)
    } else {
        i
    }
}

pub proof fn lemma_skip_spaces(s: Seq<char>, i: int)
    requires
        0 <= i <= s.len(),
    ensures
        i <= skip_spaces(s, i) <= s.len(),
        forall|j: int| i <= j < skip_spaces(s, i) ==> is_space(s[j]),
        skip_spaces(s, i) < s.len() ==> !is_space(s[skip_spaces(s, i)]),
    decreases s.len() - i,
{
    if i < s.len() && is_space(s[i]) {
        lemma_skip_spaces(s, i + 1);
    }
}

pub fn exec_skip_spaces(v: &Vec<char>, i: usize) -> (r: usize)
    requires
        i <= v@.len(),
    ensures
        i <= r <= v@.len(),
        r == skip_spaces(v@, i as int),
{
    let n = v.len();
    let mut j = i;
    while j < n && exec_is_space(v[j])
        invariant
            i <= j <= n,
            n == v@.len(),
            skip_spaces(v@, i as int) == skip_spaces(v@, j as int),
        decreases n - j,
    {
        j += 1;
    }
    j
}

/// Index one past the last non-whitespace character of `s[..i]`.
pub open spec fn rskip_spaces(s: Seq<char>, i: int) -> int
    recommends
        0 <= i <= s.len(),
    decreases i,
{
    if i > 0 && is_space(s[i - 1]) {
        rskip_spaces(s, i - 1)
    } else {
        i
    }
}

pub proof fn lemma_rskip_spaces(s: Seq<char>, i: int)
    requires
        0 <= i <= s.len(),
    ensures
        0 <= rskip_spaces(s, i) <= i,
        forall|j: int| rskip_spaces(s, i) <= j < i ==> is_space(s[j]),
        rskip_spaces(s, i) > 0 ==> !is_space(s[rskip_spaces(s, i) - 1]),
    decreases i,
{
    if i > 0 && is_space(s[i - 1]) {
        lemma_rskip_spaces(s, i - 1);
    }
}

pub fn exec_rskip_spaces(v: &Vec<char>, i: usize) -> (r: usize)
    requires
        i <= v@.len(),
    ensures
        r <= i,
        r == rskip_spaces(v@, i as int),
{
    let mut j = i;
    while j > 0 && exec_is_space(v[j - 1])
        invariant
            j <= i <= v@.len(),
            rskip_spaces(v@, i as int) == rskip_spaces(v@, j as int),
        decreases j,
    {
        j -= 1;
    }
    j
}

/// Decimal representation padded to at least `width` characters, as the
/// common minimum-width formatting does.
pub open spec fn dec_rep_min(n: nat, width: nat) -> Seq<char> {
    if n < pow10(width) {
        dec_rep_pad(n, width)
    } else {
        dec_rep(n)
    }
}

/// Pushes `n` zero-padded to at least `width` characters.
pub fn push_dec_min(out: &mut Vec<char>, n: u64, width: u64)
    requires
        1 <= width <= 4,
    ensures
        final(out)@ == old(out)@ + dec_rep_min(n as nat, width as nat),
{
    proof {
        lemma_pow10_values();
    }
    let limit: u64 = match width {
        1 => 10,
        2 => 100,
        3 => 1000,
        _ => 10000,
    };
    if n < limit {
        push_dec_pad(out, n, width);
    } else {
        push_dec_u64(out, n);
    }
}

/// First index at or after `i` that holds the character `c`.
pub open spec fn find_char(s: Seq<char>, i: int, c: char) -> int
    recommends
        0 <= i <= s.len(),
    decreases s.len() - i,
{
    if i < s.len() && s[i] != c {
        find_char(s, i + 1, c)
    } else {
        i
    }
}

pub proof fn lemma_find_char(s: Seq<char>, i: int, c: char)
    requires
        0 <= i <= s.len(),
    ensures
        i <= find_char(s, i, c) <= s.len(),
        forall|j: int| i <= j < find_char(s, i, c) ==> s[j] != c,
        find_char(s, i, c) < s.len() ==> s[find_char(s, i, c)] == c,
    decreases s.len() - i,
{
    if i < s.len() && s[i] != c {
        lemma_find_char(s, i + 1, c);
    }
}

pub fn exec_find_char(v: &Vec<char>, i: usize, c: char) -> (r: usize)
    requires
        i <= v@.len(),
    ensures
        i <= r <= v@.len(),
        r == find_char(v@, i as int, c),
{
    let n = v.len();
    let mut j = i;
    while j < n && v[j] != c
        invariant
            i <= j <= n,
            n == v@.len(),
            find_char(v@, i as int, c) == find_char(v@, j as int, c),
        decreases n - j,
    {
        j += 1;
    }
    j
}

/// First index at or after `i` that holds a whitespace character.
pub open spec fn find_space(s: Seq<char>, i: int) -> int
    recommends
        0 <= i <= s.len(),
    decreases s.len() - i,
{
    if i < s.len() && !is_space(s[i]) {
        find_space(s, i + 1)
    } else {
        i
    }
}

pub fn exec_find_space(v: &Vec<char>, i: usize) -> (r: usize)
    requires
        i <= v@.len(),
    ensures
        i <= r <= v@.len(),
        r == find_space(v@, i as int),
{
    let n = v.len();
    let mut j = i;
    while j < n && !exec_is_space(v[j])
        invariant
            i <= j <= n,
            n == v@.len(),
            find_space(v@, i as int) == find_space(v@, j as int),
        decreases n - j,
    {
        j += 1;
    }
    j
}

/// An index bounding a digit run from the left and blocked on the right is
/// where the run ends.
pub proof fn lemma_digit_run_end_is(s: Seq<char>, i: int, e: int)
    requires
        0 <= i <= e <= s.len(),
        forall|j: int| i <= j < e ==> is_digit(s[j]),
        e == s.len() || !is_digit(s[e]),
    ensures
        digit_run_end(s, i) == e,
    decreases e - i,
{
    if i < e {
        lemma_digit_run_end_is(s, i + 1, e);
    }
}

pub proof fn lemma_frac_run_end_is(s: Seq<char>, i: int, e: int)
    requires
        0 <= i <= e <= s.len(),
        forall|j: int| i <= j < e ==> is_digit(s[j]) || s[j] == '.',
        e == s.len() || !(is_digit(s[e]) || s[e] == '.'),
    ensures
        frac_run_end(s, i) == e,
    decreases e - i,
{
    if i < e {
        lemma_frac_run_end_is(s, i + 1, e);
    }
}

pub proof fn lemma_skip_spaces_is(s: Seq<char>, i: int, e: int)
    requires
        0 <= i <= e <= s.len(),
        forall|j: int| i <= j < e ==> is_space(s[j]),
        e == s.len() || !is_space(s[e]),
    ensures
        skip_spaces(s, i) == e,
    decreases e - i,
{
    if i < e {
        lemma_skip_spaces_is(s, i + 1, e);
    }
}

pub proof fn lemma_find_space_is(s: Seq<char>, i: int, e: int)
    requires
        0 <= i <= e <= s.len(),
        forall|j: int| i <= j < e ==> !is_space(s[j]),
        e == s.len() || is_space(s[e]),
    ensures
        find_space(s, i) == e,
    decreases e - i,
{
    if i < e {
        lemma_find_space_is(s, i + 1, e);
    }
}

pub proof fn lemma_rskip_spaces_is(s: Seq<char>, i: int, e: int)
    requires
        0 <= e <= i <= s.len(),
        forall|j: int| e <= j < i ==> is_space(s[j]),
        e == 0 || !is_space(s[e - 1]),
    ensures
        rskip_spaces(s, i) == e,
    decreases i - e,
{
    if e < i {
        lemma_rskip_spaces_is(s, i - 1, e);
    }
}

/// The view of `s` trimmed of leading and trailing whitespace.
pub open spec fn trimmed(s: Seq<char>) -> Seq<char> {
    let a = skip_spaces(s, 0);
    let b = rskip_spaces(s, s.len() as int);
    if a <= b {
        s.subrange(a, b)
    } else {
        Seq::empty()
    }
}

pub proof fn lemma_trimmed(s: Seq<char>)
    ensures
        trimmed(s).len() <= s.len(),
        trimmed(s).len() > 0 ==> !is_space(trimmed(s)[0]) && !is_space(trimmed(s).last()),
{
    lemma_skip_spaces(s, 0);
    lemma_rskip_spaces(s, s.len() as int);
    let a = skip_spaces(s, 0);
    let b = rskip_spaces(s, s.len() as int);
    if a <= b && b - a > 0 {
        if a < s.len() {
            assert(trimmed(s)[0] == s[a]);
        }
        assert(trimmed(s).last() == s[b - 1]);
    }
}

/// The characters of `s`, as a vector.
pub fn chars_of(s: &str) -> (v: Vec<char>)
    ensures
        v@ == s@,
{
    let n = s.unicode_len();
    let mut v: Vec<char> = Vec::new();
    let mut i: usize = 0;
    while i < n
        invariant
            i <= n,
            n == s@.len(),
            v@ == s@.subrange(0, i as int),
        decreases n - i,
    {
        v.push(s.get_char(i));
        assert(v@ =~= s@.subrange(0, i + 1));
        i += 1;
    }
    assert(v@ =~= s@);
    v
}

/// Relies on `String::push`: appends one character at the end.
#[verifier::external_body]
pub fn push_char(s: &mut String, c: char)
    ensures
        final(s)@ == old(s)@.push(c),
{
    s.push(c);
}

/// A `String` holding exactly the characters of `v`.
pub fn string_of(v: &Vec<char>) -> (s: String)
    ensures
        s@ == v@,
{
    let mut s = String::new();
    let n = v.len();
    let mut i: usize = 0;
    while i < n
        invariant
            i <= n,
            n == v@.len(),
            s@ == v@.subrange(0, i as int),
        decreases n - i,
    {
        push_char(&mut s, v[i]);
        assert(s@ =~= v@.subrange(0, i + 1));
        i += 1;
    }
    assert(s@ =~= v@);
    s
}

/// A sequence that neither starts nor ends with whitespace trims to itself.
pub proof fn lemma_trimmed_id(s: Seq<char>)
    requires
        s.len() == 0 || (!is_space(s[0]) && !is_space(s.last())),
    ensures
        trimmed(s) == s,
{
    if s.len() == 0 {
        lemma_skip_spaces_is(s, 0, 0);
        lemma_rskip_spaces_is(s, 0, 0);
        assert(trimmed(s) =~= s);
    } else {
        lemma_skip_spaces_is(s, 0, 0);
        lemma_rskip_spaces_is(s, s.len() as int, s.len() as int);
        assert(trimmed(s) =~= s);
    }
}

/// Copies `v[from..to]` into a fresh vector.
pub fn subvec(v: &Vec<char>, from: usize, to: usize) -> (r: Vec<char>)
    requires
        from <= to <= v@.len(),
    ensures
        r@ == v@.subrange(from as int, to as int),
{
    let mut r: Vec<char> = Vec::new();
    let mut i = from;
    while i < to
        invariant
            from <= i <= to <= v@.len(),
            r@ == v@.subrange(from as int, i as int),
        decreases to - i,
    {
        r.push(v[i]);
        assert(r@ =~= v@.subrange(from as int, i + 1));
        i += 1;
    }
    r
}

/// Compares `v[from..to]` with the characters of `lit`, folding ASCII case.
pub fn chars_eq_str_ci(v: &Vec<char>, from: usize, to: usize, lit: &str) -> (r: bool)
    requires
        from <= to <= v@.len(),
    ensures
        r == eq_ci(v@.subrange(from as int, to as int), lit@),
{
    let len = to - from;
    if len != lit.unicode_len() {
        assert(v@.subrange(from as int, to as int).len() != lit@.len());
        return false;
    }
    let mut i: usize = 0;
    while i < len
        invariant
            from <= to <= v@.len(),
            len == to - from,
            len == lit@.len(),
            i <= len,
            forall|j: int|
                0 <= j < i ==> lower_code(v@.subrange(from as int, to as int)[j]) == lower_code(
                    lit@[j],
                ),
        decreases len - i,
    {
        assert(v@.subrange(from as int, to as int)[i as int] == v@[from + i]);
        let ca = v[from + i] as u32;
        let cb = lit.get_char(i) as u32;
        let la = if 65 <= ca && ca <= 90 {
            ca + 32
        } else {
            ca
        };
        let lb = if 65 <= cb && cb <= 90 {
            cb + 32
        } else {
            cb
        };
        if la != lb {
            return false;
        }
        i += 1;
    }
    true
}

/// Signed decimal representation of `n`.
pub open spec fn int_rep(n: int) -> Seq<char> {
    if n < 0 {
        seq!['-'] + dec_rep((-n) as nat)
    } else {
        dec_rep(n as nat)
    }
}

/// The decimal representation of `n`, as a `String`.
pub fn u64_string(n: u64) -> (s: String)
    ensures
        s@ == dec_rep(n as nat),
{
    let mut v: Vec<char> = Vec::new();
    push_dec_u64(&mut v, n);
    assert(v@ =~= dec_rep(n as nat));
    string_of(&v)
}

/// The signed decimal representation of `n`, as a `String`.
pub fn i64_string(n: i64) -> (s: String)
    ensures
        s@ == int_rep(n as int),
{
    let mut v: Vec<char> = Vec::new();
    if n < 0 {
        v.push('-');
        let m: u64 = if n == i64::MIN {
            9223372036854775808u64
        } else {
            (-n) as u64
        };
        push_dec_u64(&mut v, m);
        assert(v@ =~= seq!['-'] + dec_rep(m as nat));
    } else {
        push_dec_u64(&mut v, n as u64);
    }
    string_of(&v)
}

/// Equality of two string slices, stated over their character views.
pub fn str_eq(a: &str, b: &str) -> (r: bool)
    ensures
        r == (a@ == b@),
{
    let n = a.unicode_len();
    if n != b.unicode_len() {
        return false;
    }
    let mut i: usize = 0;
    while i < n
        invariant
            i <= n,
            n == a@.len(),
            n == b@.len(),
            forall|j: int| 0 <= j < i ==> a@[j] == b@[j],
        decreases n - i,
    {
        if a.get_char(i) != b.get_char(i) {
            return false;
        }
        i += 1;
    }
    assert(a@ =~= b@);
    true
}

/// ASCII-case-insensitive equality of two string slices.
pub fn str_eq_ci(a: &str, b: &str) -> (r: bool)
    ensures
        r == eq_ci(a@, b@),
{
    let n = a.unicode_len();
    if n != b.unicode_len() {
        return false;
    }
    let mut i: usize = 0;
    while i < n
        invariant
            i <= n,
            n == a@.len(),
            n == b@.len(),
            forall|j: int| 0 <= j < i ==> lower_code(a@[j]) == lower_code(b@[j]),
        decreases n - i,
    {
        let ca = a.get_char(i) as u32;
        let cb = b.get_char(i) as u32;
        let la = if 65 <= ca && ca <= 90 {
            ca + 32
        } else {
            ca
        };
        let lb = if 65 <= cb && cb <= 90 {
            cb + 32
        } else {
            cb
        };
        if la != lb {
            return false;
        }
        i += 1;
    }
    true
}

/// A `String` holding the characters `v[from..to]`.
pub fn string_of_range(v: &Vec<char>, from: usize, to: usize) -> (s: String)
    requires
        from <= to <= v@.len(),
    ensures
        s@ == v@.subrange(from as int, to as int),
{
    let mut s = String::new();
    let mut i: usize = from;
    while i < to
        invariant
            from <= i <= to <= v@.len(),
            s@ == v@.subrange(from as int, i as int),
        decreases to - i,
    {
        push_char(&mut s, v[i]);
        assert(s@ =~= v@.subrange(from as int, i + 1));
        i += 1;
    }
    s
}

} // verus!
