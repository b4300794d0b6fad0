//! Location key normalization.
//!
//! A cache key is derived from the latitude and longitude of a request by
//! rounding each coordinate to two decimal places (a cell of roughly one
//! kilometre at the equator) and rendering the pair as the canonical string
//! `"(lat,lon)"`. Two requests whose coordinates fall in the same rounding
//! cell therefore share one key, one cache entry and one upstream fetch.
//!
//! Coordinates arrive as the decimal text of the query string: an optional
//! minus sign, one to ten integer digits, and an optional fraction behind a
//! dot. Rounding is half away from zero, decided by the third fraction
//! digit. Anything else is malformed and yields no key.

use vstd::prelude::*;
use vstd::string::StrSliceExecFns;

verus! {

// ---------------------------------------------------------------------------
// Decimal digits
// ---------------------------------------------------------------------------

pub open spec fn is_digit(c: char) -> bool {
    '0' as int <= c as int <= '9' as int
}

pub open spec fn digit_val(c: char) -> int {
    c as int - '0' as int
}

pub open spec fn all_digits(s: Seq<char>) -> bool {
    forall|i: int| 0 <= i < s.len() ==> is_digit(#[trigger] s[i])
}

/// The number written by a sequence of decimal digits, most significant first.
pub open spec fn digits_val(s: Seq<char>) -> int
    decreases s.len(),
{
    if s.len() == 0 {
        0
    } else {
        digits_val(s.drop_last()) * 10 + digit_val(s.last())
    }
}

pub open spec fn pow10(n: nat) -> int
    decreases n,
{
    if n == 0 {
        1
    } else {
        10 * pow10((n - 1) as nat)
    }
}

proof fn lemma_pow10_mono(a: nat, b: nat)
    requires
        a <= b,
    ensures
        pow10(a) <= pow10(b),
    decreases b,
{
    if a < b {
        lemma_pow10_mono(a, (b - 1) as nat);
        lemma_pow10_pos((b - 1) as nat);
    }
}

proof fn lemma_pow10_pos(n: nat)
    ensures
        pow10(n) >= 1,
    decreases n,
{
    if n > 0 {
        lemma_pow10_pos((n - 1) as nat);
    }
}

proof fn lemma_digits_val_push(s: Seq<char>, c: char)
    ensures
        digits_val(s.push(c)) == digits_val(s) * 10 + digit_val(c),
{
    assert(s.push(c).drop_last() =~= s);
    assert(s.push(c).last() == c);
}

/// Reads one decimal digit, or nothing when the character is not a digit.
fn digit_of(c: char) -> (r: Option<u8>)
    ensures
        match r {
            Some(d) => is_digit(c) && d < 10 && d as int == digit_val(c),
            None => !is_digit(c),
        },
{
    match c {
        '0' => Some(0),
        '1' => Some(1),
        '2' => Some(2),
        '3' => Some(3),
        '4' => Some(4),
        '5' => Some(5),
        '6' => Some(6),
        '7' => Some(7),
        '8' => Some(8),
        '9' => Some(9),
        _ => None,
    }
}

// ---------------------------------------------------------------------------
// The shape of a coordinate string
// ---------------------------------------------------------------------------

pub open spec fn has_minus(s: Seq<char>) -> bool {
    s.len() > 0 && s[0] == '-'
}

/// The string behind the optional minus sign.
pub open spec fn body_of(s: Seq<char>) -> Seq<char> {
    if has_minus(s) {
        s.subrange(1, s.len() as int)
    } else {
        s
    }
}

/// The index of the first dot, or the length when there is none.
pub open spec fn dot_idx(b: Seq<char>) -> int
    decreases b.len(),
{
    if b.len() == 0 {
        0
    } else if b[0] == '.' {
        0
    } else {
        1 + dot_idx(b.subrange(1, b.len() as int))
    }
}

proof fn lemma_dot_idx_is(b: Seq<char>, k: int)
    requires
        0 <= k <= b.len(),
        forall|j: int| 0 <= j < k ==> #[trigger] b[j] != '.',
        k < b.len() ==> b[k] == '.',
    ensures
        dot_idx(b) == k,
    decreases b.len(),
{
    if b.len() != 0 && b[0] != '.' {
        let t = b.subrange(1, b.len() as int);
        assert(forall|j: int| 0 <= j < k - 1 ==> #[trigger] t[j] != '.');
        lemma_dot_idx_is(t, k - 1);
    }
}

pub open spec fn int_part(b: Seq<char>) -> Seq<char> {
    b.subrange(0, dot_idx(b))
}

pub open spec fn frac_part(b: Seq<char>) -> Seq<char> {
    if dot_idx(b) < b.len() {
        b.subrange(dot_idx(b) + 1, b.len() as int)
    } else {
        Seq::empty()
    }
}

/// A well-formed coordinate: an optional minus sign, one to ten integer
/// digits, and an optional all-digit fraction behind the dot.
pub open spec fn coord_ok(s: Seq<char>) -> bool {
    let b = body_of(s);
    &&& 1 <= int_part(b).len() <= 10
    &&& all_digits(int_part(b))
    &&& all_digits(frac_part(b))
}

/// The `i`-th fraction digit, taking absent digits as zero.
pub open spec fn frac_digit(f: Seq<char>, i: int) -> int {
    if 0 <= i < f.len() {
        digit_val(f[i])
    } else {
        0
    }
}

/// The magnitude of a coordinate in hundredths of a degree, rounded half
/// away from zero on the third fraction digit.
pub open spec fn coord_centi_abs(s: Seq<char>) -> int {
    let b = body_of(s);
    let f = frac_part(b);
    digits_val(int_part(b)) * 100 + frac_digit(f, 0) * 10 + frac_digit(f, 1) + if frac_digit(
        f,
        2,
    ) >= 5 {
        1int
    } else {
        0int
    }
}

/// What parsing a coordinate yields: its value in hundredths of a degree,
/// or nothing when the text is malformed.
pub open spec fn parse_coord_spec(s: Seq<char>) -> Option<int> {
    if coord_ok(s) {
        if has_minus(s) {
            Some(-coord_centi_abs(s))
        } else {
            Some(coord_centi_abs(s))
        }
    } else {
        None
    }
}

// ---------------------------------------------------------------------------
// Parsing
// ---------------------------------------------------------------------------

/// Parses a coordinate written in plain decimal notation into hundredths of
/// a degree, rounding half away from zero.
pub fn parse_coord(s: &str) -> (r: Option<i64>)
    ensures
        match r {
            Some(v) => parse_coord_spec(s@) == Some(v as int),
            None => parse_coord_spec(s@) is None,
        },
{
    let n = s.unicode_len();
    let neg = n > 0 && s.get_char(0) == '-';
    let start: usize = if neg {
        1
    } else {
        0
    };
    let ghost b = body_of(s@);
    proof {
        assert(b.len() == n - start);
        assert(forall|j: int| 0 <= j < b.len() ==> #[trigger] b[j] == s@[start + j]);
    }
    // Find the first dot behind the sign.
    let mut dot: usize = start;
    while dot < n
        invariant
            start <= dot <= n,
            n == s@.len(),
            forall|j: int| start <= j < dot ==> #[trigger] s@[j] != '.',
        ensures
            start <= dot <= n,
            n == s@.len(),
            forall|j: int| start <= j < dot ==> #[trigger] s@[j] != '.',
            dot < n ==> s@[dot as int] == '.',
        decreases n - dot,
    {
        if s.get_char(dot) == '.' {
            break ;
        }
        dot += 1;
    }
    proof {
        lemma_dot_idx_is(b, dot - start);
    }
    if dot == start || dot - start > 10 {
        return None;
    }
    // Validate and accumulate the integer digits.
    let mut v: u64 = 0;
    let mut i: usize = start;
    while i < dot
        invariant
            start <= i <= dot <= n,
            n == s@.len(),
            dot - start <= 10,
            b == body_of(s@),
            b.len() == n - start,
            forall|j: int| 0 <= j < b.len() ==> #[trigger] b[j] == s@[start + j],
            dot_idx(b) == dot - start,
            forall|j: int| start <= j < i ==> is_digit(#[trigger] s@[j]),
            v as int == digits_val(s@.subrange(start as int, i as int)),
            (v as int) < pow10((i - start) as nat),
        decreases dot - i,
    {
        let c = s.get_char(i);
        match digit_of(c) {
            Some(d) => {
                proof {
                    let pre = s@.subrange(start as int, i as int);
                    lemma_digits_val_push(pre, c);
                    assert(s@.subrange(start as int, i + 1 as int) =~= pre.push(c));
                    lemma_pow10_mono(((i + 1) - start) as nat, 10);
                    assert(pow10(10) == 10_000_000_000) by {
                        reveal_with_fuel(pow10, 11);
                    }
                }
                v = v * 10 + d as u64;
            },
            None => {
                proof {
                    assert(int_part(b)[i - start] == s@[i as int]);
                }
                return None;
            },
        }
        i += 1;
    }
    proof {
        assert(int_part(b) =~= s@.subrange(start as int, dot as int));
        lemma_pow10_mono((dot - start) as nat, 10);
        assert(pow10(10) == 10_000_000_000) by {
            reveal_with_fuel(pow10, 11);
        }
    }
    // Validate the fraction digits, if a fraction is present.
    if dot < n {
        let mut k: usize = dot + 1;
        while k < n
            invariant
                dot + 1 <= k <= n,
                n == s@.len(),
                b == body_of(s@),
                b.len() == n - start,
                start <= dot,
                forall|j: int| 0 <= j < b.len() ==> #[trigger] b[j] == s@[start + j],
                dot_idx(b) == dot - start,
                forall|j: int| dot + 1 <= j < k ==> is_digit(#[trigger] s@[j]),
            decreases n - k,
        {
            let c = s.get_char(k);
            match digit_of(c) {
                Some(_) => {},
                None => {
                    proof {
                        assert(frac_part(b)[k - dot - 1] == s@[k as int]);
                    }
                    return None;
                },
            }
            k += 1;
        }
    }
    let ghost f = frac_part(b);
    proof {
        if dot < n {
            assert(f =~= s@.subrange(dot + 1, n as int));
        }
        assert(coord_ok(s@));
    }
    // Read the first three fraction digits; absent digits count as zero.
    let f0: u8 = if dot + 1 < n {
        match digit_of(s.get_char(dot + 1)) {
            Some(d) => d,
            None => 0,
        }
    } else {
        0
    };
    let f1: u8 = if dot + 2 < n {
        match digit_of(s.get_char(dot + 2)) {
            Some(d) => d,
            None => 0,
        }
    } else {
        0
    };
    let f2: u8 = if dot + 3 < n {
        match digit_of(s.get_char(dot + 3)) {
            Some(d) => d,
            None => 0,
        }
    } else {
        0
    };
    proof {
        assert(f0 as int == frac_digit(f, 0));
        assert(f1 as int == frac_digit(f, 1));
        assert(f2 as int == frac_digit(f, 2));
    }
    let round: u64 = if f2 >= 5 {
        1
    } else {
        0
    };
    let abs: u64 = v * 100 + (f0 as u64) * 10 + (f1 as u64) + round;
    proof {
        assert(abs as int == coord_centi_abs(s@));
    }
    let sv = abs as i64;
    if neg {
        Some(-sv)
    } else {
        Some(sv)
    }
}

// ---------------------------------------------------------------------------
// Rendering the canonical key string
// ---------------------------------------------------------------------------

pub open spec fn digit_char(d: int) -> char {
    if d == 0 {
        '0'
    } else if d == 1 {
        '1'
    } else if d == 2 {
        '2'
    } else if d == 3 {
        '3'
    } else if d == 4 {
        '4'
    } else if d == 5 {
        '5'
    } else if d == 6 {
        '6'
    } else if d == 7 {
        '7'
    } else if d == 8 {
        '8'
    } else {
        '9'
    }
}

/// The decimal text of a non-negative number, most significant digit first.
pub open spec fn dec_str(n: int) -> Seq<char>
    decreases n,
{
    if n < 10 {
        seq![digit_char(n)]
    } else {
        dec_str(n / 10).push(digit_char(n % 10))
    }
}

/// The canonical text of a coordinate held in hundredths of a degree: a
/// minus sign for negative values, the whole degrees, a dot, and exactly two
/// fraction digits.
pub open spec fn coord_str(c: int) -> Seq<char> {
    let a = if c < 0 {
        -c
    } else {
        c
    };
    let sign: Seq<char> = if c < 0 {
        seq!['-']
    } else {
        seq![]
    };
    sign + dec_str(a / 100) + seq!['.'] + seq![digit_char((a / 10) % 10), digit_char(a % 10)]
}

/// The canonical cache key text for a pair of rounded coordinates.
pub open spec fn key_str(latc: int, lonc: int) -> Seq<char> {
    seq!['('] + coord_str(latc) + seq![','] + coord_str(lonc) + seq![')']
}

/// What normalizing a query yields: the canonical key for the two rounded
/// coordinates, or nothing when either coordinate is malformed.
pub open spec fn normalize_spec(lat: Seq<char>, lon: Seq<char>) -> Option<Seq<char>> {
    match (parse_coord_spec(lat), parse_coord_spec(lon)) {
        (Some(a), Some(b)) => Some(key_str(a, b)),
        _ => None,
    }
}

/// Requests that round to the same cell per coordinate share one cache key.
///
/// This is what makes the key a cache key: it identifies the rounding cell,
/// not the exact coordinates, so any two requests inside one cell collide
/// into the same entry.
pub proof fn lemma_normalize_same_cell(
    lat1: Seq<char>,
    lon1: Seq<char>,
    lat2: Seq<char>,
    lon2: Seq<char>,
)
    requires
        parse_coord_spec(lat1) == parse_coord_spec(lat2),
        parse_coord_spec(lon1) == parse_coord_spec(lon2),
    ensures
        normalize_spec(lat1, lon1) == normalize_spec(lat2, lon2),
{
}

fn push_digit(out: &mut String, d: u8)
    requires
        d < 10,
    ensures
        final(out)@ == old(out)@.push(digit_char(d as int)),
{
    match d {
        0 => out.append("0"),
        1 => out.append("1"),
        2 => out.append("2"),
        3 => out.append("3"),
        4 => out.append("4"),
        5 => out.append("5"),
        6 => out.append("6"),
        7 => out.append("7"),
        8 => out.append("8"),
        _ => out.append("9"),
    }
    proof {
        reveal_strlit("0");
        reveal_strlit("1");
        reveal_strlit("2");
        reveal_strlit("3");
        reveal_strlit("4");
        reveal_strlit("5");
        reveal_strlit("6");
        reveal_strlit("7");
        reveal_strlit("8");
        reveal_strlit("9");
        assert(out@ =~= old(out)@.push(digit_char(d as int)));
    }
}

fn push_dec(out: &mut String, n: u64)
    ensures
        final(out)@ == old(out)@ + dec_str(n as int),
    decreases n,
{
    if n < 10 {
        push_digit(out, n as u8);
        proof {
            assert(out@ =~= old(out)@ + dec_str(n as int));
        }
    } else {
        push_dec(out, n / 10);
        push_digit(out, (n % 10) as u8);
        proof {
            assert(out@ =~= old(out)@ + dec_str(n as int));
        }
    }
}

fn push_coord(out: &mut String, c: i64)
    ensures
        final(out)@ == old(out)@ + coord_str(c as int),
{
    if c < 0 {
        out.append("-");
    }
    let a: u64 = if c < 0 {
        (-(c as i128)) as u64
    } else {
        c as u64
    };
    push_dec(out, a / 100);
    out.append(".");
    push_digit(out, ((a / 10) % 10) as u8);
    push_digit(out, (a % 10) as u8);
    proof {
        reveal_strlit("-");
        reveal_strlit(".");
        assert(out@ =~= old(out)@ + coord_str(c as int));
    }
}

/// Normalizes a query's coordinate pair into its canonical cache key.
///
/// Both coordinates are rounded to two decimal places and rendered as
/// `"(lat,lon)"`; a malformed coordinate yields no key.
pub fn normalize(lat: &str, lon: &str) -> (r: Option<String>)
    ensures
        match r {
            Some(k) => normalize_spec(lat@, lon@) == Some(k@),
            None => normalize_spec(lat@, lon@) is None,
        },
{
    let la = parse_coord(lat);
    let lo = parse_coord(lon);
    match (la, lo) {
        (Some(a), Some(b)) => {
            let mut out = String::new();
            out.append("(");
            push_coord(&mut out, a);
            out.append(",");
            push_coord(&mut out, b);
            out.append(")");
            proof {
                reveal_strlit("(");
                reveal_strlit(",");
                reveal_strlit(")");
                assert(out@ =~= key_str(a as int, b as int));
            }
            Some(out)
        },
        _ => None,
    }
}

} // verus!
