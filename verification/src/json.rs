use vstd::prelude::*;

verus! {

// Byte values are written as hex ASCII codes: 0x20 space, 0x22 '"', 0x2c ',',
// 0x2d '-', 0x2e '.', 0x30..0x39 digits, 0x3a ':', 0x5b '[', 0x5c '\',
// 0x5d ']', 0x7b '{', 0x7d '}'.

/// JSON insignificant whitespace.
pub open spec fn is_ws(b: u8) -> bool {
    b == 0x20 || b == 0x09 || b == 0x0a || b == 0x0d
}

/// The first index at or after `i` holding no whitespace.
pub open spec fn skip_ws_spec(s: Seq<u8>, i: int) -> int
    decreases s.len() - i,
{
    if 0 <= i < s.len() && is_ws(s[i]) {
        skip_ws_spec(s, i + 1)
    } else {
        i
    }
}

pub proof fn lemma_skip_ws_bounds(s: Seq<u8>, i: int)
    requires
        0 <= i <= s.len(),
    ensures
        i <= skip_ws_spec(s, i) <= s.len(),
    decreases s.len() - i,
{
    if i < s.len() && is_ws(s[i]) {
        lemma_skip_ws_bounds(s, i + 1);
    }
}

pub fn skip_ws(s: &Vec<u8>, i: usize) -> (r: usize)
    requires
        i <= s@.len(),
    ensures
        r == skip_ws_spec(s@, i as int),
        i <= r <= s@.len(),
    decreases s@.len() - i,
{
    if i < s.len() {
        let b = s[i];
        if b == 0x20 || b == 0x09 || b == 0x0a || b == 0x0d {
            return skip_ws(s, i + 1);
        }
    }
    i
}

/// What a backslash escape decodes to, for the single-character escapes.
pub open spec fn escape_decode(e: u8) -> Option<u8> {
    if e == 0x22 {
        Some(0x22u8)  // \"
    } else if e == 0x5c {
        Some(0x5cu8)  // backslash
    } else if e == 0x2f {
        Some(0x2fu8)  // \/
    } else if e == 0x62 {
        Some(0x08u8)  // \b
    } else if e == 0x66 {
        Some(0x0cu8)  // \f
    } else if e == 0x6e {
        Some(0x0au8)  // \n
    } else if e == 0x72 {
        Some(0x0du8)  // \r
    } else if e == 0x74 {
        Some(0x09u8)  // \t
    } else {
        None
    }
}

fn escape_decode_exec(e: u8) -> (r: Option<u8>)
    ensures
        r == escape_decode(e),
{
    if e == 0x22 {
        Some(0x22u8)
    } else if e == 0x5c {
        Some(0x5cu8)
    } else if e == 0x2f {
        Some(0x2fu8)
    } else if e == 0x62 {
        Some(0x08u8)
    } else if e == 0x66 {
        Some(0x0cu8)
    } else if e == 0x6e {
        Some(0x0au8)
    } else if e == 0x72 {
        Some(0x0du8)
    } else if e == 0x74 {
        Some(0x09u8)
    } else {
        None
    }
}

/// The value of one hexadecimal digit, upper or lower case.
pub open spec fn hex_val(b: u8) -> Option<int> {
    if 0x30 <= b && b <= 0x39 {
        Some((b - 0x30) as int)
    } else if 0x61 <= b && b <= 0x66 {
        Some((b - 0x61 + 10) as int)
    } else if 0x41 <= b && b <= 0x46 {
        Some((b - 0x41 + 10) as int)
    } else {
        None
    }
}

fn hex_val_exec(b: u8) -> (r: Option<u8>)
    ensures
        (match r {
            Some(v) => hex_val(b) == Some(v as int) && v < 16,
            None => hex_val(b) is None,
        }),
{
    if 0x30 <= b && b <= 0x39 {
        Some(b - 0x30)
    } else if 0x61 <= b && b <= 0x66 {
        Some(b - 0x61 + 10)
    } else if 0x41 <= b && b <= 0x46 {
        Some(b - 0x41 + 10)
    } else {
        None
    }
}

/// The value of the four hexadecimal digits at `j`.
pub open spec fn hex4_spec(s: Seq<u8>, j: int) -> Option<int> {
    if 0 <= j && j + 4 <= s.len() {
        match (hex_val(s[j]), hex_val(s[j + 1]), hex_val(s[j + 2]), hex_val(s[j + 3])) {
            (Some(a), Some(b), Some(c), Some(d)) => Some(a * 0x1000 + b * 0x100 + c * 0x10 + d),
            _ => None,
        }
    } else {
        None
    }
}

fn hex4(s: &Vec<u8>, j: usize) -> (r: Option<u32>)
    requires
        j <= s@.len(),
    ensures
        (match r {
            Some(v) => hex4_spec(s@, j as int) == Some(v as int) && v <= 0xFFFF && j + 4
                <= s@.len(),
            None => hex4_spec(s@, j as int) is None,
        }),
{
    if s.len() - j >= 4 {
        match (
            hex_val_exec(s[j]),
            hex_val_exec(s[j + 1]),
            hex_val_exec(s[j + 2]),
            hex_val_exec(s[j + 3]),
        ) {
            (Some(a), Some(b), Some(c), Some(d)) => Some(
                (a as u32) * 0x1000 + (b as u32) * 0x100 + (c as u32) * 0x10 + (d as u32),
            ),
            _ => None,
        }
    } else {
        None
    }
}

/// The UTF-8 encoding of the code point `c`.
pub open spec fn utf8_encode(c: int) -> Seq<u8> {
    if c < 0x80 {
        seq![c as u8]
    } else if c < 0x800 {
        seq![(0xC0 + c / 0x40) as u8, (0x80 + c % 0x40) as u8]
    } else if c < 0x10000 {
        seq![(0xE0 + c / 0x1000) as u8, (0x80 + (c / 0x40) % 0x40) as u8, (0x80 + c % 0x40) as u8]
    } else {
        seq![
            (0xF0 + c / 0x40000) as u8,
            (0x80 + (c / 0x1000) % 0x40) as u8,
            (0x80 + (c / 0x40) % 0x40) as u8,
            (0x80 + c % 0x40) as u8,
        ]
    }
}

/// Append the UTF-8 encoding of `c` to `out`.
fn push_utf8(out: &mut Vec<u8>, c: u32)
    requires
        c <= 0x10FFFF,
    ensures
        final(out)@ == old(out)@ + utf8_encode(c as int),
{
    let ghost base = out@;
    if c < 0x80 {
        out.push(c as u8);
    } else if c < 0x800 {
        out.push((0xC0 + c / 0x40) as u8);
        out.push((0x80 + c % 0x40) as u8);
    } else if c < 0x10000 {
        out.push((0xE0 + c / 0x1000) as u8);
        out.push((0x80 + (c / 0x40) % 0x40) as u8);
        out.push((0x80 + c % 0x40) as u8);
    } else {
        out.push((0xF0 + c / 0x40000) as u8);
        out.push((0x80 + (c / 0x1000) % 0x40) as u8);
        out.push((0x80 + (c / 0x40) % 0x40) as u8);
        out.push((0x80 + c % 0x40) as u8);
    }
    proof {
        assert(out@ =~= base + utf8_encode(c as int));
    }
}

/// The bytes a `\u` escape decodes to, read from its first hexadecimal digit
/// at `j`, with the index just after the escape: one code unit for a value
/// outside the surrogate range, a high surrogate followed by a second `\u`
/// escape holding a low surrogate for the code points beyond them, and a lone
/// surrogate malformed.
pub open spec fn u_escape_spec(s: Seq<u8>, j: int) -> Option<(Seq<u8>, int)> {
    match hex4_spec(s, j) {
        None => None,
        Some(c1) => {
            if 0xD800 <= c1 && c1 < 0xDC00 {
                if j + 10 <= s.len() && s[j + 4] == 0x5c && s[j + 5] == 0x75 {
                    match hex4_spec(s, j + 6) {
                        None => None,
                        Some(c2) => {
                            if 0xDC00 <= c2 && c2 < 0xE000 {
                                Some(
                                    (
                                        utf8_encode(
                                            0x10000 + (c1 - 0xD800) * 0x400 + (c2 - 0xDC00),
                                        ),
                                        j + 10,
                                    ),
                                )
                            } else {
                                None
                            }
                        },
                    }
                } else {
                    None
                }
            } else if 0xDC00 <= c1 && c1 < 0xE000 {
                None
            } else {
                Some((utf8_encode(c1), j + 4))
            }
        },
    }
}

fn u_escape(s: &Vec<u8>, j: usize) -> (r: Option<(Vec<u8>, usize)>)
    requires
        j <= s@.len(),
    ensures
        (match r {
            Some((v, e)) => u_escape_spec(s@, j as int) == Some((v@, e as int)) && j < e
                <= s@.len(),
            None => u_escape_spec(s@, j as int) is None,
        }),
{
    let c1 = match hex4(s, j) {
        None => {
            return None;
        },
        Some(c) => c,
    };
    if 0xD800 <= c1 && c1 < 0xDC00 {
        if s.len() - j >= 10 && s[j + 4] == 0x5c && s[j + 5] == 0x75 {
            match hex4(s, j + 6) {
                None => None,
                Some(c2) => {
                    if 0xDC00 <= c2 && c2 < 0xE000 {
                        let code: u32 = 0x10000 + (c1 - 0xD800) * 0x400 + (c2 - 0xDC00);
                        let mut v: Vec<u8> = Vec::new();
                        push_utf8(&mut v, code);
                        proof {
                            assert(Seq::<u8>::empty() + utf8_encode(code as int) =~= utf8_encode(
                                code as int,
                            ));
                        }
                        Some((v, j + 10))
                    } else {
                        None
                    }
                },
            }
        } else {
            None
        }
    } else if 0xDC00 <= c1 && c1 < 0xE000 {
        None
    } else {
        let n = s.len();
        let mut v: Vec<u8> = Vec::new();
        push_utf8(&mut v, c1);
        proof {
            assert(Seq::<u8>::empty() + utf8_encode(c1 as int) =~= utf8_encode(c1 as int));
            assert(j + 4 <= n);
        }
        Some((v, j + 4))
    }
}

/// The decoded content and end index of a string body read from `i` (just
/// after the opening quote) through its closing quote. Unescaped control
/// bytes and unknown escapes are malformed.
pub open spec fn string_body_spec(s: Seq<u8>, i: int) -> Option<(Seq<u8>, int)>
    decreases s.len() - i,
{
    if !(0 <= i < s.len()) {
        None
    } else if s[i] == 0x22 {
        Some((Seq::<u8>::empty(), i + 1))
    } else if s[i] == 0x5c {
        if i + 1 < s.len() && s[i + 1] == 0x75 {
            match u_escape_spec(s, i + 2) {
                Some(enc) => match string_body_spec(s, enc.1) {
                    Some(rest) => Some((enc.0 + rest.0, rest.1)),
                    None => None,
                },
                None => None,
            }
        } else if i + 1 < s.len() {
            match escape_decode(s[i + 1]) {
                Some(d) => match string_body_spec(s, i + 2) {
                    Some(rest) => Some((seq![d] + rest.0, rest.1)),
                    None => None,
                },
                None => None,
            }
        } else {
            None
        }
    } else if s[i] < 0x20 {
        None
    } else {
        match string_body_spec(s, i + 1) {
            Some(rest) => Some((seq![s[i]] + rest.0, rest.1)),
            None => None,
        }
    }
}

fn string_body(s: &Vec<u8>, i: usize) -> (r: Option<(Vec<u8>, usize)>)
    requires
        i <= s@.len(),
    ensures
        (match r {
            Some((v, j)) => string_body_spec(s@, i as int) == Some((v@, j as int)) && i < j
                <= s@.len(),
            None => string_body_spec(s@, i as int) is None,
        }),
    decreases s@.len() - i,
{
    if i >= s.len() {
        return None;
    }
    let b = s[i];
    if b == 0x22 {
        Some((Vec::new(), i + 1))
    } else if b == 0x5c {
        if i + 1 < s.len() && s[i + 1] == 0x75 {
            match u_escape(s, i + 2) {
                Some((mut enc, j2)) => match string_body(s, j2) {
                    Some((mut rest, j)) => {
                        let ghost enc_v = enc@;
                        let ghost rest_v = rest@;
                        enc.append(&mut rest);
                        proof {
                            assert(enc@ =~= enc_v + rest_v);
                        }
                        Some((enc, j))
                    },
                    None => None,
                },
                None => None,
            }
        } else if i + 1 < s.len() {
            match escape_decode_exec(s[i + 1]) {
                Some(d) => match string_body(s, i + 2) {
                    Some((mut v, j)) => {
                        let ghost prev = v@;
                        v.insert(0, d);
                        proof {
                            assert(v@ =~= seq![d] + prev);
                        }
                        Some((v, j))
                    },
                    None => None,
                },
                None => None,
            }
        } else {
            None
        }
    } else if b < 0x20 {
        None
    } else {
        match string_body(s, i + 1) {
            Some((mut v, j)) => {
                let ghost prev = v@;
                v.insert(0, b);
                proof {
                    assert(v@ =~= seq![b] + prev);
                }
                Some((v, j))
            },
            None => None,
        }
    }
}

/// The decoded content and end index of a JSON string starting at `i` with its
/// opening quote.
pub open spec fn string_at_spec(s: Seq<u8>, i: int) -> Option<(Seq<u8>, int)> {
    if 0 <= i < s.len() && s[i] == 0x22 {
        string_body_spec(s, i + 1)
    } else {
        None
    }
}

pub fn string_at(s: &Vec<u8>, i: usize) -> (r: Option<(Vec<u8>, usize)>)
    requires
        i <= s@.len(),
    ensures
        (match r {
            Some((v, j)) => string_at_spec(s@, i as int) == Some((v@, j as int)) && i < j
                <= s@.len(),
            None => string_at_spec(s@, i as int) is None,
        }),
{
    if i < s.len() && s[i] == 0x22 {
        string_body(s, i + 1)
    } else {
        None
    }
}

/// Decimal digit.
pub open spec fn is_digit(b: u8) -> bool {
    0x30 <= b && b <= 0x39
}

/// The first index at or after `i` holding no decimal digit.
pub open spec fn skip_digits_spec(s: Seq<u8>, i: int) -> int
    decreases s.len() - i,
{
    if 0 <= i < s.len() && is_digit(s[i]) {
        skip_digits_spec(s, i + 1)
    } else {
        i
    }
}

pub proof fn lemma_skip_digits_bounds(s: Seq<u8>, i: int)
    requires
        0 <= i <= s.len(),
    ensures
        i <= skip_digits_spec(s, i) <= s.len(),
    decreases s.len() - i,
{
    if i < s.len() && is_digit(s[i]) {
        lemma_skip_digits_bounds(s, i + 1);
    }
}

fn skip_digits(s: &Vec<u8>, i: usize) -> (r: usize)
    requires
        i <= s@.len(),
    ensures
        r == skip_digits_spec(s@, i as int),
        i <= r <= s@.len(),
    decreases s@.len() - i,
{
    if i < s.len() {
        let b = s[i];
        if 0x30 <= b && b <= 0x39 {
            return skip_digits(s, i + 1);
        }
    }
    i
}

/// End of a number's integer digits starting at `i`: a lone `0`, or a nonzero
/// digit followed by any digits.
pub open spec fn int_end_spec(s: Seq<u8>, i: int) -> Option<int> {
    if 0 <= i < s.len() && s[i] == 0x30 {
        Some(i + 1)
    } else if 0 <= i < s.len() && is_digit(s[i]) {
        Some(skip_digits_spec(s, i))
    } else {
        None
    }
}

/// End of the optional fraction part starting at `i`: a dot must carry at
/// least one digit; no dot means the part is empty.
pub open spec fn frac_end_spec(s: Seq<u8>, i: int) -> Option<int> {
    if 0 <= i < s.len() && s[i] == 0x2e {
        let j = skip_digits_spec(s, i + 1);
        if j > i + 1 {
            Some(j)
        } else {
            None
        }
    } else {
        Some(i)
    }
}

/// End of the optional exponent part starting at `i`: `e` or `E`, an optional
/// sign, then at least one digit; no marker means the part is empty.
pub open spec fn exp_end_spec(s: Seq<u8>, i: int) -> Option<int> {
    if 0 <= i < s.len() && (s[i] == 0x65 || s[i] == 0x45) {
        let k = if i + 1 < s.len() && (s[i + 1] == 0x2b || s[i + 1] == 0x2d) {
            i + 2
        } else {
            i + 1
        };
        let j = skip_digits_spec(s, k);
        if j > k {
            Some(j)
        } else {
            None
        }
    } else {
        Some(i)
    }
}

/// End of the JSON number token starting at `i`, if one starts there:
/// an optional minus, integer digits, optional fraction, optional exponent.
pub open spec fn number_end_spec(s: Seq<u8>, i: int) -> Option<int> {
    let m = if 0 <= i < s.len() && s[i] == 0x2d {
        i + 1
    } else {
        i
    };
    match int_end_spec(s, m) {
        None => None,
        Some(a) => match frac_end_spec(s, a) {
            None => None,
            Some(b) => exp_end_spec(s, b),
        },
    }
}

pub proof fn lemma_number_end_bounds(s: Seq<u8>, i: int)
    requires
        0 <= i <= s.len(),
    ensures
        (match number_end_spec(s, i) {
            Some(e) => i < e <= s.len(),
            None => true,
        }),
{
    let m = if 0 <= i < s.len() && s[i] == 0x2d {
        i + 1
    } else {
        i
    };
    match int_end_spec(s, m) {
        None => {},
        Some(a) => {
            if m < s.len() && s[m] == 0x30 {
            } else {
                lemma_skip_digits_bounds(s, m + 1);
                assert(skip_digits_spec(s, m) == skip_digits_spec(s, m + 1));
            }
            assert(m < a <= s.len());
            match frac_end_spec(s, a) {
                None => {},
                Some(b) => {
                    if a < s.len() && s[a] == 0x2e {
                        lemma_skip_digits_bounds(s, a + 1);
                    }
                    assert(a <= b <= s.len());
                    match exp_end_spec(s, b) {
                        None => {},
                        Some(e) => {
                            if b < s.len() && (s[b] == 0x65 || s[b] == 0x45) {
                                if b + 1 < s.len() && (s[b + 1] == 0x2b || s[b + 1] == 0x2d) {
                                    lemma_skip_digits_bounds(s, b + 2);
                                } else {
                                    lemma_skip_digits_bounds(s, b + 1);
                                }
                            }
                            assert(b <= e <= s.len());
                        },
                    }
                },
            }
        },
    }
}

fn number_end(s: &Vec<u8>, i: usize) -> (r: Option<usize>)
    requires
        i <= s@.len(),
    ensures
        (match r {
            Some(e) => number_end_spec(s@, i as int) == Some(e as int) && i < e <= s@.len(),
            None => number_end_spec(s@, i as int) is None,
        }),
{
    proof {
        lemma_number_end_bounds(s@, i as int);
    }
    let m = if i < s.len() && s[i] == 0x2d {
        i + 1
    } else {
        i
    };
    let a = if m < s.len() && s[m] == 0x30 {
        m + 1
    } else if m < s.len() && 0x30 <= s[m] && s[m] <= 0x39 {
        skip_digits(s, m)
    } else {
        return None;
    };
    let b = if a < s.len() && s[a] == 0x2e {
        let j = skip_digits(s, a + 1);
        if j > a + 1 {
            j
        } else {
            return None;
        }
    } else {
        a
    };
    if b < s.len() && (s[b] == 0x65 || s[b] == 0x45) {
        let k = if b + 1 < s.len() && (s[b + 1] == 0x2b || s[b + 1] == 0x2d) {
            b + 2
        } else {
            b + 1
        };
        let j = skip_digits(s, k);
        if j > k {
            Some(j)
        } else {
            None
        }
    } else {
        Some(b)
    }
}

/// Copy of `s[a..b]`.
fn sub_vec(s: &Vec<u8>, a: usize, b: usize) -> (v: Vec<u8>)
    requires
        a <= b <= s@.len(),
    ensures
        v@ == s@.subrange(a as int, b as int),
{
    let mut v: Vec<u8> = Vec::new();
    let mut k: usize = a;
    while k < b
        invariant
            a <= k <= b <= s@.len(),
            v@ == s@.subrange(a as int, k as int),
        decreases b - k,
    {
        v.push(s[k]);
        proof {
            assert(s@.subrange(a as int, k + 1 as int) =~= s@.subrange(a as int, k as int).push(
                s@[k as int],
            ));
        }
        k = k + 1;
    }
    v
}

/// Whether the byte contents are equal.
pub fn bytes_eq(a: &Vec<u8>, b: &Vec<u8>) -> (r: bool)
    ensures
        r <==> a@ == b@,
{
    if a.len() != b.len() {
        return false;
    }
    let mut k: usize = 0;
    while k < a.len()
        invariant
            k <= a@.len(),
            a@.len() == b@.len(),
            a@.subrange(0, k as int) == b@.subrange(0, k as int),
        decreases a@.len() - k,
    {
        if a[k] != b[k] {
            proof {
                assert(a@[k as int] != b@[k as int]);
            }
            return false;
        }
        proof {
            assert(a@.subrange(0, k + 1 as int) =~= a@.subrange(0, k as int).push(a@[k as int]));
            assert(b@.subrange(0, k + 1 as int) =~= b@.subrange(0, k as int).push(b@[k as int]));
        }
        k = k + 1;
    }
    proof {
        assert(a@.subrange(0, a@.len() as int) =~= a@);
        assert(b@.subrange(0, b@.len() as int) =~= b@);
    }
    true
}

/// The number tokens of an array read from the first item at `i` through the
/// closing bracket, with the end index just after it.
pub open spec fn number_items_spec(s: Seq<u8>, i: int) -> Option<(Seq<Seq<u8>>, int)>
    decreases s.len() - i,
    when 0 <= i <= s.len()
    via number_items_decreases
{
    match number_end_spec(s, i) {
        None => None,
        Some(e) => {
            let w = skip_ws_spec(s, e);
            if w < s.len() && s[w] == 0x2c {
                let n = skip_ws_spec(s, w + 1);
                match number_items_spec(s, n) {
                    None => None,
                    Some(rest) => Some((seq![s.subrange(i, e)] + rest.0, rest.1)),
                }
            } else if w < s.len() && s[w] == 0x5d {
                Some((seq![s.subrange(i, e)], w + 1))
            } else {
                None
            }
        },
    }
}

#[via_fn]
proof fn number_items_decreases(s: Seq<u8>, i: int) {
    lemma_number_end_bounds(s, i);
    match number_end_spec(s, i) {
        None => {},
        Some(e) => {
            lemma_skip_ws_bounds(s, e);
            let w = skip_ws_spec(s, e);
            if w < s.len() {
                lemma_skip_ws_bounds(s, w + 1);
            }
        },
    }
}

fn number_items(s: &Vec<u8>, i: usize) -> (r: Option<(Vec<Vec<u8>>, usize)>)
    requires
        i <= s@.len(),
    ensures
        (match r {
            Some((v, j)) => number_items_spec(s@, i as int) == Some((v.deep_view(), j as int)) && i
                < j <= s@.len(),
            None => number_items_spec(s@, i as int) is None,
        }),
    decreases s@.len() - i,
{
    match number_end(s, i) {
        None => None,
        Some(e) => {
            let w = skip_ws(s, e);
            if w < s.len() && s[w] == 0x2c {
                let n = skip_ws(s, w + 1);
                match number_items(s, n) {
                    None => None,
                    Some((mut v, j)) => {
                        let tok = sub_vec(s, i, e);
                        let ghost prevraw = v@;
                        let ghost prev = v.deep_view();
                        let ghost tokv = tok@;
                        v.insert(0, tok);
                        proof {
                            assert forall|k: int|
                                0 <= k < v.deep_view().len() implies #[trigger] v.deep_view()[k]
                                == (seq![tokv] + prev)[k] by {
                                if k > 0 {
                                    assert(v@[k] == prevraw[k - 1]);
                                    assert(prev[k - 1] == prevraw[k - 1].deep_view());
                                }
                            }
                            assert(v.deep_view() =~= seq![tokv] + prev);
                        }
                        Some((v, j))
                    },
                }
            } else if w < s.len() && s[w] == 0x5d {
                let tok = sub_vec(s, i, e);
                let mut v: Vec<Vec<u8>> = Vec::new();
                v.push(tok);
                proof {
                    assert(v@[0] == tok);
                    assert(v.deep_view()[0] == tok.deep_view());
                    assert(tok.deep_view() =~= tok@);
                    assert(v.deep_view() =~= seq![s@.subrange(i as int, e as int)]);
                }
                Some((v, w + 1))
            } else {
                None
            }
        },
    }
}

/// The number tokens of a full array starting at `i` with its opening bracket,
/// with the end index just after the closing bracket.
pub open spec fn number_array_spec(s: Seq<u8>, i: int) -> Option<(Seq<Seq<u8>>, int)> {
    if 0 <= i < s.len() && s[i] == 0x5b {
        let w = skip_ws_spec(s, i + 1);
        if w < s.len() && s[w] == 0x5d {
            Some((Seq::<Seq<u8>>::empty(), w + 1))
        } else {
            number_items_spec(s, w)
        }
    } else {
        None
    }
}

pub fn number_array(s: &Vec<u8>, i: usize) -> (r: Option<(Vec<Vec<u8>>, usize)>)
    requires
        i <= s@.len(),
    ensures
        (match r {
            Some((v, j)) => number_array_spec(s@, i as int) == Some((v.deep_view(), j as int)) && i
                < j <= s@.len(),
            None => number_array_spec(s@, i as int) is None,
        }),
{
    if i < s.len() && s[i] == 0x5b {
        let w = skip_ws(s, i + 1);
        if w < s.len() && s[w] == 0x5d {
            let v: Vec<Vec<u8>> = Vec::new();
            proof {
                assert(v.deep_view() =~= Seq::<Seq<u8>>::empty());
            }
            Some((v, w + 1))
        } else {
            number_items(s, w)
        }
    } else {
        None
    }
}

/// How one content byte is written inside a JSON string literal: the short
/// escapes for the bytes that have them, a `\u00..` escape for the other
/// control bytes, and the byte itself otherwise.
pub open spec fn escape_byte(b: u8) -> Seq<u8> {
    if b == 0x22 {
        seq![0x5cu8, 0x22u8]
    } else if b == 0x5c {
        seq![0x5cu8, 0x5cu8]
    } else if b == 0x08 {
        seq![0x5cu8, 0x62u8]
    } else if b == 0x0c {
        seq![0x5cu8, 0x66u8]
    } else if b == 0x0a {
        seq![0x5cu8, 0x6eu8]
    } else if b == 0x0d {
        seq![0x5cu8, 0x72u8]
    } else if b == 0x09 {
        seq![0x5cu8, 0x74u8]
    } else if b < 0x20 {
        seq![0x5cu8, 0x75u8, 0x30u8, 0x30u8, hex_digit((b / 16) as u8), hex_digit((b % 16) as u8)]
    } else {
        seq![b]
    }
}

/// Lower-case hex digit for a value below 16.
pub open spec fn hex_digit(n: u8) -> u8 {
    if n < 10 {
        (0x30 + n) as u8
    } else {
        (0x57 + n) as u8
    }
}

/// A byte sequence written as the inside of a JSON string literal.
pub open spec fn escape_seq(s: Seq<u8>) -> Seq<u8>
    decreases s.len(),
{
    if s.len() == 0 {
        Seq::<u8>::empty()
    } else {
        escape_seq(s.drop_last()) + escape_byte(s.last())
    }
}

/// Append `escape_byte(b)` to `out`.
fn push_escaped(out: &mut Vec<u8>, b: u8)
    ensures
        final(out)@ == old(out)@ + escape_byte(b),
{
    let ghost prev = out@;
    if b == 0x22 {
        out.push(0x5c);
        out.push(0x22);
    } else if b == 0x5c {
        out.push(0x5c);
        out.push(0x5c);
    } else if b == 0x08 {
        out.push(0x5c);
        out.push(0x62);
    } else if b == 0x0c {
        out.push(0x5c);
        out.push(0x66);
    } else if b == 0x0a {
        out.push(0x5c);
        out.push(0x6e);
    } else if b == 0x0d {
        out.push(0x5c);
        out.push(0x72);
    } else if b == 0x09 {
        out.push(0x5c);
        out.push(0x74);
    } else if b < 0x20 {
        out.push(0x5c);
        out.push(0x75);
        out.push(0x30);
        out.push(0x30);
        let hi = b / 16;
        let lo = b % 16;
        out.push(if hi < 10 { 0x30 + hi } else { 0x57 + hi });
        out.push(if lo < 10 { 0x30 + lo } else { 0x57 + lo });
    } else {
        out.push(b);
    }
    proof {
        assert(out@ =~= prev + escape_byte(b));
    }
}

/// Append the whole escaped form of `s` to `out`.
pub fn push_escaped_all(out: &mut Vec<u8>, s: &Vec<u8>)
    ensures
        final(out)@ == old(out)@ + escape_seq(s@),
{
    let ghost base = out@;
    let mut k: usize = 0;
    while k < s.len()
        invariant
            k <= s@.len(),
            out@ == base + escape_seq(s@.take(k as int)),
        decreases s@.len() - k,
    {
        push_escaped(out, s[k]);
        proof {
            assert(s@.take(k + 1 as int).drop_last() =~= s@.take(k as int));
            assert(s@.take(k + 1 as int).last() == s@[k as int]);
            assert(base + escape_seq(s@.take(k as int)) + escape_byte(s@[k as int]) =~= base
                + escape_seq(s@.take(k + 1 as int)));
        }
        k = k + 1;
    }
    proof {
        assert(s@.take(s@.len() as int) =~= s@);
        assert(base + escape_seq(Seq::<u8>::empty()) =~= base);
    }
}


/// Any JSON value read from `i`, with the index just after it. `fuel` bounds
/// the member and element recursion; since every step that spends fuel first
/// consumes at least one byte, a fuel above the length remaining at `i` never
/// runs out. Every caller passes the whole input's length, and scanning starts
/// only after an opening brace, so the fuel always exceeds what remains.
pub open spec fn skip_value_spec(s: Seq<u8>, i: int, fuel: nat) -> Option<int>
    decreases fuel,
{
    if fuel == 0 {
        None
    } else if !(0 <= i < s.len()) {
        None
    } else if s[i] == 0x22 {
        match string_at_spec(s, i) {
            Some(r) => Some(r.1),
            None => None,
        }
    } else if s[i] == 0x7b {
        skip_members_spec(s, i + 1, true, (fuel - 1) as nat)
    } else if s[i] == 0x5b {
        skip_elems_spec(s, i + 1, true, (fuel - 1) as nat)
    } else if s[i] == 0x74 {
        // true
        if i + 4 <= s.len() && s[i + 1] == 0x72 && s[i + 2] == 0x75 && s[i + 3] == 0x65 {
            Some(i + 4)
        } else {
            None
        }
    } else if s[i] == 0x66 {
        // false
        if i + 5 <= s.len() && s[i + 1] == 0x61 && s[i + 2] == 0x6c && s[i + 3] == 0x73 && s[i + 4]
            == 0x65 {
            Some(i + 5)
        } else {
            None
        }
    } else if s[i] == 0x6e {
        // null
        if i + 4 <= s.len() && s[i + 1] == 0x75 && s[i + 2] == 0x6c && s[i + 3] == 0x6c {
            Some(i + 4)
        } else {
            None
        }
    } else {
        number_end_spec(s, i)
    }
}

/// The members of an object from just after its opening brace (or after a
/// comma, with `first` false) through the closing brace, with the index just
/// after it. Only a first member may be absent.
pub open spec fn skip_members_spec(s: Seq<u8>, i: int, first: bool, fuel: nat) -> Option<int>
    decreases fuel,
{
    if fuel == 0 {
        None
    } else {
        let w = skip_ws_spec(s, i);
        if first && w < s.len() && s[w] == 0x7d {
            Some(w + 1)
        } else {
            match string_at_spec(s, w) {
                None => None,
                Some(k) => {
                    let c = skip_ws_spec(s, k.1);
                    if c < s.len() && s[c] == 0x3a {
                        let p = skip_ws_spec(s, c + 1);
                        match skip_value_spec(s, p, (fuel - 1) as nat) {
                            None => None,
                            Some(e) => {
                                let w2 = skip_ws_spec(s, e);
                                if w2 < s.len() && s[w2] == 0x2c {
                                    skip_members_spec(s, w2 + 1, false, (fuel - 1) as nat)
                                } else if w2 < s.len() && s[w2] == 0x7d {
                                    Some(w2 + 1)
                                } else {
                                    None
                                }
                            },
                        }
                    } else {
                        None
                    }
                },
            }
        }
    }
}

/// The elements of an array from just after its opening bracket (or after a
/// comma, with `first` false) through the closing bracket, with the index just
/// after it. Only a first element may be absent.
pub open spec fn skip_elems_spec(s: Seq<u8>, i: int, first: bool, fuel: nat) -> Option<int>
    decreases fuel,
{
    if fuel == 0 {
        None
    } else {
        let w = skip_ws_spec(s, i);
        if first && w < s.len() && s[w] == 0x5d {
            Some(w + 1)
        } else {
            match skip_value_spec(s, w, (fuel - 1) as nat) {
                None => None,
                Some(e) => {
                    let w2 = skip_ws_spec(s, e);
                    if w2 < s.len() && s[w2] == 0x2c {
                        skip_elems_spec(s, w2 + 1, false, (fuel - 1) as nat)
                    } else if w2 < s.len() && s[w2] == 0x5d {
                        Some(w2 + 1)
                    } else {
                        None
                    }
                },
            }
        }
    }
}

/// Skip any JSON value; see `skip_value_spec`.
pub fn skip_value(s: &Vec<u8>, i: usize, fuel: usize) -> (r: Option<usize>)
    requires
        i <= s@.len(),
    ensures
        (match r {
            Some(e) => skip_value_spec(s@, i as int, fuel as nat) == Some(e as int) && i < e
                <= s@.len(),
            None => skip_value_spec(s@, i as int, fuel as nat) is None,
        }),
    decreases fuel,
{
    if fuel == 0 {
        return None;
    }
    if i >= s.len() {
        return None;
    }
    let b = s[i];
    if b == 0x22 {
        match string_at(s, i) {
            Some((_v, j)) => Some(j),
            None => None,
        }
    } else if b == 0x7b {
        skip_members(s, i + 1, true, fuel - 1)
    } else if b == 0x5b {
        skip_elems(s, i + 1, true, fuel - 1)
    } else if b == 0x74 {
        if s.len() - i >= 4 && s[i + 1] == 0x72 && s[i + 2] == 0x75 && s[i + 3] == 0x65 {
            Some(i + 4)
        } else {
            None
        }
    } else if b == 0x66 {
        if s.len() - i >= 5 && s[i + 1] == 0x61 && s[i + 2] == 0x6c && s[i + 3] == 0x73 && s[i + 4]
            == 0x65 {
            Some(i + 5)
        } else {
            None
        }
    } else if b == 0x6e {
        if s.len() - i >= 4 && s[i + 1] == 0x75 && s[i + 2] == 0x6c && s[i + 3] == 0x6c {
            Some(i + 4)
        } else {
            None
        }
    } else {
        number_end(s, i)
    }
}

/// Skip object members; see `skip_members_spec`.
pub fn skip_members(s: &Vec<u8>, i: usize, first: bool, fuel: usize) -> (r: Option<usize>)
    requires
        i <= s@.len(),
    ensures
        (match r {
            Some(e) => skip_members_spec(s@, i as int, first, fuel as nat) == Some(e as int) && i
                < e <= s@.len(),
            None => skip_members_spec(s@, i as int, first, fuel as nat) is None,
        }),
    decreases fuel,
{
    if fuel == 0 {
        return None;
    }
    let w = skip_ws(s, i);
    if first && w < s.len() && s[w] == 0x7d {
        return Some(w + 1);
    }
    let (_k, j) = match string_at(s, w) {
        None => {
            return None;
        },
        Some(x) => x,
    };
    let c = skip_ws(s, j);
    if !(c < s.len() && s[c] == 0x3a) {
        return None;
    }
    let p = skip_ws(s, c + 1);
    let e = match skip_value(s, p, fuel - 1) {
        None => {
            return None;
        },
        Some(e) => e,
    };
    let w2 = skip_ws(s, e);
    if w2 < s.len() && s[w2] == 0x2c {
        skip_members(s, w2 + 1, false, fuel - 1)
    } else if w2 < s.len() && s[w2] == 0x7d {
        Some(w2 + 1)
    } else {
        None
    }
}

/// Skip array elements; see `skip_elems_spec`.
pub fn skip_elems(s: &Vec<u8>, i: usize, first: bool, fuel: usize) -> (r: Option<usize>)
    requires
        i <= s@.len(),
    ensures
        (match r {
            Some(e) => skip_elems_spec(s@, i as int, first, fuel as nat) == Some(e as int) && i < e
                <= s@.len(),
            None => skip_elems_spec(s@, i as int, first, fuel as nat) is None,
        }),
    decreases fuel,
{
    if fuel == 0 {
        return None;
    }
    let w = skip_ws(s, i);
    if first && w < s.len() && s[w] == 0x5d {
        return Some(w + 1);
    }
    let e = match skip_value(s, w, fuel - 1) {
        None => {
            return None;
        },
        Some(e) => e,
    };
    let w2 = skip_ws(s, e);
    if w2 < s.len() && s[w2] == 0x2c {
        skip_elems(s, w2 + 1, false, fuel - 1)
    } else if w2 < s.len() && s[w2] == 0x5d {
        Some(w2 + 1)
    } else {
        None
    }
}

} // verus!
