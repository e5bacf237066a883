//! Python's `unicode_escape` codec: decoding escaped bytes into code points
//! (lone surrogates included, so code points rather than `char`s) and
//! encoding code points back into escaped ASCII bytes.
//!
//! `\N{...}` escapes, which need the Unicode name database, are reported as
//! decoding errors.

use vstd::prelude::*;

verus! {

/// The value of a hexadecimal digit.
pub open spec fn hex_digit_value(b: u8) -> Option<nat> {
    if 48 <= b <= 57 {
        Some((b - 48) as nat)
    } else if 97 <= b <= 102 {
        Some((b - 87) as nat)
    } else if 65 <= b <= 70 {
        Some((b - 55) as nat)
    } else {
        None
    }
}

/// The value of the `n` hexadecimal digits of `s` starting at `j`, if they
/// are all there and all hexadecimal.
pub open spec fn hex_run(s: Seq<u8>, j: int, n: nat) -> Option<nat>
    decreases n,
{
    if n == 0 {
        Some(0)
    } else if j + n > s.len() || j < 0 {
        None
    } else {
        match (hex_run(s, j, (n - 1) as nat), hex_digit_value(s[j + n - 1])) {
            (Some(v), Some(d)) => Some(v * 16 + d),
            _ => None,
        }
    }
}

/// Whether `b` is an octal digit.
pub open spec fn is_octal(b: u8) -> bool {
    48 <= b <= 55
}

/// Number of octal digits of `s` starting at `j`, at most `n`.
pub open spec fn octal_len(s: Seq<u8>, j: int, n: nat) -> nat
    decreases n,
{
    if n == 0 || j < 0 || j >= s.len() || !is_octal(s[j]) {
        0
    } else {
        1 + octal_len(s, j + 1, (n - 1) as nat)
    }
}

/// The value of the `n` octal digits of `s` starting at `j`.
pub open spec fn octal_value(s: Seq<u8>, j: int, n: nat) -> nat
    decreases n,
{
    if n == 0 {
        0
    } else {
        octal_value(s, j, (n - 1) as nat) * 8 + (s[j + n - 1] - 48) as nat
    }
}

/// The escape sequence starting with the backslash at `i`: how many bytes
/// it takes and which code point it stands for (`None` for an escaped line
/// break, which stands for nothing); `None` for an invalid escape.
pub open spec fn escape_at(s: Seq<u8>, i: int) -> Option<(nat, Option<u32>)> {
    if i + 1 >= s.len() {
        None
    } else {
        let c = s[i + 1];
        if c == 10 {
            Some((2nat, None))
        } else if c == 92 || c == 39 || c == 34 {
            Some((2nat, Some(c as u32)))
        } else if c == 97 {
            Some((2nat, Some(7u32)))
        } else if c == 98 {
            Some((2nat, Some(8u32)))
        } else if c == 102 {
            Some((2nat, Some(12u32)))
        } else if c == 110 {
            Some((2nat, Some(10u32)))
        } else if c == 114 {
            Some((2nat, Some(13u32)))
        } else if c == 116 {
            Some((2nat, Some(9u32)))
        } else if c == 118 {
            Some((2nat, Some(11u32)))
        } else if is_octal(c) {
            let n = octal_len(s, i + 1, 3);
            Some(((1 + n) as nat, Some(octal_value(s, i + 1, n) as u32)))
        } else if c == 120 || c == 117 || c == 85 {
            let n: nat = if c == 120 { 2 } else if c == 117 { 4 } else { 8 };
            match hex_run(s, i + 2, n) {
                Some(v) => if v <= 0x10ffff { Some(((2 + n) as nat, Some(v as u32))) } else { None },
                None => None,
            }
        } else if c == 78 {
            None
        } else {
            Some((1nat, Some(92u32)))
        }
    }
}

/// `s[i..].decode("unicode_escape")` as code points, `None` on error.
pub open spec fn decode_from(s: Seq<u8>, i: int) -> Option<Seq<u32>>
    decreases s.len() - i,
{
    if i < 0 || i >= s.len() {
        Some(Seq::empty())
    } else if s[i] != 92 {
        match decode_from(s, i + 1) {
            Some(r) => Some(seq![s[i] as u32] + r),
            None => None,
        }
    } else {
        match escape_at(s, i) {
            None => None,
            Some((k, cp)) => if k >= 1 && i + k <= s.len() {
                match decode_from(s, i + k) {
                    Some(r) => Some(
                        match cp {
                            Some(c) => seq![c] + r,
                            None => r,
                        },
                    ),
                    None => None,
                }
            } else {
                None
            },
        }
    }
}

/// `s.decode("unicode_escape")` as code points, `None` on error.
pub open spec fn decode_spec(s: Seq<u8>) -> Option<Seq<u32>> {
    decode_from(s, 0)
}

/// Lower-case hexadecimal digit `d` (`0 <= d < 16`).
pub open spec fn hex_char(d: nat) -> u8 {
    if d < 10 {
        (48 + d) as u8
    } else {
        (87 + d) as u8
    }
}

/// The `n` lower-case hexadecimal digits of `v`, most significant first.
pub open spec fn hex_digits(v: nat, n: nat) -> Seq<u8>
    decreases n,
{
    if n == 0 {
        Seq::empty()
    } else {
        hex_digits(v / 16, (n - 1) as nat).push(hex_char(v % 16))
    }
}

/// `chr(c).encode("unicode_escape")`.
pub open spec fn encode_point(c: u32) -> Seq<u8> {
    if c >= 0x10000 {
        seq![92u8, 85u8] + hex_digits(c as nat, 8)
    } else if c >= 256 {
        seq![92u8, 117u8] + hex_digits(c as nat, 4)
    } else if c == 92 {
        seq![92u8, 92u8]
    } else if c == 9 {
        seq![92u8, 116u8]
    } else if c == 10 {
        seq![92u8, 110u8]
    } else if c == 13 {
        seq![92u8, 114u8]
    } else if c < 32 || c >= 127 {
        seq![92u8, 120u8] + hex_digits(c as nat, 2)
    } else {
        seq![c as u8]
    }
}

/// `s.encode("unicode_escape")` for the code points `s`.
pub open spec fn encode_spec(s: Seq<u32>) -> Seq<u8>
    decreases s.len(),
{
    if s.len() == 0 {
        Seq::empty()
    } else {
        encode_spec(s.drop_last()) + encode_point(s.last())
    }
}

fn hex_value(b: u8) -> (r: Option<u32>)
    ensures
        match hex_digit_value(b) {
            Some(d) => r == Some(d as u32),
            None => r is None,
        },
{
    if 48 <= b && b <= 57 {
        Some((b - 48) as u32)
    } else if 97 <= b && b <= 102 {
        Some((b - 87) as u32)
    } else if 65 <= b && b <= 70 {
        Some((b - 55) as u32)
    } else {
        None
    }
}

fn read_hex(s: &[u8], j: usize, n: usize) -> (r: Option<u32>)
    requires
        n <= 8,
    ensures
        match hex_run(s@, j as int, n as nat) {
            Some(v) => v < 0x1_0000_0000 && r == Some(v as u32),
            None => r is None,
        },
{
    if n == 0 {
        return Some(0);
    }
    if j > s.len() || n > s.len() - j {
        proof {
            lemma_hex_run_short(s@, j as int, n as nat);
        }
        return None;
    }
    let len = s.len();
    let mut v: u32 = 0;
    let mut k: usize = 0;
    while k < n
        invariant
            n <= 8,
            len == s@.len(),
            j + n <= len,
            k <= n,
            hex_run(s@, j as int, k as nat) == Some(v as nat),
            v < pow16(k as nat),
        decreases n - k,
    {
        let b = s[j + k];
        match hex_value(b) {
            Some(d) => {
                proof {
                    lemma_pow16_bound(k as nat);
                    lemma_pow16_bound((k + 1) as nat);
                    assert(v * 16 + d < pow16((k + 1) as nat)) by (nonlinear_arith)
                        requires
                            v < pow16(k as nat),
                            d < 16,
                            pow16((k + 1) as nat) == pow16(k as nat) * 16,
                    ;
                }
                v = v * 16 + d;
                k = k + 1;
            },
            None => {
                proof {
                    lemma_hex_run_bad_digit(s@, j as int, k as nat, n as nat);
                }
                return None;
            },
        }
    }
    proof {
        lemma_pow16_bound(n as nat);
    }
    Some(v)
}

/// `16 ** n`.
pub open spec fn pow16(n: nat) -> nat
    decreases n,
{
    if n == 0 {
        1
    } else {
        pow16((n - 1) as nat) * 16
    }
}

proof fn lemma_pow16_bound(n: nat)
    requires
        n <= 8,
    ensures
        pow16(n) <= 0x1_0000_0000,
        pow16(n + 1) == pow16(n) * 16,
{
    assert(pow16(0) == 1);
    assert(pow16(1) == 16);
    assert(pow16(2) == 256);
    assert(pow16(3) == 4096);
    assert(pow16(4) == 65536);
    assert(pow16(5) == 1048576);
    assert(pow16(6) == 16777216);
    assert(pow16(7) == 268435456);
    assert(pow16(8) == 4294967296);
}

proof fn lemma_hex_run_short(s: Seq<u8>, j: int, n: nat)
    requires
        j + n > s.len(),
    ensures
        n > 0 ==> hex_run(s, j, n) is None,
{
}

proof fn lemma_hex_run_bad_digit(s: Seq<u8>, j: int, k: nat, n: nat)
    requires
        k < n,
        0 <= j,
        j + n <= s.len(),
        hex_digit_value(s[j + k]) is None,
    ensures
        hex_run(s, j, n) is None,
    decreases n - k,
{
    if n > k + 1 {
        lemma_hex_run_bad_digit(s, j, k, (n - 1) as nat);
    }
}

/// Decodes `s` as Python's `unicode_escape` codec does, into code points.
pub fn decode(s: &[u8]) -> (r: Result<Vec<u32>, String>)
    ensures
        match decode_spec(s@) {
            Some(cps) => r is Ok && r.unwrap()@ == cps,
            None => r is Err,
        },
{
    let n = s.len();
    let mut out: Vec<u32> = Vec::new();
    let mut i: usize = 0;
    while i < n
        invariant
            n == s@.len(),
            i <= n,
            decode_spec(s@) == match decode_from(s@, i as int) {
                Some(r) => Some(out@ + r),
                None => None,
            },
        decreases n - i,
    {
        let b = s[i];
        let ghost before = out@;
        if b != 92 {
            out.push(b as u32);
            i = i + 1;
            proof {
                match decode_from(s@, i as int) {
                    Some(r) => {
                        assert(before + (seq![b as u32] + r) =~= out@ + r);
                    },
                    None => {},
                }
            }
        } else {
            if i + 1 >= n {
                return Err(String::from_str("\\ at end of string"));
            }
            let c = s[i + 1];
            let ghost esc = escape_at(s@, i as int);
            let mut step: usize = 2;
            if c == 10 {
            } else if c == 92 || c == 39 || c == 34 {
                out.push(c as u32);
            } else if c == 97 {
                out.push(7);
            } else if c == 98 {
                out.push(8);
            } else if c == 102 {
                out.push(12);
            } else if c == 110 {
                out.push(10);
            } else if c == 114 {
                out.push(13);
            } else if c == 116 {
                out.push(9);
            } else if c == 118 {
                out.push(11);
            } else if 48 <= c && c <= 55 {
                let mut k: usize = 0;
                let mut v: u32 = 0;
                while k < 3 && i + 1 + k < n && 48 <= s[i + 1 + k] && s[i + 1 + k] <= 55
                    invariant
                        n == s@.len(),
                        i + 1 < n,
                        k <= 3,
                        i + 1 + k <= n,
                        octal_len(s@, (i + 1) as int, 3) == k + octal_len(s@, (i + 1 + k) as int, (3 - k) as nat),
                        v == octal_value(s@, (i + 1) as int, k as nat),
                        v < pow8(k as nat),
                    decreases 3 - k,
                {
                    proof {
                        lemma_pow8((k + 1) as nat);
                    }
                    v = v * 8 + (s[i + 1 + k] - 48) as u32;
                    k = k + 1;
                }
                proof {
                    assert(octal_len(s@, (i + 1 + k) as int, (3 - k) as nat) == 0);
                }
                out.push(v);
                step = 1 + k;
            } else if c == 120 || c == 117 || c == 85 {
                let m: usize = if c == 120 {
                    2
                } else if c == 117 {
                    4
                } else {
                    8
                };
                match read_hex(s, i + 2, m) {
                    Some(v) => {
                        if v > 0x10ffff {
                            return Err(String::from_str("illegal Unicode character"));
                        }
                        out.push(v);
                        step = 2 + m;
                    },
                    None => {
                        return Err(String::from_str("truncated escape"));
                    },
                }
            } else if c == 78 {
                return Err(String::from_str("unsupported \\N escape"));
            } else {
                out.push(92);
                step = 1;
            }
            proof {
                assert(esc matches Some((k, _)) && k == step);
                let cp = esc.unwrap().1;
                assert(out@ =~= before + match cp {
                    Some(x) => seq![x],
                    None => Seq::empty(),
                });
                match decode_from(s@, i + step) {
                    Some(r) => {
                        assert(before + (match cp {
                            Some(x) => seq![x] + r,
                            None => r,
                        }) =~= out@ + r);
                    },
                    None => {},
                }
            }
            i = i + step;
        }
    }
    assert(decode_from(s@, n as int) == Some(Seq::<u32>::empty()));
    assert(out@ + Seq::<u32>::empty() =~= out@);
    Ok(out)
}

/// `8 ** n`.
pub open spec fn pow8(n: nat) -> nat
    decreases n,
{
    if n == 0 {
        1
    } else {
        pow8((n - 1) as nat) * 8
    }
}

proof fn lemma_pow8(n: nat)
    requires
        n <= 3,
    ensures
        pow8(n) <= 512,
        n > 0 ==> pow8(n) == pow8((n - 1) as nat) * 8,
{
    assert(pow8(0) == 1);
    assert(pow8(1) == 8);
    assert(pow8(2) == 64);
    assert(pow8(3) == 512);
}

fn hex_byte(d: u32) -> (r: u8)
    requires
        d < 16,
    ensures
        r == hex_char(d as nat),
{
    if d < 10 {
        (48 + d) as u8
    } else {
        (87 + d) as u8
    }
}

fn push_hex(out: &mut Vec<u8>, v: u32, n: usize)
    requires
        n <= 8,
    ensures
        final(out)@ == old(out)@ + hex_digits(v as nat, n as nat),
    decreases n,
{
    if n > 0 {
        push_hex(out, v / 16, n - 1);
        out.push(hex_byte(v % 16));
        proof {
            let a = old(out)@ + hex_digits((v / 16) as nat, (n - 1) as nat);
            assert(out@ =~= a.push(hex_char((v % 16) as nat)));
            assert(hex_digits(v as nat, n as nat) =~= hex_digits((v / 16) as nat, (n - 1) as nat).push(
                hex_char((v % 16) as nat),
            ));
        }
    }
}

/// Encodes code points as Python's `unicode_escape` codec does.
pub fn encode(s: &[u32]) -> (r: Vec<u8>)
    ensures
        r@ == encode_spec(s@),
{
    let mut out: Vec<u8> = Vec::new();
    let mut i: usize = 0;
    while i < s.len()
        invariant
            i <= s@.len(),
            out@ == encode_spec(s@.subrange(0, i as int)),
        decreases s@.len() - i,
    {
        let c = s[i];
        let ghost before = out@;
        if c >= 0x10000 {
            out.push(92);
            out.push(85);
            push_hex(&mut out, c, 8);
        } else if c >= 256 {
            out.push(92);
            out.push(117);
            push_hex(&mut out, c, 4);
        } else if c == 92 {
            out.push(92);
            out.push(92);
        } else if c == 9 {
            out.push(92);
            out.push(116);
        } else if c == 10 {
            out.push(92);
            out.push(110);
        } else if c == 13 {
            out.push(92);
            out.push(114);
        } else if c < 32 || c >= 127 {
            out.push(92);
            out.push(120);
            push_hex(&mut out, c, 2);
        } else {
            out.push(c as u8);
        }
        proof {
            assert(out@ =~= before + encode_point(c));
            let t = s@.subrange(0, i + 1);
            assert(t.drop_last() =~= s@.subrange(0, i as int));
            assert(t.last() == c);
        }
        i = i + 1;
    }
    assert(s@.subrange(0, s@.len() as int) =~= s@);
    out
}

} // verus!
