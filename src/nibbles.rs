//! Nibble-packed integers of the VISCA wire format, and the conversion
//! between arc-seconds and VISCA angular units (2359 units per 36000
//! arc-seconds).
use vstd::prelude::*;
use vstd::string::StringExecFns;
use vstd::arithmetic::div_mod::{
    lemma_fundamental_div_mod, lemma_fundamental_div_mod_converse, lemma_mod_bound,
};

verus! {

/// `16` to the power `n`.
pub open spec fn pow16(n: nat) -> int
    decreases n,
{
    if n == 0 {
        1
    } else {
        16 * pow16((n - 1) as nat)
    }
}

/// The `n` least significant nibbles of `v` in two's complement, most
/// significant first.
pub open spec fn nibbles_of(v: int, n: nat) -> Seq<u8> {
    Seq::new(n, |j: int| ((v / pow16((n - 1 - j) as nat)) % 16) as u8)
}

/// The big-endian unsigned value of the low nibbles of `ns`.
pub open spec fn unsigned_value(ns: Seq<u8>) -> int
    decreases ns.len(),
{
    if ns.len() == 0 {
        0
    } else {
        unsigned_value(ns.drop_last()) * 16 + (ns.last() % 16) as int
    }
}

/// The value of `ns` read as a signed big-endian integer of `4 * len` bits.
pub open spec fn signed_value(ns: Seq<u8>) -> int {
    let u = unsigned_value(ns);
    if 2 * u >= pow16(ns.len()) {
        u - pow16(ns.len())
    } else {
        u
    }
}

/// Integer division rounded toward zero, for a positive divisor.
pub open spec fn div_toward_zero(a: int, d: int) -> int {
    if a >= 0 {
        a / d
    } else {
        -((-a) / d)
    }
}

/// Arc-seconds to VISCA angular units.
pub open spec fn sec_to_visca(secs: int) -> int {
    div_toward_zero(secs * 2359, 36000)
}

/// VISCA angular units to arc-seconds.
pub open spec fn visca_to_sec(units: int) -> int {
    div_toward_zero(units * 36000, 2359)
}

pub proof fn lemma_pow16_positive(n: nat)
    ensures
        pow16(n) >= 1,
    decreases n,
{
    if n > 0 {
        lemma_pow16_positive((n - 1) as nat);
    }
}

pub proof fn lemma_pow16_monotone(a: nat, b: nat)
    requires
        a <= b,
    ensures
        pow16(a) <= pow16(b),
    decreases b,
{
    if a < b {
        lemma_pow16_monotone(a, (b - 1) as nat);
        lemma_pow16_positive((b - 1) as nat);
    }
}

/// Dividing twice is dividing by the product; the remainder splits the same way.
proof fn lemma_div_mod_twice(v: int, a: int, b: int)
    requires
        a > 0,
        b > 0,
    ensures
        (v / a) / b == v / (a * b),
        v % (a * b) == a * ((v / a) % b) + v % a,
{
    let q1 = v / a;
    let r1 = v % a;
    let q2 = q1 / b;
    let r2 = q1 % b;
    lemma_fundamental_div_mod(v, a);
    lemma_fundamental_div_mod(q1, b);
    lemma_mod_bound(v, a);
    lemma_mod_bound(q1, b);
    assert(v == q2 * (a * b) + (a * r2 + r1)) by (nonlinear_arith)
        requires
            v == a * q1 + r1,
            q1 == b * q2 + r2,
    ;
    assert(0 <= a * r2 + r1 < a * b) by (nonlinear_arith)
        requires
            0 <= r1 < a,
            0 <= r2 < b,
    ;
    lemma_fundamental_div_mod_converse(v, a * b, q2, a * r2 + r1);
}

proof fn lemma_nibbles_drop_last(v: int, n: nat)
    ensures
        nibbles_of(v, n + 1).drop_last() == nibbles_of(v / 16, n),
        nibbles_of(v, n + 1).last() == (v % 16) as u8,
{
    let s = nibbles_of(v, n + 1);
    let t = nibbles_of(v / 16, n);
    assert forall|j: int| 0 <= j < n implies #[trigger] s.drop_last()[j] == t[j] by {
        lemma_pow16_positive((n - 1 - j) as nat);
        assert(pow16((n - j) as nat) == 16 * pow16((n - 1 - j) as nat));
        lemma_div_mod_twice(v, 16, pow16((n - 1 - j) as nat));
    }
    assert(s.drop_last() =~= t);
    assert(v / pow16(0) == v);
}

/// The nibbles of `v` read back unsigned give `v` modulo `16^n`.
pub proof fn lemma_unsigned_of_nibbles(v: int, n: nat)
    ensures
        unsigned_value(nibbles_of(v, n)) == v % pow16(n),
    decreases n,
{
    if n == 0 {
        assert(nibbles_of(v, 0).len() == 0);
        assert(v % 1 == 0) by {
            lemma_fundamental_div_mod_converse(v, 1, v, 0);
        }
    } else {
        let m = (n - 1) as nat;
        lemma_nibbles_drop_last(v, m);
        lemma_unsigned_of_nibbles(v / 16, m);
        lemma_pow16_positive(m);
        lemma_div_mod_twice(v, 16, pow16(m));
        lemma_mod_bound(v, 16);
        assert((((v % 16) as u8) % 16) as int == v % 16);
    }
}

/// Round trip of the nibble codec: for every `v` that fits in `n` signed
/// nibbles, encoding it and decoding the result gives `v` back.
pub proof fn lemma_nibbles_round_trip(v: int, n: nat)
    requires
        n >= 1,
        -pow16(n) <= 2 * v < pow16(n),
    ensures
        signed_value(nibbles_of(v, n)) == v,
{
    let p = pow16(n);
    lemma_pow16_positive(n);
    lemma_unsigned_of_nibbles(v, n);
    assert(nibbles_of(v, n).len() == n);
    if v >= 0 {
        lemma_fundamental_div_mod_converse(v, p, 0, v);
    } else {
        lemma_fundamental_div_mod_converse(v, p, -1, v + p);
    }
}

/// The nibbles of `v`, `size` of them, most significant first; negative
/// values are written in two's complement.
pub fn int_to_nibbles(v: i64, size: usize) -> (r: Vec<u8>)
    ensures
        r@ == nibbles_of(v as int, size as nat),
{
    let mut low_first: Vec<u8> = Vec::new();
    let mut p: i64 = v;
    let mut i: usize = 0;
    while i < size
        invariant
            i <= size,
            low_first@.len() == i,
            p as int == (v as int) / pow16(i as nat),
            forall|k: int|
                0 <= k < i ==> #[trigger] low_first@[k] == (((v as int) / pow16(k as nat)) % 16) as u8,
        decreases size - i,
    {
        proof {
            lemma_pow16_positive(i as nat);
            lemma_div_mod_twice(v as int, pow16(i as nat), 16);
            assert(pow16((i + 1) as nat) == 16 * pow16(i as nat));
            assert(pow16(i as nat) * 16 == 16 * pow16(i as nat));
            lemma_mod_bound(p as int, 16);
            lemma_fundamental_div_mod(p as int, 16);
        }
        let nib: i64 = match p.checked_rem_euclid(16) {
            Some(x) => x,
            None => 0,
        };
        let next: i64 = match p.checked_div_euclid(16) {
            Some(x) => x,
            None => 0,
        };
        low_first.push(nib as u8);
        p = next;
        i = i + 1;
    }
    let mut r: Vec<u8> = Vec::new();
    let mut j: usize = 0;
    while j < size
        invariant
            j <= size,
            low_first@.len() == size,
            r@.len() == j,
            forall|k: int|
                0 <= k < size ==> #[trigger] low_first@[k] == (((v as int) / pow16(k as nat)) % 16) as u8,
            forall|k: int| 0 <= k < j ==> #[trigger] r@[k] == nibbles_of(v as int, size as nat)[k],
        decreases size - j,
    {
        r.push(low_first[size - 1 - j]);
        j = j + 1;
    }
    assert(r@ =~= nibbles_of(v as int, size as nat));
    r
}

/// The value of `nibbles` as a signed big-endian integer of `4 * len` bits;
/// only the low four bits of each byte count.
pub fn nibbles_to_int(nibbles: &[u8]) -> (r: i64)
    requires
        1 <= nibbles@.len() <= 16,
    ensures
        r as int == signed_value(nibbles@),
{
    let n = nibbles.len();
    let mut acc: u128 = 0;
    let mut pw: u128 = 1;
    let mut i: usize = 0;
    proof {
        lemma_pow16_monotone(n as nat, 16);
        reveal_with_fuel(pow16, 17);
        assert(pow16(16) == 0x1_0000_0000_0000_0000);
    }
    while i < n
        invariant
            i <= n,
            n == nibbles@.len(),
            n <= 16,
            pow16(n as nat) <= 0x1_0000_0000_0000_0000,
            pw as int == pow16(i as nat),
            acc as int == unsigned_value(nibbles@.take(i as int)),
            acc < pw,
        decreases n - i,
    {
        proof {
            lemma_pow16_monotone((i + 1) as nat, n as nat);
            let t = nibbles@.take(i as int + 1);
            assert(t.drop_last() =~= nibbles@.take(i as int));
            assert(t.last() == nibbles@[i as int]);
        }
        let byte: u8 = nibbles[i];
        let nib: u8 = byte & 0x0F;
        assert(byte & 0x0F == byte % 16) by (bit_vector);
        assert(acc * 16 + nib < pw * 16) by (nonlinear_arith)
            requires
                acc < pw,
                nib < 16,
        ;
        acc = acc * 16 + nib as u128;
        pw = pw * 16;
        i = i + 1;
    }
    assert(nibbles@.take(n as int) =~= nibbles@);
    if 2 * acc >= pw {
        (acc as i128 - pw as i128) as i64
    } else {
        acc as i64
    }
}

/// An angle in arc-seconds as `size` nibbles of VISCA angular units,
/// rounded toward zero.
pub fn sec_angle_to_nibbles(secang: i64, size: usize) -> (r: Vec<u8>)
    ensures
        r@ == nibbles_of(sec_to_visca(secang as int), size as nat),
{
    let wide: i128 = secang as i128 * 2359;
    let units: i64 = if wide >= 0 {
        ((wide as u128) / 36000) as i64
    } else {
        -(((-wide) as u128 / 36000) as i64)
    };
    int_to_nibbles(units, size)
}

/// Nibbles of VISCA angular units as an angle in arc-seconds, rounded
/// toward zero.
pub fn nibbles_to_sec_angle(nibbles: &[u8]) -> (r: i64)
    requires
        1 <= nibbles@.len() <= 15,
    ensures
        r as int == visca_to_sec(signed_value(nibbles@)),
{
    let v = nibbles_to_int(nibbles);
    proof {
        lemma_signed_value_bounds(nibbles@);
        lemma_pow16_monotone(nibbles@.len(), 15);
        reveal_with_fuel(pow16, 16);
        assert(pow16(15) == 0x1000_0000_0000_0000);
    }
    let wide: i128 = v as i128 * 36000;
    if wide >= 0 {
        ((wide as u128) / 2359) as i64
    } else {
        -(((-wide) as u128 / 2359) as i64)
    }
}

/// A signed nibble value lies in `[-16^n / 2, 16^n / 2)`.
pub proof fn lemma_signed_value_bounds(ns: Seq<u8>)
    ensures
        -pow16(ns.len()) <= 2 * signed_value(ns) < pow16(ns.len()),
{
    lemma_unsigned_value_bounds(ns);
}

pub proof fn lemma_unsigned_value_bounds(ns: Seq<u8>)
    ensures
        0 <= unsigned_value(ns) < pow16(ns.len()),
    decreases ns.len(),
{
    if ns.len() > 0 {
        lemma_unsigned_value_bounds(ns.drop_last());
        assert(unsigned_value(ns) < pow16(ns.len())) by (nonlinear_arith)
            requires
                unsigned_value(ns) == unsigned_value(ns.drop_last()) * 16 + (ns.last() % 16) as int,
                0 <= unsigned_value(ns.drop_last()) < pow16(ns.drop_last().len()),
                pow16(ns.len()) == 16 * pow16(ns.drop_last().len()),
                0 <= ((ns.last() % 16) as int) < 16,
        ;
    }
}

/// Converting VISCA units to arc-seconds and back loses at most one unit,
/// always toward zero.
proof fn lemma_units_seconds_units(v: int)
    ensures
        v >= 0 ==> v - 1 <= sec_to_visca(visca_to_sec(v)) <= v,
        v < 0 ==> v <= sec_to_visca(visca_to_sec(v)) <= v + 1,
{
    let a = if v >= 0 { v } else { -v };
    let s = (a * 36000) / 2359;
    let w = (s * 2359) / 36000;
    assert(a * 36000 >= 0) by (nonlinear_arith)
        requires
            a >= 0,
    ;
    lemma_fundamental_div_mod(a * 36000, 2359);
    lemma_mod_bound(a * 36000, 2359);
    assert(s >= 0);
    assert(s * 2359 >= 0) by (nonlinear_arith)
        requires
            s >= 0,
    ;
    lemma_fundamental_div_mod(s * 2359, 36000);
    lemma_mod_bound(s * 2359, 36000);
    assert(a - 1 <= w <= a) by (nonlinear_arith)
        requires
            a * 36000 == 2359 * s + (a * 36000) % 2359,
            0 <= (a * 36000) % 2359 < 2359,
            s * 2359 == 36000 * w + (s * 2359) % 36000,
            0 <= (s * 2359) % 36000 < 36000,
    ;
    if v >= 0 {
        assert(visca_to_sec(v) == s);
        assert(sec_to_visca(s) == w);
    } else {
        assert((-v) * 36000 == -(v * 36000));
        assert(visca_to_sec(v) == -s);
        if s > 0 {
            assert((-s) * 2359 < 0);
            assert(-((-s) * 2359) == s * 2359);
            assert(sec_to_visca(-s) == -w);
        } else {
            assert(w == 0);
        }
    }
}

/// Decoding nibbles of VISCA units to arc-seconds and encoding the angle
/// again gives the same number of nibbles holding the value it started from, less
/// the one unit that the two integer divisions may lose toward zero.
pub proof fn lemma_arc_second_round_trip(ns: Seq<u8>)
    requires
        1 <= ns.len() <= 15,
    ensures
        ({
            let v = signed_value(ns);
            let w = sec_to_visca(visca_to_sec(v));
            &&& signed_value(nibbles_of(w, ns.len())) == w
            &&& (v >= 0 ==> v - 1 <= w <= v)
            &&& (v < 0 ==> v <= w <= v + 1)
        }),
{
    let v = signed_value(ns);
    let w = sec_to_visca(visca_to_sec(v));
    lemma_signed_value_bounds(ns);
    lemma_units_seconds_units(v);
    lemma_nibbles_round_trip(w, ns.len());
}

/// The hexadecimal digits of `l`, two upper-case digits and a space per byte.
pub fn list_to_hex(l: &[u8]) -> (r: String)
    ensures
        r@ == hex_list(l@),
{
    let mut f: String = String::new();
    let mut i: usize = 0;
    while i < l.len()
        invariant
            i <= l@.len(),
            f@ == hex_list(l@.take(i as int)),
        decreases l@.len() - i,
    {
        proof {
            let t = l@.take(i as int + 1);
            assert(t.drop_last() =~= l@.take(i as int));
        }
        let b = l[i];
        assert(b >> 4 == b / 16) by (bit_vector);
        assert(b & 0x0F == b % 16) by (bit_vector);
        let ghost before = f@;
        f.append(hex_digit(b >> 4));
        f.append(hex_digit(b & 0x0F));
        f.append(" ");
        proof {
            reveal_strlit(" ");
            assert(f@ =~= before + seq![hex_char(b / 16), hex_char(b % 16), ' ']);
        }
        i = i + 1;
    }
    assert(l@.take(l@.len() as int) =~= l@);
    f
}

/// The upper-case hexadecimal digit of `d`, for `d < 16`.
pub open spec fn hex_char(d: u8) -> char {
    if d < 10 {
        (48u8 + d) as char
    } else {
        (55u8 + d) as char
    }
}

/// Two upper-case hexadecimal digits and a space for each byte.
pub open spec fn hex_list(l: Seq<u8>) -> Seq<char>
    decreases l.len(),
{
    if l.len() == 0 {
        Seq::empty()
    } else {
        hex_list(l.drop_last()) + seq![hex_char(l.last() / 16), hex_char(l.last() % 16), ' ']
    }
}

/// The upper-case hexadecimal digit of `d`.
fn hex_digit(d: u8) -> (r: &'static str)
    requires
        d < 16,
    ensures
        r@ == seq![hex_char(d)],
{
    match d {
        0 => {
            proof {
                reveal_strlit("0");
            }
            "0"
        },
        1 => {
            proof {
                reveal_strlit("1");
            }
            "1"
        },
        2 => {
            proof {
                reveal_strlit("2");
            }
            "2"
        },
        3 => {
            proof {
                reveal_strlit("3");
            }
            "3"
        },
        4 => {
            proof {
                reveal_strlit("4");
            }
            "4"
        },
        5 => {
            proof {
                reveal_strlit("5");
            }
            "5"
        },
        6 => {
            proof {
                reveal_strlit("6");
            }
            "6"
        },
        7 => {
            proof {
                reveal_strlit("7");
            }
            "7"
        },
        8 => {
            proof {
                reveal_strlit("8");
            }
            "8"
        },
        9 => {
            proof {
                reveal_strlit("9");
            }
            "9"
        },
        10 => {
            proof {
                reveal_strlit("A");
            }
            "A"
        },
        11 => {
            proof {
                reveal_strlit("B");
            }
            "B"
        },
        12 => {
            proof {
                reveal_strlit("C");
            }
            "C"
        },
        13 => {
            proof {
                reveal_strlit("D");
            }
            "D"
        },
        14 => {
            proof {
                reveal_strlit("E");
            }
            "E"
        },
        _ => {
            proof {
                reveal_strlit("F");
            }
            "F"
        },
    }
}

} // verus!
