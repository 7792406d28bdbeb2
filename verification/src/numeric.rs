//! Decimal rendering of the scalar constants.
//!
//! Signed constants arrive as a raw bit pattern plus a byte width; the value
//! is the two's-complement reading of the low `8 * width` bits. Unsigned
//! constants render their full bit pattern.

use vstd::prelude::*;
use vstd::arithmetic::power2::{
    pow2, lemma_pow2_adds, lemma_pow2_pos, lemma_pow2_strictly_increases, lemma2_to64,
};
use vstd::arithmetic::div_mod::lemma_small_mod;
use vstd::string::StringExecFns;

verus! {

/// The character for one decimal digit.
pub open spec fn digit_char(d: nat) -> char {
    if d == 0 {
        '0'
    } else if d == 1 {
        '1'
    } else if d == 2 {
        '2'
    } else if d == 3 {
        '3'
    } else if d == 4 {
        '4'
    } else if d == 5 {
        '5'
    } else if d == 6 {
        '6'
    } else if d == 7 {
        '7'
    } else if d == 8 {
        '8'
    } else {
        '9'
    }
}

/// The digit characters of a digit-value sequence.
pub open spec fn digit_chars(s: Seq<u128>) -> Seq<char> {
    s.map_values(|d: u128| digit_char(d as nat))
}

/// The decimal digits of `n`, most significant first.
pub open spec fn dec_str(n: nat) -> Seq<char>
    decreases n,
{
    if n < 10 {
        seq![digit_char(n)]
    } else {
        dec_str(n / 10).push(digit_char(n % 10))
    }
}

/// The decimal rendering of a possibly negative value.
pub open spec fn int_str(v: int) -> Seq<char> {
    if v < 0 {
        seq!['-'] + dec_str((-v) as nat)
    } else {
        dec_str(v as nat)
    }
}

/// The two's-complement value of the low `8 * size` bits of `bits`.
pub open spec fn sign_ext_val(size: nat, bits: u128) -> int
    recommends
        1 <= size <= 16,
{
    let m = (bits as nat) % pow2(8 * size);
    if m >= pow2((8 * size - 1) as nat) {
        m - pow2(8 * size)
    } else {
        m as int
    }
}

fn digit_of(d: u128) -> (r: &'static str)
    requires
        d < 10,
    ensures
        r@ == seq![digit_char(d as nat)],
{
    let s: &'static str = if d == 0 {
        "0"
    } else if d == 1 {
        "1"
    } else if d == 2 {
        "2"
    } else if d == 3 {
        "3"
    } else if d == 4 {
        "4"
    } else if d == 5 {
        "5"
    } else if d == 6 {
        "6"
    } else if d == 7 {
        "7"
    } else if d == 8 {
        "8"
    } else {
        "9"
    };
    proof {
        reveal_strlit("0");
        reveal_strlit("1");
        reveal_strlit("2");
        reveal_strlit("3");
        reveal_strlit("4");
        reveal_strlit("5");
        reveal_strlit("6");
        reveal_strlit("7");
        reveal_strlit("8");
        reveal_strlit("9");
        assert(s@ =~= seq![digit_char(d as nat)]);
    }
    s
}

/// Renders `n` in decimal.
pub fn u128_to_dec(n: u128) -> (r: String)
    ensures
        r@ == dec_str(n as nat),
{
    let mut digs: Vec<u128> = Vec::new();
    let mut m: u128 = n;
    while m >= 10
        invariant
            dec_str(n as nat) =~= dec_str(m as nat) + digit_chars(digs@).reverse(),
            forall|k: int| 0 <= k < digs@.len() ==> digs@[k] < 10,
        decreases m,
    {
        let ghost digs0 = digs@;
        let ghost m0 = m as nat;
        digs.push(m % 10);
        m = m / 10;
        proof {
            assert(digit_chars(digs@).reverse() =~= seq![digit_char(m0 % 10)] + digit_chars(
                digs0,
            ).reverse());
            assert(dec_str(m0) == dec_str(m0 / 10).push(digit_char(m0 % 10)));
            assert(dec_str(m0 / 10) + digit_chars(digs@).reverse() =~= dec_str(m0) + digit_chars(
                digs0,
            ).reverse());
        }
    }
    let mut out: String = digit_of(m).to_owned();
    let ghost rev = digit_chars(digs@).reverse();
    proof {
        assert(out@ + rev.take(0) =~= out@);
    }
    let mut j: usize = digs.len();
    while j > 0
        invariant
            j <= digs@.len(),
            rev == digit_chars(digs@).reverse(),
            forall|k: int| 0 <= k < digs@.len() ==> digs@[k] < 10,
            out@ == seq![digit_char(m as nat)] + rev.take(digs@.len() - j),
            m < 10,
        decreases j,
    {
        j = j - 1;
        out.append(digit_of(digs[j]));
        proof {
            let n1 = digs@.len() as int;
            assert(digit_chars(digs@)[j as int] == digit_char(digs@[j as int] as nat));
            assert(rev[n1 - j - 1] == digit_chars(digs@)[j as int]);
            assert(rev.take(n1 - j) =~= rev.take(n1 - j - 1).push(rev[n1 - j - 1]));
            assert(out@ =~= seq![digit_char(m as nat)] + rev.take(n1 - j));
        }
    }
    proof {
        assert(rev.take(digs@.len() as int) =~= rev);
        assert(out@ =~= dec_str(n as nat));
    }
    out
}

/// `pow2(e)` as a machine value.
fn pow2_u128(e: u32) -> (r: u128)
    requires
        e < 128,
    ensures
        r as nat == pow2(e as nat),
{
    let mut r: u128 = 1;
    let mut i: u32 = 0;
    proof {
        lemma2_to64();
    }
    while i < e
        invariant
            i <= e < 128,
            r as nat == pow2(i as nat),
        decreases e - i,
    {
        proof {
            lemma_pow2_adds(i as nat, 1);
            lemma2_to64();
            if i + 1 < 128 {
                lemma_pow2_strictly_increases((i + 1) as nat, 128);
            }
            lemma_pow2_128();
        }
        r = r * 2;
        i = i + 1;
    }
    r
}

proof fn lemma_pow2_128()
    ensures
        pow2(128) == 0x100000000000000000000000000000000,
{
    lemma_pow2_adds(64, 64);
    lemma2_to64();
}

/// Renders the two's-complement value of the low `8 * size` bits of `bits`.
pub fn render_signed(size: u8, bits: u128) -> (r: String)
    requires
        1 <= size <= 16,
    ensures
        r@ == int_str(sign_ext_val(size as nat, bits)),
{
    let w: u32 = 8 * (size as u32);
    let masked: u128 = if size == 16 {
        proof {
            lemma_pow2_128();
            lemma_small_mod(bits as nat, pow2(128));
        }
        bits
    } else {
        let p = pow2_u128(w);
        proof {
            lemma_pow2_pos(w as nat);
        }
        bits % p
    };
    let half: u128 = pow2_u128(w - 1);
    if masked >= half {
        proof {
            lemma_pow2_adds((w - 1) as nat, 1);
            lemma_pow2_128();
            lemma_pow2_pos((w - 1) as nat);
            assert(masked >= 1);
        }
        let mag: u128 = if size == 16 {
            (u128::MAX - masked) + 1
        } else {
            pow2_u128(w) - masked
        };
        let mut out: String = "-".to_owned();
        proof {
            reveal_strlit("-");
            assert(out@ =~= seq!['-']);
        }
        let digits = u128_to_dec(mag);
        out.append(digits.as_str());
        proof {
            assert(mag as int == -sign_ext_val(size as nat, bits));
            assert(out@ =~= int_str(sign_ext_val(size as nat, bits)));
        }
        out
    } else {
        let r = u128_to_dec(masked);
        proof {
            assert(masked as int == sign_ext_val(size as nat, bits));
        }
        r
    }
}

} // verus!
