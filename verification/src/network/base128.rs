//! The base-128 variable-length integer encoding used by `VarInt` and `VarLong`.
//!
//! A number is written as groups of seven bits, least significant group first.
//! Every byte but the last has its high bit set.
use vstd::prelude::*;

verus! {

/// The low seven bits of a byte: the digit it carries.
pub open spec fn septet(b: u8) -> nat {
    (b % 128) as nat
}

/// `128` raised to the power `k`.
pub open spec fn radix_power(k: nat) -> nat
    decreases k,
{
    if k == 0 {
        1
    } else {
        128 * radix_power((k - 1) as nat)
    }
}

/// The number whose base-128 digits, least significant first, are the septets of `s`.
pub open spec fn base128_value(s: Seq<u8>) -> nat
    decreases s.len(),
{
    if s.len() == 0 {
        0
    } else {
        septet(s[0]) + 128 * base128_value(s.drop_first())
    }
}

/// The canonical encoding of `v`: its base-128 digits, least significant first,
/// with the high bit set on every byte but the last.
pub open spec fn base128_encoding(v: nat) -> Seq<u8>
    decreases v,
{
    if v < 128 {
        seq![v as u8]
    } else {
        seq![((v % 128) + 128) as u8] + base128_encoding(v / 128)
    }
}

/// The length of the encoded number at the start of `s`: the bytes up to and
/// including the first one whose high bit is clear, if there is such a byte.
pub open spec fn encoded_len(s: Seq<u8>) -> Option<nat>
    decreases s.len(),
{
    if s.len() == 0 {
        None
    } else if s[0] < 128 {
        Some(1)
    } else {
        match encoded_len(s.drop_first()) {
            Some(n) => Some(n + 1),
            None => None,
        }
    }
}

pub proof fn lemma_radix_power_values()
    ensures
        radix_power(0) == 1,
        radix_power(1) == 0x80,
        radix_power(2) == 0x4000,
        radix_power(3) == 0x20_0000,
        radix_power(4) == 0x1000_0000,
        radix_power(5) == 0x8_0000_0000,
        radix_power(6) == 0x400_0000_0000,
        radix_power(7) == 0x2_0000_0000_0000,
        radix_power(8) == 0x100_0000_0000_0000,
        radix_power(9) == 0x8000_0000_0000_0000,
        radix_power(10) == 0x40_0000_0000_0000_0000,
{
    assert(radix_power(0) == 1);
    assert(radix_power(1) == 0x80);
    assert(radix_power(2) == 0x4000);
    assert(radix_power(3) == 0x20_0000);
    assert(radix_power(4) == 0x1000_0000);
    assert(radix_power(5) == 0x8_0000_0000);
    assert(radix_power(6) == 0x400_0000_0000);
    assert(radix_power(7) == 0x2_0000_0000_0000);
    assert(radix_power(8) == 0x100_0000_0000_0000);
    assert(radix_power(9) == 0x8000_0000_0000_0000);
    assert(radix_power(10) == 0x40_0000_0000_0000_0000);
}

/// Reading one more digit adds it at the next power of the radix.
pub proof fn lemma_value_take_step(s: Seq<u8>, i: int)
    requires
        0 <= i < s.len(),
    ensures
        base128_value(s.take(i + 1)) == base128_value(s.take(i)) + septet(s[i]) * radix_power(
            i as nat,
        ),
    decreases i,
{
    if i == 0 {
        assert(s.take(1).drop_first() =~= Seq::<u8>::empty());
        assert(s.take(0) =~= Seq::<u8>::empty());
        assert(base128_value(Seq::<u8>::empty()) == 0);
        assert(base128_value(s.take(1)) == septet(s[0]));
        assert(radix_power(0) == 1);
        let d = septet(s[0]);
        assert(d * radix_power(0) == d) by (nonlinear_arith)
            requires
                radix_power(0) == 1,
        ;
        assert(s.take(1)[0] == s[0]);
    } else {
        let t = s.drop_first();
        lemma_value_take_step(t, i - 1);
        assert(s.take(i + 1).drop_first() =~= t.take(i));
        assert(s.take(i).drop_first() =~= t.take(i - 1));
        assert(base128_value(s.take(i + 1)) == septet(s[0]) + 128 * base128_value(t.take(i)));
        assert(base128_value(s.take(i)) == septet(s[0]) + 128 * base128_value(t.take(i - 1)));
        assert(t[i - 1] == s[i]);
        let a = base128_value(t.take(i - 1));
        let d = septet(s[i]);
        let p = radix_power((i - 1) as nat);
        assert(base128_value(t.take(i)) == a + d * p);
        assert(128 * (a + d * p) == 128 * a + d * radix_power(i as nat)) by (nonlinear_arith)
            requires
                radix_power(i as nat) == 128 * p,
        ;
    }
}

/// A value read from `n` digits is below `128^n`.
pub proof fn lemma_value_bound(s: Seq<u8>)
    ensures
        base128_value(s) < radix_power(s.len()),
    decreases s.len(),
{
    if s.len() > 0 {
        lemma_value_bound(s.drop_first());
        assert(base128_value(s) < radix_power(s.len())) by (nonlinear_arith)
            requires
                base128_value(s) == septet(s[0]) + 128 * base128_value(s.drop_first()),
                base128_value(s.drop_first()) + 1 <= radix_power((s.len() - 1) as nat),
                radix_power(s.len()) == 128 * radix_power((s.len() - 1) as nat),
                septet(s[0]) < 128,
        ;
    }
}

/// The encoding is terminated by its last byte, reads back as the number, and takes
/// `k` bytes for a number below `128^k`.
pub proof fn lemma_encoding_round_trip(v: nat)
    ensures
        base128_encoding(v).len() >= 1,
        encoded_len(base128_encoding(v)) == Some(base128_encoding(v).len()),
        base128_value(base128_encoding(v)) == v,
        forall|k: nat| v < #[trigger] radix_power(k) && k >= 1 ==> base128_encoding(v).len() <= k,
    decreases v,
{
    let e = base128_encoding(v);
    if v < 128 {
        assert(e.drop_first() =~= Seq::<u8>::empty());
        assert(base128_value(e.drop_first()) == 0);
        assert(e[0] == v);
        assert(base128_value(e) == v);
        assert forall|k: nat| v < #[trigger] radix_power(k) && k >= 1 implies e.len() <= k by {}
    } else {
        let r = base128_encoding(v / 128);
        lemma_encoding_round_trip(v / 128);
        assert(e.drop_first() =~= r);
        assert(e[0] == (v % 128) + 128);
        assert(septet(e[0]) == v % 128);
        assert(base128_value(e) == septet(e[0]) + 128 * base128_value(r));
        assert(v == 128 * (v / 128) + v % 128);
        assert forall|k: nat| v < #[trigger] radix_power(k) && k >= 1 implies e.len() <= k by {
            if k == 1 {
                assert(radix_power(1) == 128) by {
                    reveal_with_fuel(radix_power, 2);
                }
            } else {
                let k1 = (k - 1) as nat;
                assert(radix_power(k) == 128 * radix_power(k1));
                assert(v / 128 < radix_power(k1)) by (nonlinear_arith)
                    requires
                        v < 128 * radix_power(k1),
                ;
            }
        }
    }
}

/// What `encoded_len` says of the bytes it counts.
pub proof fn lemma_encoded_len(s: Seq<u8>)
    ensures
        encoded_len(s) matches Some(n) ==> {
            &&& 1 <= n <= s.len()
            &&& s[n - 1] < 128
            &&& forall|i: int| 0 <= i < n - 1 ==> s[i] >= 128
        },
        encoded_len(s) is None ==> forall|i: int| 0 <= i < s.len() ==> s[i] >= 128,
    decreases s.len(),
{
    if s.len() > 0 && s[0] >= 128 {
        let t = s.drop_first();
        lemma_encoded_len(t);
        assert forall|i: int| 0 < i < s.len() implies s[i] == t[i - 1] by {}
    }
}

/// `encoded_len` is `n` exactly when byte `n - 1` is the first with a clear high bit.
pub proof fn lemma_encoded_len_at(s: Seq<u8>, n: nat)
    requires
        1 <= n <= s.len(),
        s[n - 1] < 128,
        forall|i: int| 0 <= i < n - 1 ==> s[i] >= 128,
    ensures
        encoded_len(s) == Some(n),
    decreases n,
{
    if n > 1 {
        let t = s.drop_first();
        assert forall|i: int| 0 <= i < n - 2 implies t[i] >= 128 by {
            assert(t[i] == s[i + 1]);
        }
        lemma_encoded_len_at(t, (n - 1) as nat);
    }
}

/// Whether the number at the start of `s` ends within its first `max` bytes.
pub open spec fn ends_within(s: Seq<u8>, max: nat) -> bool {
    encoded_len(s) matches Some(n) && n <= max
}

/// The number at the start of `s`, if it ends within its first `max` bytes.
pub open spec fn leading_value(s: Seq<u8>, max: nat) -> Option<nat> {
    match encoded_len(s) {
        Some(n) => if n <= max {
            Some(base128_value(s.take(n as int)))
        } else {
            None
        },
        None => None,
    }
}

/// The canonical encoding of `v` reads back as `v` and is no longer than `max` bytes when
/// `v < 128^max`.
pub proof fn lemma_leading_value_of_encoding(v: nat, max: nat)
    requires
        max >= 1,
        v < radix_power(max),
    ensures
        leading_value(base128_encoding(v), max) == Some(v),
        base128_encoding(v).len() <= max,
{
    lemma_encoding_round_trip(v);
    let e = base128_encoding(v);
    assert(e.take(e.len() as int) =~= e);
}

} // verus!
