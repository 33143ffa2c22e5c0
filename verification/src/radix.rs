//! Mixed-radix converter: composing a digit sequence into a single ordinal,
//! decomposing an ordinal back into digits, and deriving the per-component
//! base for a given component count.

use vstd::prelude::*;

verus! {

use vstd::arithmetic::power::pow;
use vstd::arithmetic::power::lemma_pow_increases;
use vstd::arithmetic::power::lemma_pow_positive;
use vstd::arithmetic::power::lemma_pow0;
use vstd::arithmetic::power::lemma1_pow;
use vstd::arithmetic::div_mod::lemma_div_denominator;
use vstd::arithmetic::div_mod::lemma_fundamental_div_mod;
use vstd::arithmetic::div_mod::lemma_fundamental_div_mod_converse_mod;
use vstd::arithmetic::div_mod::lemma_fundamental_div_mod_converse_div;
use vstd::arithmetic::div_mod::lemma_mod_division_less_than_divisor;
use vstd::arithmetic::div_mod::lemma_div_pos_is_pos;
use vstd::arithmetic::div_mod::lemma_multiply_divide_lt;
use vstd::arithmetic::mul::lemma_mul_is_commutative;

/// Total number of IPv4 addresses: `256^4`.  Every ordinal handled by the
/// codec lies in `[0, CARDINALITY)`.
pub const CARDINALITY: u64 = 4294967296;

/// Any base above this bound covers the cardinality with just two
/// components, so a derived base never exceeds it.
pub const BASE_BOUND: u64 = 65536;

/// `b` is the smallest base whose `len`-component representations cover the
/// whole address space.
pub open spec fn is_min_base(b: int, len: nat) -> bool {
    &&& 1 <= b
    &&& pow(b, len) >= CARDINALITY
    &&& pow(b - 1, len) < CARDINALITY
}

/// The per-component base used for `len`-component representations:
/// the least `b` with `b^len >= CARDINALITY`.
pub open spec fn spec_min_base(len: nat) -> int {
    choose|b: int| is_min_base(b, len)
}

/// Value of a digit sequence (most significant first) in base `b`.
pub open spec fn spec_compose(s: Seq<int>, b: int) -> int
    decreases s.len(),
{
    if s.len() == 0 {
        0
    } else {
        spec_compose(s.drop_last(), b) * b + s.last()
    }
}

/// The `len` base-`b` digits of `o`, most significant first.
pub open spec fn spec_digits(o: int, b: int, len: nat) -> Seq<int>
    decreases len,
{
    if len == 0 {
        Seq::empty()
    } else {
        spec_digits(o / b, b, (len - 1) as nat).push(o % b)
    }
}

/// The digit values of an executable component vector.
pub open spec fn to_ints(s: Seq<u32>) -> Seq<int> {
    s.map_values(|x: u32| x as int)
}

/// Raising both operands of `pow` keeps the order (and the result stays
/// nonnegative for a nonnegative base).
proof fn lemma_pow_base_le(a: int, b: int, e: nat)
    requires
        0 <= a <= b,
    ensures
        0 <= pow(a, e) <= pow(b, e),
    decreases e,
{
    reveal(pow);
    if e > 0 {
        lemma_pow_base_le(a, b, (e - 1) as nat);
        assert(pow(a, e) == a * pow(a, (e - 1) as nat));
        assert(pow(b, e) == b * pow(b, (e - 1) as nat));
        assert(0 <= a * pow(a, (e - 1) as nat) <= b * pow(b, (e - 1) as nat))
            by (nonlinear_arith)
            requires
                0 <= a <= b,
                0 <= pow(a, (e - 1) as nat) <= pow(b, (e - 1) as nat),
        ;
    }
}

/// Two components of the largest considered base already cover the space.
proof fn lemma_pow_base_bound(len: nat)
    requires
        2 <= len,
    ensures
        pow(BASE_BOUND as int, len) >= CARDINALITY,
{
    assert(pow(65536, 2) == 4294967296) by {
        reveal(pow);
        vstd::arithmetic::power::lemma_pow1(65536);
        assert(pow(65536, 2) == 65536 * pow(65536, 1));
    }
    lemma_pow_increases(65536nat, 2, len);
}

/// There is only one minimal base for a given component count.
proof fn lemma_min_base_unique(b1: int, b2: int, len: nat)
    requires
        is_min_base(b1, len),
        is_min_base(b2, len),
    ensures
        b1 == b2,
{
    if b1 < b2 {
        lemma_pow_base_le(b1, b2 - 1, len);
        assert(false);
    }
    if b2 < b1 {
        lemma_pow_base_le(b2, b1 - 1, len);
        assert(false);
    }
}

proof fn lemma_min_base_exists_from(b: int, len: nat)
    requires
        2 <= len,
        1 <= b <= BASE_BOUND,
        pow(b - 1, len) < CARDINALITY,
    ensures
        exists|m: int| is_min_base(m, len),
    decreases BASE_BOUND - b,
{
    if pow(b, len) >= CARDINALITY {
        assert(is_min_base(b, len));
    } else {
        lemma_pow_base_bound(len);
        assert(b < BASE_BOUND);
        lemma_min_base_exists_from(b + 1, len);
    }
}

/// The derived base exists, is canonical, and lies in `[2, BASE_BOUND]`.
pub proof fn lemma_min_base(len: nat)
    requires
        2 <= len,
    ensures
        is_min_base(spec_min_base(len), len),
        2 <= spec_min_base(len) <= BASE_BOUND,
{
    lemma_pow0(0);
    assert(pow(0, len) == 0) by {
        vstd::arithmetic::power::lemma0_pow(len);
    }
    lemma_min_base_exists_from(1, len);
    let m = choose|m: int| is_min_base(m, len);
    assert(is_min_base(m, len));
    let b = spec_min_base(len);
    assert(is_min_base(b, len));
    lemma1_pow(len);
    assert(b != 1);
    if b > BASE_BOUND {
        lemma_pow_base_bound(len);
        lemma_pow_base_le(BASE_BOUND as int, b - 1, len);
        assert(false);
    }
}

/// Decomposition always yields exactly `len` digits, each in `[0, b)`.
pub proof fn lemma_digits_bounds(o: int, b: int, len: nat)
    requires
        b >= 1,
        o >= 0,
    ensures
        spec_digits(o, b, len).len() == len,
        forall|i: int|
            0 <= i < len ==> 0 <= #[trigger] spec_digits(o, b, len)[i] < b,
    decreases len,
{
    if len > 0 {
        lemma_div_pos_is_pos(o, b);
        lemma_digits_bounds(o / b, b, (len - 1) as nat);
        lemma_mod_division_less_than_divisor(o, b);
    }
}

/// Each digit of the decomposition is the familiar quotient/remainder
/// expression for its position.
pub proof fn lemma_digits_index(o: int, b: int, len: nat, i: int)
    requires
        b >= 1,
        o >= 0,
        0 <= i < len,
    ensures
        spec_digits(o, b, len)[i] == (o / pow(b, (len - 1 - i) as nat)) % b,
    decreases len,
{
    reveal(pow);
    lemma_digits_bounds(o / b, b, (len - 1) as nat);
    if i == len - 1 {
        assert(pow(b, 0) == 1);
        assert(o / 1 == o);
    } else {
        lemma_div_pos_is_pos(o, b);
        lemma_digits_index(o / b, b, (len - 1) as nat, i);
        let e = (len - 2 - i) as nat;
        lemma_pow_positive(b, e);
        lemma_div_denominator(o, b, pow(b, e));
        assert(pow(b, (len - 1 - i) as nat) == b * pow(b, e));
    }
}

/// A composed value is nonnegative when base and digits are.
pub proof fn lemma_compose_nonneg(s: Seq<int>, b: int)
    requires
        b >= 0,
        forall|i: int| 0 <= i < s.len() ==> s[i] >= 0,
    ensures
        spec_compose(s, b) >= 0,
    decreases s.len(),
{
    if s.len() > 0 {
        lemma_compose_nonneg(s.drop_last(), b);
        assert(spec_compose(s.drop_last(), b) * b >= 0) by (nonlinear_arith)
            requires
                spec_compose(s.drop_last(), b) >= 0,
                b >= 0,
        ;
    }
}

/// Composing a prefix never exceeds composing the whole sequence.
pub proof fn lemma_compose_take_le(s: Seq<int>, b: int, k: int)
    requires
        b >= 1,
        forall|i: int| 0 <= i < s.len() ==> s[i] >= 0,
        0 <= k <= s.len(),
    ensures
        spec_compose(s.take(k), b) <= spec_compose(s, b),
    decreases s.len() - k,
{
    if k == s.len() {
        assert(s.take(k) =~= s);
    } else {
        assert(s.take(k + 1).drop_last() =~= s.take(k));
        assert(s.take(k + 1).last() == s[k]);
        lemma_compose_nonneg(s.take(k), b);
        assert(spec_compose(s.take(k), b) <= spec_compose(s.take(k), b) * b + s[k])
            by (nonlinear_arith)
            requires
                spec_compose(s.take(k), b) >= 0,
                b >= 1,
                s[k] >= 0,
        ;
        lemma_compose_take_le(s, b, k + 1);
    }
}

/// A sequence of digits below the base composes to a value below
/// `base^len`.
pub proof fn lemma_compose_bound(s: Seq<int>, b: int)
    requires
        b >= 1,
        forall|i: int| 0 <= i < s.len() ==> 0 <= #[trigger] s[i] < b,
    ensures
        0 <= spec_compose(s, b) < pow(b, s.len()),
    decreases s.len(),
{
    reveal(pow);
    if s.len() == 0 {
        assert(pow(b, 0) == 1);
    } else {
        lemma_compose_bound(s.drop_last(), b);
        let c = spec_compose(s.drop_last(), b);
        let e = (s.len() - 1) as nat;
        assert(pow(b, s.len()) == b * pow(b, e));
        assert(c * b + s.last() < pow(b, e) * b) by (nonlinear_arith)
            requires
                0 <= c < pow(b, e),
                0 <= s.last() < b,
        ;
        assert(c * b + s.last() >= 0) by (nonlinear_arith)
            requires
                c >= 0,
                b >= 1,
                s.last() >= 0,
        ;
        assert(spec_compose(s, b) == c * b + s.last());
        lemma_mul_is_commutative(pow(b, e), b);
        assert(pow(b, e) * b == b * pow(b, e));
        assert(0 <= spec_compose(s, b));
        assert(spec_compose(s, b) < pow(b, s.len()));
    }
}

/// Composing the decomposition of `o` gives back `o`, for any ordinal the
/// digit count can represent.
pub proof fn lemma_compose_of_digits(o: int, b: int, len: nat)
    requires
        b >= 1,
        0 <= o < pow(b, len),
    ensures
        spec_compose(spec_digits(o, b, len), b) == o,
    decreases len,
{
    reveal(pow);
    if len == 0 {
        assert(pow(b, 0) == 1);
    } else {
        let e = (len - 1) as nat;
        let digits = spec_digits(o, b, len);
        assert(digits == spec_digits(o / b, b, e).push(o % b));
        assert(digits.last() == o % b);
        assert(digits.drop_last() =~= spec_digits(o / b, b, e));
        lemma_div_pos_is_pos(o, b);
        assert(pow(b, len) == b * pow(b, e));
        lemma_multiply_divide_lt(o, b, pow(b, e));
        assert(0 <= o / b < pow(b, e));
        lemma_compose_of_digits(o / b, b, e);
        assert(spec_compose(digits.drop_last(), b) == o / b);
        assert(spec_compose(digits, b) == (o / b) * b + o % b);
        lemma_fundamental_div_mod(o, b);
        assert(o == b * (o / b) + o % b);
        lemma_mul_is_commutative(o / b, b);
        assert((o / b) * b == b * (o / b));
    }
}

/// Decomposing the composition of digits below the base gives back the
/// digits.
pub proof fn lemma_digits_of_compose(s: Seq<int>, b: int)
    requires
        b >= 1,
        forall|i: int| 0 <= i < s.len() ==> 0 <= #[trigger] s[i] < b,
    ensures
        spec_digits(spec_compose(s, b), b, s.len()) == s,
    decreases s.len(),
{
    if s.len() == 0 {
        assert(spec_digits(spec_compose(s, b), b, 0) =~= s);
    } else {
        let o = spec_compose(s, b);
        let c = spec_compose(s.drop_last(), b);
        lemma_compose_nonneg(s.drop_last(), b);
        lemma_fundamental_div_mod_converse_div(o, b, c, s.last());
        lemma_fundamental_div_mod_converse_mod(o, b, c, s.last());
        lemma_digits_of_compose(s.drop_last(), b);
        assert(spec_digits(o, b, s.len()) =~= s);
    }
}

/// Law: for every ordinal in the address space and every supported
/// component count, decomposing and then composing is the identity.
pub proof fn lemma_decompose_compose_round_trip(o: int, len: nat)
    requires
        0 <= o < CARDINALITY,
        2 <= len,
    ensures
        spec_compose(spec_digits(o, spec_min_base(len), len), spec_min_base(len)) == o,
{
    lemma_min_base(len);
    lemma_compose_of_digits(o, spec_min_base(len), len);
}

/// Law: the derived base for the three-component word form is 1626.
pub proof fn lemma_word_base()
    ensures
        spec_min_base(3) == 1626,
{
    assert(pow(1626, 3) == 4298942376 && pow(1625, 3) == 4291015625) by {
        reveal_with_fuel(pow, 4);
    }
    assert(is_min_base(1626, 3));
    lemma_min_base(3);
    lemma_min_base_unique(1626, spec_min_base(3), 3);
}

/// The derived base for the four-component address form is 256: the two
/// forms share one ordinal space.
pub proof fn lemma_address_base()
    ensures
        spec_min_base(4) == 256,
        pow(256, 4) == CARDINALITY,
{
    assert(pow(256, 4) == 4294967296 && pow(255, 4) == 4228250625) by {
        reveal_with_fuel(pow, 5);
    }
    assert(is_min_base(256, 4));
    lemma_min_base(4);
    lemma_min_base_unique(256, spec_min_base(4), 4);
}

/// Whether `b^e` reaches the cardinality, without ever overflowing.
fn pow_reaches_cardinality(b: u64, e: usize) -> (r: bool)
    requires
        1 <= b <= BASE_BOUND,
    ensures
        r == (pow(b as int, e as nat) >= CARDINALITY),
{
    let mut acc: u64 = 1;
    let mut i: usize = 0;
    proof {
        assert(pow(b as int, 0) == 1) by {
            reveal(pow);
        }
    }
    while i < e
        invariant
            1 <= b <= BASE_BOUND,
            0 <= i <= e,
            acc == pow(b as int, i as nat),
            acc < CARDINALITY,
        decreases e - i,
    {
        proof {
            reveal(pow);
            assert(pow(b as int, (i + 1) as nat) == b * pow(b as int, i as nat));
            lemma_mul_is_commutative(b as int, pow(b as int, i as nat));
            assert(acc * b < CARDINALITY * BASE_BOUND) by (nonlinear_arith)
                requires
                    0 <= acc < CARDINALITY,
                    1 <= b <= BASE_BOUND,
            ;
        }
        let next: u64 = acc * b;
        if next >= CARDINALITY {
            proof {
                assert(pow(b as int, (i + 1) as nat) == next);
                lemma_pow_increases(b as nat, (i + 1) as nat, e as nat);
                assert(pow(b as int, e as nat) >= next);
            }
            return true;
        }
        acc = next;
        i = i + 1;
    }
    false
}

/// The per-component base for `len`-component representations: the least
/// `b` with `b^len >= CARDINALITY`, found by bisection.
pub fn components_base(len: usize) -> (b: u32)
    requires
        2 <= len,
    ensures
        is_min_base(b as int, len as nat),
        b as int == spec_min_base(len as nat),
        2 <= b <= BASE_BOUND,
{
    let mut lo: u64 = 1;
    let mut hi: u64 = BASE_BOUND;
    proof {
        lemma1_pow(len as nat);
        lemma_pow_base_bound(len as nat);
    }
    while lo + 1 < hi
        invariant
            2 <= len,
            1 <= lo < hi <= BASE_BOUND,
            pow(lo as int, len as nat) < CARDINALITY,
            pow(hi as int, len as nat) >= CARDINALITY,
        decreases hi - lo,
    {
        let mid: u64 = lo + (hi - lo) / 2;
        if pow_reaches_cardinality(mid, len) {
            hi = mid;
        } else {
            lo = mid;
        }
    }
    proof {
        assert(is_min_base(hi as int, len as nat));
        lemma_min_base(len as nat);
        lemma_min_base_unique(hi as int, spec_min_base(len as nat), len as nat);
    }
    hi as u32
}

/// Composes a digit sequence (most significant first) in the base derived
/// from its length, reporting overflow of the ordinal width as `None`.
pub fn construct_checked(components: &[u32]) -> (r: Option<u32>)
    requires
        2 <= components@.len(),
    ensures
        ({
            let v = spec_compose(to_ints(components@), spec_min_base(components@.len()));
            match r {
                Some(x) => v < CARDINALITY && x as int == v,
                None => v >= CARDINALITY,
            }
        }),
{
    let ghost s = to_ints(components@);
    let ghost bi = spec_min_base(components@.len());
    let base: u32 = components_base(components.len());
    let base64: u64 = base as u64;
    let mut acc: u64 = 0;
    let mut i: usize = 0;
    proof {
        assert(s.take(0) =~= Seq::<int>::empty());
    }
    while i < components.len()
        invariant
            2 <= components@.len(),
            0 <= i <= components@.len(),
            s == to_ints(components@),
            bi == spec_min_base(components@.len()),
            base64 == base,
            base as int == bi,
            2 <= base <= BASE_BOUND,
            acc == spec_compose(s.take(i as int), bi),
            acc < CARDINALITY,
        decreases components@.len() - i,
    {
        proof {
            assert(s.take(i + 1).drop_last() =~= s.take(i as int));
            assert(s.take(i + 1).last() == s[i as int]);
            assert(acc * base64 + components@[i as int] < CARDINALITY * BASE_BOUND + CARDINALITY)
                by (nonlinear_arith)
                requires
                    0 <= acc < CARDINALITY,
                    1 <= base64 <= BASE_BOUND,
                    0 <= components@[i as int] < CARDINALITY,
            ;
        }
        let next: u64 = acc * base64 + components[i] as u64;
        if next >= CARDINALITY {
            proof {
                assert(forall|j: int| 0 <= j < s.len() ==> s[j] >= 0);
                lemma_compose_take_le(s, bi, i + 1);
                assert(s.take(s.len() as int) =~= s);
            }
            return None;
        }
        acc = next;
        i = i + 1;
    }
    proof {
        assert(s.take(components@.len() as int) =~= s);
    }
    Some(acc as u32)
}

/// Composes a digit sequence whose value is known to fit the ordinal
/// width.
pub fn construct(components: &[u32]) -> (r: u32)
    requires
        2 <= components@.len(),
        spec_compose(to_ints(components@), spec_min_base(components@.len())) < CARDINALITY,
    ensures
        r as int == spec_compose(to_ints(components@), spec_min_base(components@.len())),
{
    match construct_checked(components) {
        Some(v) => v,
        None => unreached(),
    }
}

/// Decomposes an ordinal into exactly `len` digits, most significant
/// first, in the base derived from `len`.
pub fn deconstruct(ordinal: u32, len: usize) -> (r: Vec<u32>)
    requires
        2 <= len,
    ensures
        r@.len() == len,
        to_ints(r@) == spec_digits(ordinal as int, spec_min_base(len as nat), len as nat),
        forall|i: int| 0 <= i < len ==> (#[trigger] r@[i]) < spec_min_base(len as nat),
{
    let ghost o = ordinal as int;
    let ghost bi = spec_min_base(len as nat);
    let ghost digits = spec_digits(o, bi, len as nat);
    let base: u32 = components_base(len);
    proof {
        lemma_digits_bounds(o, bi, len as nat);
    }

    // Least-significant digits first.
    let mut low: Vec<u32> = Vec::new();
    let mut rem: u32 = ordinal;
    let mut place: usize = 0;
    proof {
        reveal(pow);
        assert(pow(bi, 0) == 1);
        assert(o / 1 == o);
    }
    while place < len
        invariant
            2 <= len,
            base as int == bi,
            2 <= base,
            bi == spec_min_base(len as nat),
            digits == spec_digits(o, bi, len as nat),
            o == ordinal,
            0 <= place <= len,
            low@.len() == place,
            rem as int == o / pow(bi, place as nat),
            forall|j: int| 0 <= j < place ==> low@[j] as int == digits[len - 1 - j],
        decreases len - place,
    {
        proof {
            reveal(pow);
            lemma_digits_index(o, bi, len as nat, len - 1 - place);
            lemma_pow_positive(bi, place as nat);
            lemma_div_denominator(o, pow(bi, place as nat), bi);
            assert(pow(bi, (place + 1) as nat) == bi * pow(bi, place as nat));
            lemma_div_pos_is_pos(o, pow(bi, place as nat));
        }
        low.push(rem % base);
        rem = rem / base;
        place = place + 1;
    }

    // Reverse into most-significant-first order.
    let mut comp: Vec<u32> = Vec::new();
    while low.len() > 0
        invariant
            digits.len() == len,
            forall|i: int| 0 <= i < len ==> 0 <= #[trigger] digits[i] < bi,
            bi <= BASE_BOUND,
            comp@.len() + low@.len() == len,
            forall|j: int| 0 <= j < low@.len() ==> low@[j] as int == digits[len - 1 - j],
            forall|i: int| 0 <= i < comp@.len() ==> comp@[i] as int == digits[i],
        decreases low@.len(),
    {
        let x = low.pop().unwrap();
        comp.push(x);
    }
    proof {
        assert(to_ints(comp@) =~= digits);
        assert forall|i: int| 0 <= i < len implies (#[trigger] comp@[i]) < spec_min_base(
            len as nat,
        ) by {
            assert(comp@[i] as int == digits[i]);
            assert(digits[i] < bi);
        }
    }
    comp
}

} // verus!
