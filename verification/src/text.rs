//! Textual building blocks for the dotted forms: splitting on a separator,
//! joining with a separator, and rendering/reading decimal components.

use vstd::prelude::*;

verus! {

use vstd::string::StrSliceExecFns;
use vstd::string::StringExecFns;
use vstd::arithmetic::div_mod::lemma_fundamental_div_mod;

/// `t` never contains the separator character.
pub open spec fn no_sep(t: Seq<char>, sep: char) -> bool {
    forall|i: int| 0 <= i < t.len() ==> #[trigger] t[i] != sep
}

/// The tokens of `s` around the separator, in order.  An empty string has
/// one empty token, like `str::split`.
pub open spec fn spec_split(s: Seq<char>, sep: char) -> Seq<Seq<char>>
    decreases s.len(),
{
    if s.len() == 0 {
        seq![Seq::<char>::empty()]
    } else if s[0] == sep {
        seq![Seq::<char>::empty()] + spec_split(s.drop_first(), sep)
    } else {
        let rest = spec_split(s.drop_first(), sep);
        seq![seq![s[0]] + rest[0]] + rest.drop_first()
    }
}

/// The tokens joined back into one string, separator between neighbours.
pub open spec fn spec_join(toks: Seq<Seq<char>>, sep: char) -> Seq<char>
    decreases toks.len(),
{
    if toks.len() == 0 {
        Seq::empty()
    } else if toks.len() == 1 {
        toks[0]
    } else {
        toks[0] + seq![sep] + spec_join(toks.drop_first(), sep)
    }
}

/// Splitting yields at least one token.
pub proof fn lemma_split_len(s: Seq<char>, sep: char)
    ensures
        spec_split(s, sep).len() >= 1,
    decreases s.len(),
{
    if s.len() > 0 {
        lemma_split_len(s.drop_first(), sep);
    }
}

/// A separator-free string is a single token.
pub proof fn lemma_split_single(w: Seq<char>, sep: char)
    requires
        no_sep(w, sep),
    ensures
        spec_split(w, sep) =~~= seq![w],
    decreases w.len(),
{
    if w.len() > 0 {
        assert(w[0] != sep);
        assert(no_sep(w.drop_first(), sep)) by {
            assert(forall|i: int|
                0 <= i < w.drop_first().len() ==> #[trigger] w.drop_first()[i] == w[i + 1]);
        }
        lemma_split_single(w.drop_first(), sep);
        assert(seq![w[0]] + w.drop_first() =~= w);
    }
}

/// A leading separator-free token followed by a separator splits off as
/// the first token.
pub proof fn lemma_split_sep_prefix(w: Seq<char>, t: Seq<char>, sep: char)
    requires
        no_sep(w, sep),
    ensures
        spec_split(w + seq![sep] + t, sep) =~~= seq![w] + spec_split(t, sep),
    decreases w.len(),
{
    let s = w + seq![sep] + t;
    lemma_split_len(t, sep);
    if w.len() == 0 {
        assert(s[0] == sep);
        assert(s.drop_first() =~= t);
        assert(seq![Seq::<char>::empty()] + spec_split(t, sep) =~~= seq![w] + spec_split(
            t,
            sep,
        ));
    } else {
        assert(s[0] == w[0]);
        assert(w[0] != sep);
        assert(no_sep(w.drop_first(), sep)) by {
            assert(forall|i: int|
                0 <= i < w.drop_first().len() ==> #[trigger] w.drop_first()[i] == w[i + 1]);
        }
        assert(s.drop_first() =~= w.drop_first() + seq![sep] + t);
        lemma_split_sep_prefix(w.drop_first(), t, sep);
        let rest = spec_split(s.drop_first(), sep);
        assert(rest =~~= seq![w.drop_first()] + spec_split(t, sep));
        assert(rest[0] == w.drop_first());
        assert(seq![s[0]] + rest[0] =~= w);
        assert(rest.drop_first() =~~= spec_split(t, sep));
    }
}

/// Law: splitting a join of separator-free tokens restores the tokens.
pub proof fn lemma_split_join(toks: Seq<Seq<char>>, sep: char)
    requires
        toks.len() >= 1,
        forall|i: int| 0 <= i < toks.len() ==> no_sep(#[trigger] toks[i], sep),
    ensures
        spec_split(spec_join(toks, sep), sep) =~~= toks,
    decreases toks.len(),
{
    if toks.len() == 1 {
        lemma_split_single(toks[0], sep);
        assert(spec_join(toks, sep) == toks[0]);
        assert(seq![toks[0]] =~~= toks);
    } else {
        lemma_split_join(toks.drop_first(), sep);
        lemma_split_sep_prefix(toks[0], spec_join(toks.drop_first(), sep), sep);
        assert(seq![toks[0]] + toks.drop_first() =~~= toks);
    }
}

/// Appending one more token to a join appends a separator and the token.
pub proof fn lemma_join_push(toks: Seq<Seq<char>>, t: Seq<char>, sep: char)
    requires
        toks.len() >= 1,
    ensures
        spec_join(toks.push(t), sep) == spec_join(toks, sep) + seq![sep] + t,
    decreases toks.len(),
{
    if toks.len() == 1 {
        assert(toks.push(t).drop_first() =~~= seq![t]);
        assert(spec_join(seq![t], sep) == t);
        assert(toks.push(t)[0] == toks[0]);
        assert(spec_join(toks.push(t), sep) == toks.push(t)[0] + seq![sep] + spec_join(
            toks.push(t).drop_first(),
            sep,
        ));
        assert(spec_join(toks.push(t), sep) == toks[0] + seq![sep] + t);
    } else {
        assert(toks.push(t).drop_first() =~~= toks.drop_first().push(t));
        lemma_join_push(toks.drop_first(), t, sep);
        assert((toks[0] + seq![sep] + (spec_join(toks.drop_first(), sep) + seq![sep] + t)) =~= (
        toks[0] + seq![sep] + spec_join(toks.drop_first(), sep)) + seq![sep] + t);
    }
}

/// A decimal digit character.
pub open spec fn is_digit(c: char) -> bool {
    '0' <= c && c <= '9'
}

/// The numeric value of a digit character.
pub open spec fn digit_val(c: char) -> int {
    c as int - 48
}

/// The digit character for a value in `[0, 10)`.
pub open spec fn digit_char(d: int) -> char {
    (48 + d) as char
}

/// A nonempty string of decimal digits.
pub open spec fn is_digit_string(t: Seq<char>) -> bool {
    t.len() >= 1 && forall|i: int| 0 <= i < t.len() ==> is_digit(#[trigger] t[i])
}

/// The value of a digit string, most significant digit first.
pub open spec fn digits_value(t: Seq<char>) -> int
    decreases t.len(),
{
    if t.len() == 0 {
        0
    } else {
        digits_value(t.drop_last()) * 10 + digit_val(t.last())
    }
}

/// The canonical decimal rendering of a nonnegative number.
pub open spec fn spec_render(n: int) -> Seq<char>
    decreases n,
{
    if n < 10 {
        seq![digit_char(n)]
    } else {
        spec_render(n / 10).push(digit_char(n % 10))
    }
}

/// Digit characters are never a dot.
pub proof fn lemma_digit_not_dot(t: Seq<char>)
    requires
        forall|i: int| 0 <= i < t.len() ==> is_digit(#[trigger] t[i]),
    ensures
        no_sep(t, '.'),
{
}

/// The decimal rendering consists of digits and reads back as the
/// rendered value.
pub proof fn lemma_render_props(n: int)
    requires
        n >= 0,
    ensures
        is_digit_string(spec_render(n)),
        digits_value(spec_render(n)) == n,
    decreases n,
{
    if n < 10 {
        assert(digit_val(digit_char(n)) == n);
        assert(spec_render(n).drop_last() =~= Seq::<char>::empty());
        assert(spec_render(n).last() == digit_char(n));
        assert(digits_value(Seq::<char>::empty()) == 0);
        assert(digits_value(spec_render(n)) == 0 * 10 + n);
    } else {
        lemma_render_props(n / 10);
        let r = spec_render(n);
        assert(r.drop_last() =~= spec_render(n / 10));
        assert(r.last() == digit_char(n % 10));
        assert(digit_val(digit_char(n % 10)) == n % 10);
        lemma_fundamental_div_mod(n, 10);
        assert(digits_value(r) == (n / 10) * 10 + n % 10);
    }
}

/// The value of a digit-string prefix never exceeds the whole value.
pub proof fn lemma_digits_value_take(t: Seq<char>, k: int)
    requires
        forall|i: int| 0 <= i < t.len() ==> is_digit(#[trigger] t[i]),
        0 <= k <= t.len(),
    ensures
        0 <= digits_value(t.take(k)) <= digits_value(t),
    decreases t.len() - k,
{
    if k == t.len() {
        assert(t.take(k) =~= t);
        lemma_digits_value_nonneg_full(t);
    } else {
        assert(t.take(k + 1).drop_last() =~= t.take(k));
        assert(t.take(k + 1).last() == t[k]);
        assert(forall|j: int| 0 <= j < k ==> #[trigger] t.take(k)[j] == t[j]);
        lemma_digits_value_nonneg_full(t.take(k));
        assert(digits_value(t.take(k + 1)) == digits_value(t.take(k)) * 10 + digit_val(t[k]));
        assert(digits_value(t.take(k)) <= digits_value(t.take(k)) * 10 + digit_val(t[k]));
        lemma_digits_value_take(t, k + 1);
    }
}

/// A digit string has a nonnegative value.
pub proof fn lemma_digits_value_nonneg_full(t: Seq<char>)
    requires
        forall|i: int| 0 <= i < t.len() ==> is_digit(#[trigger] t[i]),
    ensures
        digits_value(t) >= 0,
    decreases t.len(),
{
    if t.len() > 0 {
        assert(forall|i: int|
            0 <= i < t.drop_last().len() ==> #[trigger] t.drop_last()[i] == t[i]);
        lemma_digits_value_nonneg_full(t.drop_last());
        assert(digit_val(t.last()) >= 0);
        assert(digits_value(t.drop_last()) * 10 >= 0);
    }
}

/// The digit character for a small value, as a string slice.
fn digit_str(d: u32) -> (r: &'static str)
    requires
        d < 10,
    ensures
        r@ == seq![digit_char(d as int)],
{
    proof {
        reveal_strlit("0");
        reveal_strlit("1");
        reveal_strlit("2");
        reveal_strlit("3");
        reveal_strlit("4");
        reveal_strlit("5");
        reveal_strlit("6");
        reveal_strlit("7");
        reveal_strlit("8");
        reveal_strlit("9");
    }
    let r: &'static str = match d {
        0 => "0",
        1 => "1",
        2 => "2",
        3 => "3",
        4 => "4",
        5 => "5",
        6 => "6",
        7 => "7",
        8 => "8",
        _ => "9",
    };
    proof {
        assert(r@ =~= seq![digit_char(d as int)]);
    }
    r
}

/// Renders a number as decimal text.
pub fn decimal_string(n: u32) -> (r: String)
    ensures
        r@ == spec_render(n as int),
    decreases n,
{
    if n < 10 {
        digit_str(n).to_owned()
    } else {
        let mut s = decimal_string(n / 10);
        s.append(digit_str(n % 10));
        proof {
            assert(spec_render((n / 10) as int).push(digit_char((n % 10) as int)) =~= spec_render(
                (n / 10) as int,
            ) + seq![digit_char((n % 10) as int)]);
        }
        s
    }
}

/// Splits a string into the tokens around a separator character.
pub fn split_on<'a>(s: &'a str, sep: char) -> (r: Vec<&'a str>)
    ensures
        r@.map_values(|t: &str| t@) == spec_split(s@, sep),
{
    let n = s.unicode_len();
    let mut toks: Vec<&'a str> = Vec::new();
    let mut start: usize = 0;
    let mut i: usize = 0;
    proof {
        assert(s@.skip(0) =~= s@);
        assert(toks@.map_values(|t: &str| t@) =~~= Seq::<Seq<char>>::empty());
        assert(Seq::<Seq<char>>::empty() + spec_split(s@, sep) =~~= spec_split(s@, sep));
    }
    while i < n
        invariant
            n == s@.len(),
            0 <= start <= i <= n,
            spec_split(s@, sep) =~~= toks@.map_values(|t: &str| t@) + spec_split(
                s@.skip(start as int),
                sep,
            ),
            no_sep(s@.subrange(start as int, i as int), sep),
        decreases n - i,
    {
        let c = s.get_char(i);
        if c == sep {
            let tok = s.substring_char(start, i);
            toks.push(tok);
            proof {
                let w = s@.subrange(start as int, i as int);
                let t = s@.skip(i + 1);
                assert(s@.skip(start as int) =~= w + seq![sep] + t);
                lemma_split_sep_prefix(w, t, sep);
                assert(toks@.map_values(|t: &str| t@) =~~= toks@.drop_last().map_values(
                    |t: &str| t@,
                ).push(tok@));
                assert(toks@.drop_last().map_values(|t: &str| t@).push(w) + spec_split(t, sep)
                    =~~= toks@.drop_last().map_values(|t: &str| t@) + (seq![w] + spec_split(
                    t,
                    sep,
                )));
            }
            start = i + 1;
        } else {
            proof {
                assert(s@.subrange(start as int, i + 1) =~= s@.subrange(start as int, i as int)
                    + seq![s@[i as int]]);
            }
        }
        i = i + 1;
    }
    let tok = s.substring_char(start, n);
    toks.push(tok);
    proof {
        let w = s@.subrange(start as int, n as int);
        assert(s@.skip(start as int) =~= w);
        lemma_split_single(w, sep);
        assert(toks@.map_values(|t: &str| t@) =~~= toks@.drop_last().map_values(|t: &str| t@).push(
            w,
        ));
        assert(toks@.drop_last().map_values(|t: &str| t@).push(w) =~~= toks@.drop_last().map_values(
            |t: &str| t@,
        ) + seq![w]);
    }
    toks
}

/// Reads a dotted-quad component: a nonempty run of decimal digits whose
/// value fits in a byte.  Anything else is rejected.
pub fn parse_byte_token(t: &str) -> (r: Option<u8>)
    ensures
        match r {
            Some(v) => is_digit_string(t@) && digits_value(t@) <= 255 && v as int == digits_value(
                t@,
            ),
            None => !(is_digit_string(t@) && digits_value(t@) <= 255),
        },
{
    let n = t.unicode_len();
    if n == 0 {
        return None;
    }
    let mut acc: u32 = 0;
    let mut i: usize = 0;
    proof {
        assert(t@.take(0) =~= Seq::<char>::empty());
    }
    while i < n
        invariant
            n == t@.len(),
            1 <= n,
            0 <= i <= n,
            forall|j: int| 0 <= j < i ==> is_digit(#[trigger] t@[j]),
            acc as int == digits_value(t@.take(i as int)),
            acc <= 255,
        decreases n - i,
    {
        let c = t.get_char(i);
        let cv = c as u32;
        if cv < 48 || cv > 57 {
            proof {
                assert(!is_digit(t@[i as int]));
            }
            return None;
        }
        let next: u32 = acc * 10 + (cv - 48);
        proof {
            assert(t@.take(i + 1).drop_last() =~= t@.take(i as int));
            assert(t@.take(i + 1).last() == t@[i as int]);
            assert(digit_val(t@[i as int]) == cv - 48);
            assert(digits_value(t@.take(i + 1)) == acc * 10 + (cv - 48));
        }
        if next > 255 {
            proof {
                if is_digit_string(t@) {
                    lemma_digits_value_take(t@, i + 1);
                    assert(digits_value(t@) >= next);
                }
            }
            return None;
        }
        acc = next;
        i = i + 1;
    }
    proof {
        assert(t@.take(n as int) =~= t@);
    }
    Some(acc as u8)
}

} // verus!
