//! The address codec: strict parsing and formatting of the two dotted
//! forms, and the conversions between them through the shared ordinal.

use vstd::prelude::*;

verus! {

use vstd::string::StringExecFns;
use crate::radix::CARDINALITY;
use crate::radix::spec_compose;
use crate::radix::spec_digits;
use crate::radix::spec_min_base;
use crate::radix::to_ints;
use crate::radix::construct;
use crate::radix::construct_checked;
use crate::radix::deconstruct;
use crate::radix::lemma_min_base;
use crate::radix::lemma_word_base;
use crate::radix::lemma_address_base;
use crate::radix::lemma_compose_bound;
use crate::radix::lemma_compose_of_digits;
use crate::radix::lemma_digits_of_compose;
use crate::radix::lemma_digits_bounds;
use crate::text::spec_split;
use crate::text::spec_join;
use crate::text::no_sep;
use crate::text::is_digit_string;
use crate::text::digits_value;
use crate::text::spec_render;
use crate::text::lemma_split_join;
use crate::text::lemma_join_push;
use crate::text::lemma_render_props;
use crate::text::lemma_digit_not_dot;
use crate::text::split_on;
use crate::text::decimal_string;
use crate::text::parse_byte_token;
use crate::dict::Dictionary;
use crate::dict::dict_valid;
use crate::dict::dict_contains;
use crate::dict::dict_index_of;
use crate::dict::lemma_dict_index_unique;
use crate::dict::valid_word;

/// The digit values of a parsed byte vector.
pub open spec fn byte_vals(s: Seq<u8>) -> Seq<int> {
    s.map_values(|x: u8| x as int)
}

/// A dotted-quad component: decimal digits only, value at most 255.
pub open spec fn valid_byte_token(t: Seq<char>) -> bool {
    is_digit_string(t) && digits_value(t) <= 255
}

/// The strict reading of a dotted-quad address: exactly four tokens, each
/// a valid byte component.
pub open spec fn spec_parse_ipv4(s: Seq<char>) -> Option<Seq<int>> {
    let toks = spec_split(s, '.');
    if toks.len() == 4 && (forall|i: int| 0 <= i < 4 ==> valid_byte_token(#[trigger] toks[i])) {
        Some(toks.map_values(|t: Seq<char>| digits_value(t)))
    } else {
        None
    }
}

/// The dotted-quad rendering of address components.
pub open spec fn spec_format_ipv4(comps: Seq<int>) -> Seq<char> {
    spec_join(comps.map_values(|v: int| spec_render(v)), '.')
}

/// The strict reading of a word identifier: exactly three tokens, each a
/// dictionary word, read as its position.
pub open spec fn spec_parse_epid3(s: Seq<char>, ws: Seq<Seq<char>>) -> Option<Seq<int>> {
    let toks = spec_split(s, '.');
    if toks.len() == 3 && (forall|i: int| 0 <= i < 3 ==> dict_contains(ws, #[trigger] toks[i])) {
        Some(toks.map_values(|t: Seq<char>| dict_index_of(ws, t)))
    } else {
        None
    }
}

/// The dotted rendering of word components by dictionary position.
pub open spec fn spec_format_epid3(comps: Seq<int>, ws: Seq<Seq<char>>) -> Seq<char> {
    spec_join(comps.map_values(|v: int| ws[v]), '.')
}

/// What converting an address to a word identifier returns: the parsed
/// quad, composed in base 256 and redecomposed into three word digits.
pub open spec fn spec_ipv4_to_epid3(s: Seq<char>, ws: Seq<Seq<char>>) -> Option<Seq<char>> {
    match spec_parse_ipv4(s) {
        Some(q) => Some(
            spec_format_epid3(
                spec_digits(spec_compose(q, spec_min_base(4)), spec_min_base(3), 3),
                ws,
            ),
        ),
        None => None,
    }
}

/// What converting a word identifier to an address returns.  An
/// identifier whose ordinal falls outside the address space denotes no
/// address and yields nothing.
pub open spec fn spec_epid3_to_ipv4(s: Seq<char>, ws: Seq<Seq<char>>) -> Option<Seq<char>> {
    match spec_parse_epid3(s, ws) {
        Some(c) => {
            let o = spec_compose(c, spec_min_base(3));
            if o < CARDINALITY {
                Some(spec_format_ipv4(spec_digits(o, spec_min_base(4), 4)))
            } else {
                None
            }
        },
        None => None,
    }
}

/// Parses a dotted-quad address strictly: four dot-separated decimal
/// tokens, each in `[0, 255]`; anything else yields nothing.
pub fn parse_ipv4(ipv4: &str) -> (r: Option<Vec<u8>>)
    ensures
        match r {
            Some(v) => spec_parse_ipv4(ipv4@) == Some(byte_vals(v@)),
            None => spec_parse_ipv4(ipv4@) is None,
        },
{
    let ghost stoks = spec_split(ipv4@, '.');
    let toks = split_on(ipv4, '.');
    if toks.len() != 4 {
        return None;
    }
    let mut out: Vec<u8> = Vec::new();
    let mut i: usize = 0;
    while i < 4
        invariant
            stoks == spec_split(ipv4@, '.'),
            toks@.map_values(|t: &str| t@) == stoks,
            toks@.len() == 4,
            0 <= i <= 4,
            out@.len() == i,
            forall|j: int|
                0 <= j < i ==> valid_byte_token(#[trigger] stoks[j]) && out@[j] as int
                    == digits_value(stoks[j]),
        decreases 4 - i,
    {
        proof {
            assert(toks@[i as int]@ == stoks[i as int]);
        }
        match parse_byte_token(toks[i]) {
            Some(b) => {
                out.push(b);
            },
            None => {
                proof {
                    assert(!valid_byte_token(stoks[i as int]));
                }
                return None;
            },
        }
        i = i + 1;
    }
    proof {
        assert(byte_vals(out@) =~= stoks.map_values(|t: Seq<char>| digits_value(t)));
    }
    Some(out)
}

/// Parses a word identifier strictly: three dot-separated tokens, each an
/// exact, case-sensitive dictionary word; anything else yields nothing.
pub fn parse_epid3(epid: &str, dict: &Dictionary) -> (r: Option<Vec<u32>>)
    requires
        dict.valid(),
    ensures
        match r {
            Some(v) => spec_parse_epid3(epid@, dict@) == Some(to_ints(v@)),
            None => spec_parse_epid3(epid@, dict@) is None,
        },
{
    let ghost stoks = spec_split(epid@, '.');
    let toks = split_on(epid, '.');
    if toks.len() != 3 {
        return None;
    }
    let mut out: Vec<u32> = Vec::new();
    let mut i: usize = 0;
    while i < 3
        invariant
            dict.valid(),
            stoks == spec_split(epid@, '.'),
            toks@.map_values(|t: &str| t@) == stoks,
            toks@.len() == 3,
            0 <= i <= 3,
            out@.len() == i,
            forall|j: int|
                0 <= j < i ==> dict_contains(dict@, #[trigger] stoks[j]) && out@[j] as int
                    == dict_index_of(dict@, stoks[j]),
        decreases 3 - i,
    {
        proof {
            assert(toks@[i as int]@ == stoks[i as int]);
        }
        match dict.lookup(toks[i]) {
            Some(pos) => {
                proof {
                    lemma_dict_index_unique(dict@, pos as int, stoks[i as int]);
                }
                out.push(pos as u32);
            },
            None => {
                proof {
                    assert(!dict_contains(dict@, stoks[i as int]));
                }
                return None;
            },
        }
        i = i + 1;
    }
    proof {
        assert(to_ints(out@) =~= stoks.map_values(|t: Seq<char>| dict_index_of(dict@, t)));
    }
    Some(out)
}

/// Renders components as dotted decimal text.
pub fn format_ipv4(components: &[u32]) -> (r: String)
    ensures
        r@ == spec_format_ipv4(to_ints(components@)),
{
    let ghost toks = to_ints(components@).map_values(|v: int| spec_render(v));
    let mut out = String::new();
    let mut i: usize = 0;
    proof {
        reveal_strlit(".");
        assert(toks.take(0) =~= Seq::<Seq<char>>::empty());
    }
    while i < components.len()
        invariant
            toks == to_ints(components@).map_values(|v: int| spec_render(v)),
            toks.len() == components@.len(),
            0 <= i <= components@.len(),
            out@ == spec_join(toks.take(i as int), '.'),
            "."@ == seq!['.'],
        decreases components@.len() - i,
    {
        if i > 0 {
            out.append(".");
        }
        let piece = decimal_string(components[i]);
        out.append(piece.as_str());
        proof {
            assert(toks[i as int] == spec_render(components@[i as int] as int));
            assert(toks.take(i + 1) =~~= toks.take(i as int).push(toks[i as int]));
            if i > 0 {
                lemma_join_push(toks.take(i as int), toks[i as int], '.');
                assert(out@ =~= spec_join(toks.take(i as int), '.') + seq!['.'] + toks[i as int]);
            } else {
                assert(spec_join(toks.take(1), '.') == toks.take(1)[0]);
                assert(out@ =~= toks[0]);
            }
        }
        i = i + 1;
    }
    proof {
        assert(toks.take(components@.len() as int) =~~= toks);
    }
    out
}

/// Renders word components as a dotted identifier by dictionary lookup.
pub fn format_epid3(components: &[u32], dict: &Dictionary) -> (r: String)
    requires
        forall|i: int| 0 <= i < components@.len() ==> (#[trigger] components@[i]) < dict@.len(),
    ensures
        r@ == spec_format_epid3(to_ints(components@), dict@),
{
    let ghost toks = to_ints(components@).map_values(|v: int| dict@[v]);
    let mut out = String::new();
    let mut i: usize = 0;
    proof {
        reveal_strlit(".");
        assert(toks.take(0) =~= Seq::<Seq<char>>::empty());
    }
    while i < components.len()
        invariant
            forall|k: int|
                0 <= k < components@.len() ==> (#[trigger] components@[k]) < dict@.len(),
            toks == to_ints(components@).map_values(|v: int| dict@[v]),
            toks.len() == components@.len(),
            0 <= i <= components@.len(),
            out@ == spec_join(toks.take(i as int), '.'),
            "."@ == seq!['.'],
        decreases components@.len() - i,
    {
        if i > 0 {
            out.append(".");
        }
        let w = dict.word_at(components[i] as usize);
        out.append(w);
        proof {
            assert(toks[i as int] == dict@[components@[i as int] as int]);
            assert(toks.take(i + 1) =~~= toks.take(i as int).push(toks[i as int]));
            if i > 0 {
                lemma_join_push(toks.take(i as int), toks[i as int], '.');
                assert(out@ =~= spec_join(toks.take(i as int), '.') + seq!['.'] + toks[i as int]);
            } else {
                assert(spec_join(toks.take(1), '.') == toks.take(1)[0]);
                assert(out@ =~= toks[0]);
            }
        }
        i = i + 1;
    }
    proof {
        assert(toks.take(components@.len() as int) =~~= toks);
    }
    out
}

/// Converts a dotted-quad address to its three-word identifier, or
/// nothing when the address does not parse.
pub fn ipv4_to_epid3(ipv4: &str, dict: &Dictionary) -> (r: Option<String>)
    requires
        dict.valid(),
    ensures
        match r {
            Some(s) => spec_ipv4_to_epid3(ipv4@, dict@) == Some(s@),
            None => spec_ipv4_to_epid3(ipv4@, dict@) is None,
        },
{
    match parse_ipv4(ipv4) {
        None => None,
        Some(v) => {
            let ghost q = byte_vals(v@);
            let mut comps: Vec<u32> = Vec::new();
            let mut i: usize = 0;
            while i < v.len()
                invariant
                    q == byte_vals(v@),
                    0 <= i <= v@.len(),
                    comps@.len() == i,
                    forall|j: int| 0 <= j < i ==> comps@[j] as int == q[j],
                decreases v@.len() - i,
            {
                let b = v[i];
                comps.push(b as u32);
                i = i + 1;
            }
            proof {
                assert(to_ints(comps@) =~= q);
                lemma_address_base();
                assert(forall|j: int| 0 <= j < q.len() ==> 0 <= #[trigger] q[j] < 256);
                lemma_compose_bound(q, 256);
            }
            let ordinal = construct(comps.as_slice());
            let digs = deconstruct(ordinal, 3);
            proof {
                lemma_word_base();
            }
            let out = format_epid3(digs.as_slice(), dict);
            Some(out)
        },
    }
}

/// Converts a three-word identifier back to its dotted-quad address, or
/// nothing when the identifier does not parse or denotes no address.
pub fn epid3_to_ipv4(epid: &str, dict: &Dictionary) -> (r: Option<String>)
    requires
        dict.valid(),
    ensures
        match r {
            Some(s) => spec_epid3_to_ipv4(epid@, dict@) == Some(s@),
            None => spec_epid3_to_ipv4(epid@, dict@) is None,
        },
{
    match parse_epid3(epid, dict) {
        None => None,
        Some(comps) => {
            match construct_checked(comps.as_slice()) {
                None => None,
                Some(ordinal) => {
                    let digs = deconstruct(ordinal, 4);
                    let out = format_ipv4(digs.as_slice());
                    Some(out)
                },
            }
        },
    }
}

/// Law: every valid address quad survives the round trip through the word
/// identifier: converting its dotted text to an identifier succeeds, and
/// converting that identifier back yields the original dotted text.
pub proof fn lemma_address_round_trip(q: Seq<int>, ws: Seq<Seq<char>>)
    requires
        dict_valid(ws),
        q.len() == 4,
        forall|i: int| 0 <= i < 4 ==> 0 <= #[trigger] q[i] <= 255,
    ensures
        spec_ipv4_to_epid3(spec_format_ipv4(q), ws) is Some,
        spec_epid3_to_ipv4(spec_ipv4_to_epid3(spec_format_ipv4(q), ws)->0, ws) == Some(
            spec_format_ipv4(q),
        ),
{
    let s = spec_format_ipv4(q);
    let toks = q.map_values(|v: int| spec_render(v));

    // The formatted address parses back to exactly `q`.
    assert forall|i: int| #![trigger q[i]] 0 <= i < 4 implies valid_byte_token(toks[i]) && no_sep(
        toks[i],
        '.',
    ) by {
        lemma_render_props(q[i]);
        lemma_digit_not_dot(toks[i]);
    }
    lemma_split_join(toks, '.');
    assert(spec_split(s, '.') =~~= toks);
    assert forall|i: int| #![trigger q[i]] 0 <= i < 4 implies toks.map_values(
        |t: Seq<char>| digits_value(t),
    )[i] == q[i] by {
        lemma_render_props(q[i]);
    }
    assert(toks.map_values(|t: Seq<char>| digits_value(t)) =~= q);
    assert(spec_parse_ipv4(s) == Some(q));

    // Compose into the ordinal; it fits the address space.
    lemma_address_base();
    lemma_word_base();
    lemma_min_base(3);
    assert(forall|i: int| 0 <= i < q.len() ==> 0 <= #[trigger] q[i] < 256);
    lemma_compose_bound(q, 256);
    let o = spec_compose(q, 256);
    assert(0 <= o < CARDINALITY);

    // Decompose into word digits; each indexes the dictionary.
    let digs = spec_digits(o, 1626, 3);
    lemma_digits_bounds(o, 1626, 3);
    let e = spec_format_epid3(digs, ws);
    assert(spec_ipv4_to_epid3(s, ws) == Some(e));

    // The identifier parses back to exactly `digs`.
    let wtoks = digs.map_values(|v: int| ws[v]);
    assert forall|i: int| #![trigger digs[i]] 0 <= i < 3 implies valid_word(wtoks[i]) && no_sep(
        wtoks[i],
        '.',
    ) by {
        assert(wtoks[i] == ws[digs[i]]);
    }
    lemma_split_join(wtoks, '.');
    assert(spec_split(e, '.') =~~= wtoks);
    assert forall|i: int| #![trigger digs[i]] 0 <= i < 3 implies dict_contains(ws, wtoks[i]) by {
        lemma_dict_index_unique(ws, digs[i], wtoks[i]);
    }
    assert forall|i: int| #![trigger digs[i]] 0 <= i < 3 implies wtoks.map_values(
        |t: Seq<char>| dict_index_of(ws, t),
    )[i] == digs[i] by {
        lemma_dict_index_unique(ws, digs[i], wtoks[i]);
    }
    assert(wtoks.map_values(|t: Seq<char>| dict_index_of(ws, t)) =~= digs);
    assert(spec_parse_epid3(e, ws) == Some(digs));

    // Composing the word digits restores the ordinal, whose address
    // digits are the original quad.
    lemma_compose_of_digits(o, 1626, 3);
    assert(spec_compose(digs, 1626) == o);
    lemma_digits_of_compose(q, 256);
    assert(spec_digits(o, 256, 4) == q);
    assert(spec_epid3_to_ipv4(e, ws) == Some(spec_format_ipv4(q)));
}

} // verus!
