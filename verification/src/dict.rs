//! The word dictionary: an immutable, lexicographically sorted sequence of
//! unique words, with positional access and ordered-search lookup.

use vstd::prelude::*;

verus! {

use crate::text::no_sep;

/// The word form needs at least this many dictionary entries: the derived
/// base for three components.
pub const WORD_BASE: usize = 1626;

/// Strict lexicographic order on character sequences, by code point.
pub open spec fn lex_lt(a: Seq<char>, b: Seq<char>) -> bool
    decreases a.len(),
{
    if b.len() == 0 {
        false
    } else if a.len() == 0 {
        true
    } else if a[0] != b[0] {
        a[0] < b[0]
    } else {
        lex_lt(a.drop_first(), b.drop_first())
    }
}

/// Exactly one of `a < b`, `a == b`, `b < a` holds.
pub proof fn lemma_lex_trichotomy(a: Seq<char>, b: Seq<char>)
    ensures
        lex_lt(a, b) || a == b || lex_lt(b, a),
        lex_lt(a, b) ==> a != b && !lex_lt(b, a),
        lex_lt(b, a) ==> a != b && !lex_lt(a, b),
    decreases a.len(),
{
    if a.len() == 0 && b.len() == 0 {
        assert(a =~= b);
    } else if a.len() > 0 && b.len() > 0 {
        if a[0] == b[0] {
            lemma_lex_trichotomy(a.drop_first(), b.drop_first());
            if a.drop_first() == b.drop_first() {
                assert forall|j: int| 1 <= j < a.len() implies #[trigger] a[j] == b[j] by {
                    assert(a[j] == a.drop_first()[j - 1]);
                    assert(b[j] == b.drop_first()[j - 1]);
                }
                assert(a =~= b);
            }
            if a == b {
                assert(a.drop_first() =~= b.drop_first());
            }
        } else {
            assert(a != b);
        }
    }
}

/// Lexicographic order is transitive.
pub proof fn lemma_lex_transitive(a: Seq<char>, b: Seq<char>, c: Seq<char>)
    requires
        lex_lt(a, b),
        lex_lt(b, c),
    ensures
        lex_lt(a, c),
    decreases a.len(),
{
    if a.len() > 0 && b.len() > 0 && c.len() > 0 {
        if a[0] == b[0] && b[0] == c[0] {
            lemma_lex_transitive(a.drop_first(), b.drop_first(), c.drop_first());
        }
    }
}

/// A usable dictionary word: nonempty, and free of the separator that the
/// dotted forms use.
pub open spec fn valid_word(w: Seq<char>) -> bool {
    w.len() >= 1 && no_sep(w, '.')
}

/// A well-formed dictionary: enough entries for the word form, every entry
/// a usable word, and strictly sorted (hence unique).
pub open spec fn dict_valid(ws: Seq<Seq<char>>) -> bool {
    &&& WORD_BASE <= ws.len()
    &&& ws.len() < 4294967296
    &&& forall|i: int| 0 <= i < ws.len() ==> valid_word(#[trigger] ws[i])
    &&& forall|i: int, j: int|
        0 <= i < j < ws.len() ==> lex_lt(#[trigger] ws[i], #[trigger] ws[j])
}

/// Adjacent order extends to all pairs.
proof fn lemma_sorted_pair(ws: Seq<Seq<char>>, i: int, j: int)
    requires
        forall|k: int| 0 <= k < ws.len() - 1 ==> lex_lt(#[trigger] ws[k], ws[k + 1]),
        0 <= i < j < ws.len(),
    ensures
        lex_lt(ws[i], ws[j]),
    decreases j - i,
{
    if j == i + 1 {
        assert(lex_lt(ws[i], ws[i + 1]));
    } else {
        lemma_sorted_pair(ws, i, j - 1);
        assert(lex_lt(ws[j - 1], ws[j]));
        lemma_lex_transitive(ws[i], ws[j - 1], ws[j]);
    }
}

/// The dictionary holds `w` somewhere.
pub open spec fn dict_contains(ws: Seq<Seq<char>>, w: Seq<char>) -> bool {
    exists|i: int| 0 <= i < ws.len() && ws[i] == w
}

/// The position of `w` in the dictionary.
pub open spec fn dict_index_of(ws: Seq<Seq<char>>, w: Seq<char>) -> int {
    choose|i: int| 0 <= i < ws.len() && ws[i] == w
}

/// In a sorted dictionary every word has exactly one position.
pub proof fn lemma_dict_index_unique(ws: Seq<Seq<char>>, i: int, w: Seq<char>)
    requires
        dict_valid(ws),
        0 <= i < ws.len(),
        ws[i] == w,
    ensures
        dict_contains(ws, w),
        dict_index_of(ws, w) == i,
{
    assert(dict_contains(ws, w));
    let j = dict_index_of(ws, w);
    assert(0 <= j < ws.len() && ws[j] == w);
    if i < j {
        lemma_lex_trichotomy(ws[i], ws[j]);
        assert(false);
    }
    if j < i {
        lemma_lex_trichotomy(ws[j], ws[i]);
        assert(false);
    }
}

/// Three-way lexicographic comparison of two strings.
fn str_cmp(a: &str, b: &str) -> (r: i8)
    ensures
        -1 <= r <= 1,
        (r == -1) == lex_lt(a@, b@),
        (r == 0) == (a@ == b@),
        (r == 1) == lex_lt(b@, a@),
{
    let na = a.unicode_len();
    let nb = b.unicode_len();
    let mut i: usize = 0;
    while i < na && i < nb
        invariant
            na == a@.len(),
            nb == b@.len(),
            i <= na,
            i <= nb,
            forall|j: int| 0 <= j < i ==> a@[j] == b@[j],
        decreases na - i,
    {
        let ca = a.get_char(i);
        let cb = b.get_char(i);
        if (ca as u32) < (cb as u32) {
            proof {
                lemma_lex_at(a@, b@, i as int);
                lemma_lex_trichotomy(a@, b@);
            }
            return -1;
        }
        if (cb as u32) < (ca as u32) {
            proof {
                lemma_lex_at(b@, a@, i as int);
                lemma_lex_trichotomy(a@, b@);
            }
            return 1;
        }
        i = i + 1;
    }
    if na == nb {
        proof {
            assert(a@ =~= b@);
            lemma_lex_trichotomy(a@, b@);
        }
        0
    } else if na < nb {
        proof {
            lemma_lex_at(a@, b@, na as int);
            lemma_lex_trichotomy(a@, b@);
        }
        -1
    } else {
        proof {
            lemma_lex_at(b@, a@, nb as int);
            lemma_lex_trichotomy(a@, b@);
        }
        1
    }
}

/// After a common prefix, a smaller character or an earlier end decides
/// the lexicographic order.
proof fn lemma_lex_at(a: Seq<char>, b: Seq<char>, i: int)
    requires
        0 <= i <= a.len(),
        i <= b.len(),
        forall|j: int| 0 <= j < i ==> a[j] == b[j],
    ensures
        (i < a.len() && i < b.len() && a[i] < b[i]) ==> lex_lt(a, b),
        (i == a.len() && i < b.len()) ==> lex_lt(a, b),
    decreases i,
{
    if i > 0 {
        assert(a[0] == b[0]);
        let a1 = a.drop_first();
        let b1 = b.drop_first();
        assert(forall|j: int| 0 <= j < i - 1 ==> #[trigger] a1[j] == b1[j]) by {
            assert(forall|j: int| 0 <= j < a1.len() ==> #[trigger] a1[j] == a[j + 1]);
            assert(forall|j: int| 0 <= j < b1.len() ==> #[trigger] b1[j] == b[j + 1]);
        }
        lemma_lex_at(a1, b1, i - 1);
        if i < a.len() && i < b.len() && a[i] < b[i] {
            assert(a1[i - 1] == a[i] && b1[i - 1] == b[i]);
            assert(lex_lt(a1, b1));
        }
        if i == a.len() && i < b.len() {
            assert(lex_lt(a1, b1));
        }
    }
}

/// Whether a string is a usable dictionary word.
fn check_word(w: &str) -> (r: bool)
    ensures
        r == valid_word(w@),
{
    let n = w.unicode_len();
    if n == 0 {
        return false;
    }
    let mut i: usize = 0;
    while i < n
        invariant
            n == w@.len(),
            0 <= i <= n,
            forall|j: int| 0 <= j < i ==> w@[j] != '.',
        decreases n - i,
    {
        let c = w.get_char(i);
        if c == '.' {
            return false;
        }
        i = i + 1;
    }
    true
}

/// The immutable word dictionary shared by all codec calls.
pub struct Dictionary {
    words: Vec<String>,
}

impl View for Dictionary {
    type V = Seq<Seq<char>>;

    closed spec fn view(&self) -> Seq<Seq<char>> {
        self.words@.map_values(|w: String| w@)
    }
}

impl Dictionary {
    /// The dictionary is well formed; established by `new` and never lost,
    /// since nothing mutates it afterwards.
    pub open spec fn valid(&self) -> bool {
        dict_valid(self@)
    }

    /// Accepts a word list exactly when it forms a well-formed dictionary:
    /// enough entries, every entry usable, strictly sorted.
    pub fn new(words: Vec<String>) -> (r: Option<Dictionary>)
        ensures
            match r {
                Some(d) => d@ == words.deep_view() && d.valid(),
                None => !dict_valid(words.deep_view()),
            },
    {
        let ghost ws = words.deep_view();
        proof {
            assert(ws =~~= words@.map_values(|w: String| w@));
        }
        let n = words.len();
        if n < WORD_BASE {
            return None;
        }
        if (n as u64) >= 4294967296u64 {
            return None;
        }
        let mut i: usize = 0;
        while i < n
            invariant
                n == ws.len(),
                n == words@.len(),
                ws == words.deep_view(),
                forall|j: int| 0 <= j < n ==> #[trigger] ws[j] == words@[j]@,
                0 <= i <= n,
                forall|j: int| 0 <= j < i ==> valid_word(#[trigger] ws[j]),
            decreases n - i,
        {
            if !check_word(words[i].as_str()) {
                proof {
                    assert(!valid_word(ws[i as int]));
                    assert(!dict_valid(ws));
                }
                return None;
            }
            i = i + 1;
        }
        let mut k: usize = 0;
        while k < n - 1
            invariant
                n == ws.len(),
                n == words@.len(),
                ws == words.deep_view(),
                forall|j: int| 0 <= j < n ==> #[trigger] ws[j] == words@[j]@,
                1 <= n,
                0 <= k <= n,
                forall|j: int| 0 <= j < k ==> lex_lt(#[trigger] ws[j], ws[j + 1]),
            decreases n - k,
        {
            let c = str_cmp(words[k].as_str(), words[k + 1].as_str());
            if c != -1 {
                proof {
                    assert(!lex_lt(ws[k as int], ws[k as int + 1]));
                    assert(!dict_valid(ws));
                }
                return None;
            }
            k = k + 1;
        }
        proof {
            assert forall|i0: int, j0: int| 0 <= i0 < j0 < ws.len() implies lex_lt(
                #[trigger] ws[i0],
                #[trigger] ws[j0],
            ) by {
                lemma_sorted_pair(ws, i0, j0);
            }
        }
        let d = Dictionary { words };
        proof {
            assert(d@ =~~= ws);
        }
        Some(d)
    }

    /// The number of entries.
    pub fn len(&self) -> (n: usize)
        ensures
            n == self@.len(),
    {
        self.words.len()
    }

    /// The word at a position.
    pub fn word_at(&self, i: usize) -> (w: &str)
        requires
            i < self@.len(),
        ensures
            w@ == self@[i as int],
    {
        self.words[i].as_str()
    }

    /// Ordered search: the position of an exact match, or `None` when the
    /// word is absent.
    pub fn lookup(&self, w: &str) -> (r: Option<usize>)
        requires
            self.valid(),
        ensures
            match r {
                Some(i) => i < self@.len() && self@[i as int] == w@,
                None => forall|i: int| 0 <= i < self@.len() ==> self@[i] != w@,
            },
    {
        let mut lo: usize = 0;
        let mut hi: usize = self.words.len();
        while lo < hi
            invariant
                self.valid(),
                0 <= lo <= hi <= self@.len(),
                forall|k: int| 0 <= k < lo ==> lex_lt(#[trigger] self@[k], w@),
                forall|k: int| hi <= k < self@.len() ==> lex_lt(w@, #[trigger] self@[k]),
            decreases hi - lo,
        {
            let mid = lo + (hi - lo) / 2;
            let c = str_cmp(w, self.word_at(mid));
            if c == 0 {
                return Some(mid);
            }
            if c == -1 {
                proof {
                    assert forall|k: int| mid <= k < self@.len() implies lex_lt(
                        w@,
                        #[trigger] self@[k],
                    ) by {
                        if k > mid {
                            lemma_lex_transitive(w@, self@[mid as int], self@[k]);
                        }
                    }
                }
                hi = mid;
            } else {
                proof {
                    assert forall|k: int| 0 <= k < mid + 1 implies lex_lt(
                        #[trigger] self@[k],
                        w@,
                    ) by {
                        if k < mid {
                            lemma_lex_transitive(self@[k], self@[mid as int], w@);
                        }
                    }
                }
                lo = mid + 1;
            }
        }
        proof {
            assert forall|i: int| 0 <= i < self@.len() implies self@[i] != w@ by {
                lemma_lex_trichotomy(self@[i], w@);
            }
        }
        None
    }
}

} // verus!
