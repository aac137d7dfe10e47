//! Text as sequences of characters: search and order.
//!
//! Device names are matched against fixed patterns and listed in dictionary
//! order. Both are done on the characters of a name, compared by their code
//! points.

use vstd::prelude::*;
use vstd::string::StrSliceExecFns;

verus! {

/// The lower-case form of a text, as `str::to_lowercase` gives it.
pub uninterp spec fn lowercase(text: Seq<char>) -> Seq<char>;

/// `pattern` stands in `text` at position `at`.
pub open spec fn occurs_at(text: Seq<char>, pattern: Seq<char>, at: int) -> bool {
    &&& 0 <= at
    &&& at + pattern.len() <= text.len()
    &&& text.subrange(at, at + pattern.len()) == pattern
}

/// `pattern` stands somewhere in `text`.
pub open spec fn occurs_in(text: Seq<char>, pattern: Seq<char>) -> bool {
    exists|at: int| occurs_at(text, pattern, at)
}

/// `text` begins with `pattern`.
pub open spec fn begins_with(text: Seq<char>, pattern: Seq<char>) -> bool {
    occurs_at(text, pattern, 0)
}

/// `text` ends with `pattern`.
pub open spec fn finishes_with(text: Seq<char>, pattern: Seq<char>) -> bool {
    occurs_at(text, pattern, text.len() - pattern.len())
}

/// `a` and `b` have the same first `k` characters.
pub open spec fn agree_before(a: Seq<char>, b: Seq<char>, k: int) -> bool {
    &&& 0 <= k <= a.len()
    &&& k <= b.len()
    &&& forall|i: int| 0 <= i < k ==> a[i] == b[i]
}

/// `a` comes before `b` in dictionary order: where they first differ `a` has
/// the smaller code point, or `a` ends there and `b` goes on.
pub open spec fn precedes(a: Seq<char>, b: Seq<char>) -> bool {
    exists|k: int| #[trigger]
        agree_before(a, b, k) && k < b.len() && (k == a.len() || (a[k] as u32) < (b[k] as u32))
}

/// The order is transitive.
pub proof fn lemma_precedes_transitive(a: Seq<char>, b: Seq<char>, c: Seq<char>)
    requires
        precedes(a, b),
        precedes(b, c),
    ensures
        precedes(a, c),
{
    let k1 = choose|k: int| #[trigger]
        agree_before(a, b, k) && k < b.len() && (k == a.len() || (a[k] as u32) < (b[k] as u32));
    let k2 = choose|k: int| #[trigger]
        agree_before(b, c, k) && k < c.len() && (k == b.len() || (b[k] as u32) < (c[k] as u32));
    let k = if k1 <= k2 {
        k1
    } else {
        k2
    };
    assert(agree_before(a, c, k));
}

/// Of two texts at most one comes before the other, and then they differ.
pub proof fn lemma_precedes_one_way(a: Seq<char>, b: Seq<char>)
    requires
        precedes(a, b),
    ensures
        !precedes(b, a),
        a != b,
{
    let k1 = choose|k: int| #[trigger]
        agree_before(a, b, k) && k < b.len() && (k == a.len() || (a[k] as u32) < (b[k] as u32));
    if precedes(b, a) {
        let k2 = choose|k: int| #[trigger]
            agree_before(b, a, k) && k < a.len() && (k == b.len() || (b[k] as u32) < (a[k] as u32));
        if k1 < k2 {
            assert(b[k1] == a[k1]);
        } else if k2 < k1 {
            assert(a[k2] == b[k2]);
        }
    }
    if a == b {
        assert(a[k1] == b[k1]);
    }
}

/// How one text stands to another in dictionary order.
#[derive(Clone, Copy, Debug, PartialEq, Eq, Structural)]
pub enum Rank {
    Before,
    Same,
    After,
}

/// The lower-case form of `text`. This is `str::to_lowercase` of the standard
/// library; what it returns is known here only by the name [`lowercase`].
#[verifier::external_body]
pub(crate) fn to_lowercase(text: &str) -> (lower: String)
    ensures
        lower@ == lowercase(text@),
{
    text.to_lowercase()
}

/// The characters of `text`.
pub fn chars_of(text: &str) -> (chars: Vec<char>)
    ensures
        chars@ == text@,
{
    let count = text.unicode_len();
    let mut chars: Vec<char> = Vec::new();
    let mut i: usize = 0;
    while i < count
        invariant
            count == text@.len(),
            i <= count,
            chars@ == text@.take(i as int),
        decreases count - i,
    {
        chars.push(text.get_char(i));
        assert(chars@ =~= text@.take(i + 1));
        i += 1;
    }
    assert(text@.take(count as int) =~= text@);
    chars
}

/// Whether `pattern` stands in `text` at position `at`.
pub fn stands_at(text: &Vec<char>, pattern: &Vec<char>, at: usize) -> (found: bool)
    ensures
        found == occurs_at(text@, pattern@, at as int),
{
    if pattern.len() > text.len() || at > text.len() - pattern.len() {
        return false;
    }
    let mut i: usize = 0;
    while i < pattern.len()
        invariant
            at + pattern@.len() <= text@.len() <= usize::MAX,
            i <= pattern@.len(),
            forall|j: int| 0 <= j < i ==> text@[at + j] == pattern@[j],
        decreases pattern@.len() - i,
    {
        if text[at + i] != pattern[i] {
            assert(text@.subrange(at as int, at + pattern@.len())[i as int] != pattern@[i as int]);
            return false;
        }
        i += 1;
    }
    assert(text@.subrange(at as int, at + pattern@.len()) =~= pattern@);
    true
}

/// Whether `text` begins with `pattern`.
pub fn starts_with(text: &Vec<char>, pattern: &Vec<char>) -> (found: bool)
    ensures
        found == begins_with(text@, pattern@),
{
    stands_at(text, pattern, 0)
}

/// Whether `text` ends with `pattern`.
pub fn ends_with(text: &Vec<char>, pattern: &Vec<char>) -> (found: bool)
    ensures
        found == finishes_with(text@, pattern@),
{
    if pattern.len() > text.len() {
        false
    } else {
        stands_at(text, pattern, text.len() - pattern.len())
    }
}

/// Whether `pattern` stands somewhere in `text`.
pub fn contains(text: &Vec<char>, pattern: &Vec<char>) -> (found: bool)
    ensures
        found == occurs_in(text@, pattern@),
{
    if pattern.len() > text.len() {
        return false;
    }
    let last = text.len() - pattern.len();
    let mut at: usize = 0;
    while at < last
        invariant
            last == text@.len() - pattern@.len(),
            at <= last,
            forall|j: int| 0 <= j < at ==> !occurs_at(text@, pattern@, j),
        decreases last - at,
    {
        if stands_at(text, pattern, at) {
            return true;
        }
        at += 1;
    }
    stands_at(text, pattern, last)
}

/// Compares two texts in dictionary order.
pub fn compare(a: &Vec<char>, b: &Vec<char>) -> (rank: Rank)
    ensures
        rank == Rank::Before <==> precedes(a@, b@),
        rank == Rank::Same <==> a@ == b@,
        rank == Rank::After <==> precedes(b@, a@),
{
    proof {
        if precedes(a@, b@) {
            lemma_precedes_one_way(a@, b@);
        }
        if precedes(b@, a@) {
            lemma_precedes_one_way(b@, a@);
        }
    }
    let mut k: usize = 0;
    while k < a.len() && k < b.len() && a[k] == b[k]
        invariant
            agree_before(a@, b@, k as int),
        decreases a@.len() - k,
    {
        k += 1;
    }
    if k == a.len() {
        if k == b.len() {
            assert(a@ =~= b@);
            Rank::Same
        } else {
            assert(agree_before(a@, b@, k as int));
            Rank::Before
        }
    } else if k == b.len() {
        assert(agree_before(b@, a@, k as int));
        Rank::After
    } else if (a[k] as u32) < (b[k] as u32) {
        assert(agree_before(a@, b@, k as int));
        Rank::Before
    } else {
        proof {
            vstd::utf8::char_u32_cast(a@[k as int], a@[k as int] as u32);
            vstd::utf8::char_u32_cast(b@[k as int], b@[k as int] as u32);
            assert(agree_before(b@, a@, k as int));
        }
        Rank::After
    }
}

} // verus!
