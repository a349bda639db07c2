//! Lookup of Unicode code points by canonical name.
//!
//! The lookup scans every scalar value from the first visible character
//! (U+0020) up to the maximum scalar value, resolves each one's canonical
//! name, and keeps the code points whose name contains the uppercased query
//! as a substring.  Queries of fewer than three characters produce an empty
//! result, so that short queries never pay for a full scan.  Results are in
//! scan order, that is by ascending code point value; this ordering is part
//! of the contract and pins the result list down uniquely.

use vstd::prelude::*;

use rayon::iter::IntoParallelIterator;
use rayon::iter::ParallelIterator;

verus! {

/// A code point together with its canonical name.
#[derive(Debug, Clone)]
pub struct CodePoint(pub char, pub String);

/// The canonical name the Unicode character database assigns to `c`, or
/// `None` where no name is assigned.  The name is a fixed property of the
/// code point.
pub uninterp spec fn name_of(c: char) -> Option<Seq<char>>;

/// The uppercased form of `s`, as `str::to_uppercase` computes it from the
/// characters of `s` alone.
pub uninterp spec fn upper_of(s: Seq<char>) -> Seq<char>;

/// `needle` occurs in `hay` starting at position `k`.
pub open spec fn match_at(needle: Seq<char>, hay: Seq<char>, k: int) -> bool {
    &&& 0 <= k
    &&& k + needle.len() <= hay.len()
    &&& forall|j: int| 0 <= j < needle.len() ==> hay[k + j] == needle[j]
}

/// `needle` occurs somewhere in `hay` as a contiguous substring.
pub open spec fn is_substr(needle: Seq<char>, hay: Seq<char>) -> bool {
    exists|k: int| match_at(needle, hay, k)
}

/// The character `c` is a hit for the (already uppercased) search key: it is
/// at or above the first visible character, it has a canonical name, and that
/// name contains the key.
pub open spec fn is_match(key: Seq<char>, c: char) -> bool {
    &&& c as u32 >= 0x20
    &&& name_of(c) is Some
    &&& is_substr(key, name_of(c)->0)
}

/// `cp` is a sound entry for the search key: its character is a hit and its
/// stored name is that character's canonical name.
pub open spec fn entry_ok(key: Seq<char>, cp: CodePoint) -> bool {
    &&& is_match(key, cp.0)
    &&& name_of(cp.0) == Some(cp.1@)
}

/// The entries of `r` are in scan order: ascending code point value.
pub open spec fn ascending(r: Seq<CodePoint>) -> bool {
    forall|i: int, j: int| 0 <= i < j < r.len() ==> (r[i].0 as u32) < (r[j].0 as u32)
}

/// Every character that is a hit for the key appears in `r`.
pub open spec fn complete(key: Seq<char>, r: Seq<CodePoint>) -> bool {
    forall|c: char|
        #[trigger] is_match(key, c) ==> exists|i: int| 0 <= i < r.len() && r[i].0 == c
}

/// What `lookup_by_name` leaves behind for query `q`: an empty list for a
/// query of fewer than three characters; otherwise exactly the code points
/// whose canonical name contains the uppercased query, each paired with its
/// canonical name, in ascending code point order.
pub open spec fn lookup_post(q: Seq<char>, r: Seq<CodePoint>) -> bool {
    if q.len() < 3 {
        r.len() == 0
    } else {
        &&& forall|i: int| 0 <= i < r.len() ==> entry_ok(upper_of(q), #[trigger] r[i])
        &&& ascending(r)
        &&& complete(upper_of(q), r)
    }
}

/// Relies on `char::from_u32`: it returns `Some` exactly when `c` is a
/// Unicode scalar value (not a surrogate, at most U+10FFFF), and the
/// character it returns has the numeric value `c`.
#[verifier::external_body]
fn char_from_u32(c: u32) -> (r: Option<char>)
    ensures
        r is Some <==> (c < 0xD800 || (0xE000 <= c && c <= 0x10FFFF)),
        r is Some ==> r->0 as u32 == c,
{
    char::from_u32(c)
}

/// Relies on `unicode_names2::name`: the canonical name of a character is
/// looked up in the crate's static tables, so it depends on the character
/// alone; characters without an assigned canonical name give `None`.
#[verifier::external_body]
fn char_name(c: char) -> (r: Option<Vec<char>>)
    ensures
        match r {
            Some(n) => name_of(c) == Some(n@),
            None => name_of(c) is None,
        },
{
    unicode_names2::name(c).map(|n| n.collect::<String>().chars().collect())
}

/// Relies on `str::to_uppercase`: the result is computed from the characters
/// of the input alone.
#[verifier::external_body]
fn to_upper(s: &str) -> (r: String)
    ensures
        r@ == upper_of(s@),
{
    s.to_uppercase()
}

/// Relies on `str::chars` (through `collect`): the characters of the string,
/// in order, which is exactly the string's view.
#[verifier::external_body]
fn str_chars(s: &str) -> (r: Vec<char>)
    ensures
        r@ == s@,
{
    s.chars().collect()
}

/// Relies on `String`'s `FromIterator<char>` (through `collect`): the string
/// made of exactly the given characters, in order.
#[verifier::external_body]
fn chars_to_string(v: &Vec<char>) -> (r: String)
    ensures
        r@ == v@,
{
    v.iter().collect()
}

/// Whether `needle` occurs in `hay` starting at position `k`.
fn contains_at(needle: &Vec<char>, hay: &Vec<char>, k: usize) -> (r: bool)
    requires
        k + needle@.len() <= hay@.len(),
    ensures
        r == match_at(needle@, hay@, k as int),
{
    let n = needle.len();
    let h = hay.len();
    let mut j: usize = 0;
    while j < n
        invariant
            n == needle@.len(),
            h == hay@.len(),
            k + n <= h,
            j <= n,
            forall|t: int| 0 <= t < j ==> hay@[k + t] == needle@[t],
        decreases n - j,
    {
        if hay[k + j] != needle[j] {
            assert(hay@[k + j as int] != needle@[j as int]);
            return false;
        }
        j += 1;
    }
    true
}

/// Whether `needle` occurs anywhere in `hay` as a contiguous substring.
fn contains_seq(needle: &Vec<char>, hay: &Vec<char>) -> (r: bool)
    ensures
        r == is_substr(needle@, hay@),
{
    let n = needle.len();
    let h = hay.len();
    if n > h {
        assert(forall|k: int| !match_at(needle@, hay@, k));
        return false;
    }
    let mut k: usize = 0;
    while k <= h - n
        invariant
            n == needle@.len(),
            h == hay@.len(),
            n <= h,
            k <= h - n + 1,
            forall|t: int| 0 <= t < k ==> !match_at(needle@, hay@, t),

        decreases h - n + 1 - k,
    {
        if contains_at(needle, hay, k) {
            assert(is_substr(needle@, hay@));
            return true;
        }
        k += 1;
    }
    assert(forall|t: int| match_at(needle@, hay@, t) ==> 0 <= t <= h - n);
    false
}

/// Resolve scalar value `c` against the search key: the code point with its
/// canonical name when `c` is a visible, named character whose name contains
/// the key, and `None` otherwise.
fn probe(c: u32, key: &Vec<char>) -> (r: Option<CodePoint>)
    ensures
        match r {
            Some(cp) => cp.0 as u32 == c && entry_ok(key@, cp),
            None => forall|ch: char| ch as u32 == c ==> !is_match(key@, ch),
        },
{
    if c < 0x20 {
        return None;
    }
    let ch = match char_from_u32(c) {
        Some(ch) => ch,
        None => {
            proof {
                assert forall|x: char| x as u32 == c implies !is_match(key@, x) by {
                    vstd::utf8::char_is_scalar(x);
                }
            }
            return None;
        },
    };
    let name = match char_name(ch) {
        Some(n) => n,
        None => {
            proof {
                assert forall|x: char| x as u32 == c implies !is_match(key@, x) by {
                    vstd::utf8::char_u32_cast(x, c);
                    vstd::utf8::char_u32_cast(ch, c);
                    assert(x == ch);
                }
            }
            return None;
        },
    };
    if contains_seq(key, &name) {
        Some(CodePoint(ch, chars_to_string(&name)))
    } else {
        proof {
            assert forall|x: char| x as u32 == c implies !is_match(key@, x) by {
                vstd::utf8::char_u32_cast(x, c);
                vstd::utf8::char_u32_cast(ch, c);
                assert(x == ch);
                assert(name_of(x)->0 == name@);
            }
        }
        None
    }
}

/// Relies on rayon's parallel iterator over an integer range, `filter_map`
/// and `collect` into a `Vec`: every value of the range is handed to the
/// verified `probe` exactly once, and the values the probes return are
/// collected in range order, as rayon documents for `collect`.  The
/// postcondition therefore only restates `probe`'s contract pointwise,
/// together with that ordering.
#[verifier::external_body]
fn par_scan(lo: u32, hi: u32, key: &Vec<char>) -> (r: Vec<CodePoint>)
    ensures
        forall|i: int|
            0 <= i < r@.len() ==> entry_ok(key@, #[trigger] r@[i]) && lo <= (r@[i].0 as u32)
                && (r@[i].0 as u32) < hi,
        ascending(r@),
        forall|c: char|
            lo <= (c as u32) && (c as u32) < hi && #[trigger] is_match(key@, c) ==> exists|i: int|
                0 <= i < r@.len() && r@[i].0 == c,
{
    (lo..hi).into_par_iter().filter_map(|c| probe(c, key)).collect()
}

/// Sound, ascending result lists that both contain every hit strictly above
/// the code point value `b` agree entry for entry.
proof fn lemma_hits_unique_above(key: Seq<char>, r1: Seq<CodePoint>, r2: Seq<CodePoint>, b: u32)
    requires
        forall|i: int| 0 <= i < r1.len() ==> entry_ok(key, #[trigger] r1[i]),
        forall|i: int| 0 <= i < r2.len() ==> entry_ok(key, #[trigger] r2[i]),
        ascending(r1),
        ascending(r2),
        forall|i: int| 0 <= i < r1.len() ==> ((#[trigger] r1[i]).0 as u32) > b,
        forall|i: int| 0 <= i < r2.len() ==> ((#[trigger] r2[i]).0 as u32) > b,
        forall|c: char|
            #[trigger] is_match(key, c) && (c as u32) > b ==> exists|i: int|
                0 <= i < r1.len() && r1[i].0 == c,
        forall|c: char|
            #[trigger] is_match(key, c) && (c as u32) > b ==> exists|i: int|
                0 <= i < r2.len() && r2[i].0 == c,
    ensures
        r1.len() == r2.len(),
        forall|i: int| 0 <= i < r1.len() ==> r1[i].0 == r2[i].0 && r1[i].1@ == r2[i].1@,
    decreases r1.len(),
{
    if r1.len() == 0 {
        if r2.len() > 0 {
            assert(is_match(key, r2[0].0));
            assert(exists|i: int| 0 <= i < r1.len() && r1[i].0 == r2[0].0);
            assert(false);
        }
    } else if r2.len() == 0 {
        assert(is_match(key, r1[0].0));
        assert(exists|i: int| 0 <= i < r2.len() && r2[i].0 == r1[0].0);
        assert(false);
    } else {
        let c1 = r1[0].0;
        let c2 = r2[0].0;
        assert(is_match(key, c1));
        assert(is_match(key, c2));
        assert(exists|i: int| 0 <= i < r2.len() && r2[i].0 == c1);
        let j2 = choose|j: int| 0 <= j < r2.len() && r2[j].0 == c1;
        if j2 > 0 {
            assert((r2[0].0 as u32) < (r2[j2].0 as u32));
        }
        assert((c2 as u32) <= (c1 as u32));
        assert(exists|i: int| 0 <= i < r1.len() && r1[i].0 == c2);
        let j1 = choose|j: int| 0 <= j < r1.len() && r1[j].0 == c2;
        if j1 > 0 {
            assert((r1[0].0 as u32) < (r1[j1].0 as u32));
        }
        assert((c1 as u32) <= (c2 as u32));
        vstd::utf8::char_u32_cast(c1, c1 as u32);
        vstd::utf8::char_u32_cast(c2, c2 as u32);
        assert(c1 == c2);
        assert(r1[0].1@ == r2[0].1@);
        let t1 = r1.drop_first();
        let t2 = r2.drop_first();
        let b2 = c1 as u32;
        assert forall|i: int| 0 <= i < t1.len() implies entry_ok(key, #[trigger] t1[i])
            && ((t1[i]).0 as u32) > b2 by {
            assert(t1[i] == r1[i + 1]);
            assert((r1[0].0 as u32) < (r1[i + 1].0 as u32));
        }
        assert forall|i: int| 0 <= i < t2.len() implies entry_ok(key, #[trigger] t2[i])
            && ((t2[i]).0 as u32) > b2 by {
            assert(t2[i] == r2[i + 1]);
            assert((r2[0].0 as u32) < (r2[i + 1].0 as u32));
        }
        assert forall|i: int, j: int| 0 <= i < j < t1.len() implies (t1[i].0 as u32)
            < (t1[j].0 as u32) by {
            assert(t1[i] == r1[i + 1]);
            assert(t1[j] == r1[j + 1]);
        }
        assert forall|i: int, j: int| 0 <= i < j < t2.len() implies (t2[i].0 as u32)
            < (t2[j].0 as u32) by {
            assert(t2[i] == r2[i + 1]);
            assert(t2[j] == r2[j + 1]);
        }
        assert forall|c: char| #[trigger] is_match(key, c) && (c as u32) > b2 implies exists|i: int|
            0 <= i < t1.len() && t1[i].0 == c by {
            assert(exists|i: int| 0 <= i < r1.len() && r1[i].0 == c);
            let i = choose|i: int| 0 <= i < r1.len() && r1[i].0 == c;
            assert(i != 0);
            assert(t1[i - 1] == r1[i]);
            assert(0 <= i - 1 < t1.len() && t1[i - 1].0 == c);
        }
        assert forall|c: char| #[trigger] is_match(key, c) && (c as u32) > b2 implies exists|i: int|
            0 <= i < t2.len() && t2[i].0 == c by {
            assert(exists|i: int| 0 <= i < r2.len() && r2[i].0 == c);
            let i = choose|i: int| 0 <= i < r2.len() && r2[i].0 == c;
            assert(i != 0);
            assert(t2[i - 1] == r2[i]);
            assert(0 <= i - 1 < t2.len() && t2[i - 1].0 == c);
        }
        lemma_hits_unique_above(key, t1, t2, b2);
        assert forall|i: int| 0 <= i < r1.len() implies r1[i].0 == r2[i].0 && r1[i].1@
            == r2[i].1@ by {
            if i > 0 {
                assert(t1[i - 1] == r1[i]);
                assert(t2[i - 1] == r2[i]);
                assert(t1[i - 1].0 == t2[i - 1].0 && t1[i - 1].1@ == t2[i - 1].1@);
            }
        }
    }
}

/// Lookup is deterministic: for one query, any two result lists that meet
/// the lookup contract agree in length and, entry for entry, in both the
/// code point and its name.
pub proof fn lemma_lookup_deterministic(q: Seq<char>, r1: Seq<CodePoint>, r2: Seq<CodePoint>)
    requires
        lookup_post(q, r1),
        lookup_post(q, r2),
    ensures
        r1.len() == r2.len(),
        forall|i: int| 0 <= i < r1.len() ==> r1[i].0 == r2[i].0 && r1[i].1@ == r2[i].1@,
{
    if q.len() >= 3 {
        let key = upper_of(q);
        assert forall|i: int| 0 <= i < r1.len() implies ((#[trigger] r1[i]).0 as u32)
            > 0x1F by {
            assert(entry_ok(key, r1[i]));
        }
        assert forall|i: int| 0 <= i < r2.len() implies ((#[trigger] r2[i]).0 as u32)
            > 0x1F by {
            assert(entry_ok(key, r2[i]));
        }
        lemma_hits_unique_above(key, r1, r2, 0x1F);
    }
}

/// Every hit appears exactly once: together with `complete`, which puts each
/// hit in the list at least once, the strictly ascending order makes the
/// entries pairwise distinct.
pub proof fn lemma_lookup_no_duplicates(q: Seq<char>, r: Seq<CodePoint>)
    requires
        lookup_post(q, r),
    ensures
        forall|i: int, j: int| 0 <= i < j < r.len() ==> r[i].0 != r[j].0,
{
    if q.len() >= 3 {
        assert forall|i: int, j: int| 0 <= i < j < r.len() implies r[i].0 != r[j].0 by {
            assert((r[i].0 as u32) < (r[j].0 as u32));
        }
    }
}

/// Lookup is case-insensitive on the query: a query of the same length and
/// the same uppercased form admits exactly the same result lists, since the
/// contract depends on the query only through its length threshold and its
/// uppercased form.
pub proof fn lemma_lookup_case_insensitive(q1: Seq<char>, q2: Seq<char>, r: Seq<CodePoint>)
    requires
        q1.len() == q2.len(),
        upper_of(q1) == upper_of(q2),
        lookup_post(q1, r),
    ensures
        lookup_post(q2, r),
{
}

/// Search the code point space for characters whose canonical name contains
/// `s`, uppercased, and replace the contents of `data` with the hits, in
/// ascending code point order.  A query of fewer than three characters
/// leaves `data` empty without scanning.
pub fn lookup_by_name(s: &str, data: &mut Vec<CodePoint>)
    ensures
        lookup_post(s@, final(data)@),
{
    data.clear();
    if s.unicode_len() >= 3 {
        let canonical = to_upper(s);
        let key = str_chars(canonical.as_str());
        let mut found = par_scan(0x20, 0x110000, &key);
        let ghost f = found@;
        data.append(&mut found);
        proof {
            assert(data@ =~= f);
            assert forall|c: char| #[trigger] is_match(upper_of(s@), c) implies exists|i: int|
                0 <= i < data@.len() && data@[i].0 == c by {
                vstd::utf8::char_is_scalar(c);
                assert(0x20 <= (c as u32) && (c as u32) < 0x110000);
            }
        }
    }
}

} // verus!
