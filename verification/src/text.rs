//! Text as sequences of characters: comparison, the order in which texts
//! are listed, and the search for one text in another.

use vstd::prelude::*;
use vstd::string::*;

verus! {

/// The characters of `s`, one by one.
pub fn chars_of(s: &str) -> (out: Vec<char>)
    ensures
        out@ == s@,
{
    let mut out: Vec<char> = Vec::new();
    for c in it: s.chars()
        invariant
            out@ == it.seq().take(it.index()),
            it.seq() == s@,
    {
        out.push(c);
    }
    out
}

/// Tells whether two texts hold the same characters.
pub fn text_equal(a: &str, b: &str) -> (same: bool)
    ensures
        same == (a@ == b@),
{
    let x = chars_of(a);
    let y = chars_of(b);
    if x.len() != y.len() {
        return false;
    }
    let mut i: usize = 0;
    while i < x.len()
        invariant
            x@ == a@,
            y@ == b@,
            x.len() == y.len(),
            i <= x.len(),
            forall|k: int| 0 <= k < i ==> a@[k] == b@[k],
        decreases x.len() - i,
    {
        if x[i] != y[i] {
            return false;
        }
        i = i + 1;
    }
    assert(a@ =~= b@);
    true
}

/// Tells whether two lists hold the same texts in the same order.
pub fn texts_equal(a: &Vec<String>, b: &Vec<String>) -> (same: bool)
    ensures
        same == (a.deep_view() == b.deep_view()),
{
    if a.len() != b.len() {
        assert(a.deep_view().len() != b.deep_view().len());
        return false;
    }
    let mut i: usize = 0;
    while i < a.len()
        invariant
            a.len() == b.len(),
            i <= a.len(),
            forall|k: int| 0 <= k < i ==> a@[k]@ == b@[k]@,
        decreases a.len() - i,
    {
        if !text_equal(a[i].as_str(), b[i].as_str()) {
            assert(a.deep_view()[i as int] != b.deep_view()[i as int]);
            return false;
        }
        i = i + 1;
    }
    assert(a.deep_view() =~= b.deep_view());
    true
}

/// Duplicates an optional text.
pub fn copy_optional(text: &Option<String>) -> (copy: Option<String>)
    ensures
        copy.deep_view() == text.deep_view(),
{
    match text {
        Some(t) => Some(t.clone()),
        None => None,
    }
}

/// Strict lexicographic order on texts, character by character and by code
/// point; a proper prefix comes before the text it begins.
pub open spec fn text_lt(a: Seq<char>, b: Seq<char>) -> bool
    decreases a.len(),
{
    if b.len() == 0 {
        false
    } else if a.len() == 0 {
        true
    } else if a[0] != b[0] {
        (a[0] as u32) < (b[0] as u32)
    } else {
        text_lt(a.drop_first(), b.drop_first())
    }
}

/// `a` comes before `b` or equals it.
pub open spec fn text_le(a: Seq<char>, b: Seq<char>) -> bool {
    a == b || text_lt(a, b)
}

/// No text comes before itself.
pub proof fn lemma_text_lt_irreflexive(a: Seq<char>)
    ensures
        !text_lt(a, a),
    decreases a.len(),
{
    if a.len() > 0 {
        lemma_text_lt_irreflexive(a.drop_first());
    }
}

/// Of two different texts exactly one comes before the other.
pub proof fn lemma_text_lt_total(a: Seq<char>, b: Seq<char>)
    ensures
        a != b ==> (text_lt(a, b) <==> !text_lt(b, a)),
        a == b ==> !text_lt(a, b),
    decreases a.len(),
{
    if a == b {
        lemma_text_lt_irreflexive(a);
    } else if a.len() > 0 && b.len() > 0 {
        if a[0] == b[0] {
            if a.drop_first() == b.drop_first() {
                assert(a =~= seq![a[0]] + a.drop_first());
                assert(b =~= seq![b[0]] + b.drop_first());
            }
            lemma_text_lt_total(a.drop_first(), b.drop_first());
        } else {
            vstd::utf8::char_u32_cast(a[0], a[0] as u32);
            vstd::utf8::char_u32_cast(b[0], b[0] as u32);
        }
    } else if a.len() == 0 {
        assert(b.len() > 0) by {
            if b.len() == 0 {
                assert(a =~= b);
            }
        }
    }
}

/// The order is transitive.
pub proof fn lemma_text_lt_transitive(a: Seq<char>, b: Seq<char>, c: Seq<char>)
    requires
        text_lt(a, b),
        text_lt(b, c),
    ensures
        text_lt(a, c),
    decreases a.len(),
{
    if a.len() > 0 {
        if a[0] == b[0] && b[0] == c[0] {
            lemma_text_lt_transitive(a.drop_first(), b.drop_first(), c.drop_first());
        }
    }
}

/// Tells whether `a` comes before `b` in the order of [`text_lt`].
pub fn text_less(a: &str, b: &str) -> (less: bool)
    ensures
        less == text_lt(a@, b@),
{
    let x = chars_of(a);
    let y = chars_of(b);
    let mut i: usize = 0;
    assert(a@.skip(0) =~= a@ && b@.skip(0) =~= b@);
    while i < x.len() && i < y.len()
        invariant
            x@ == a@,
            y@ == b@,
            i <= x.len(),
            i <= y.len(),
            text_lt(a@, b@) == text_lt(a@.skip(i as int), b@.skip(i as int)),
        decreases x.len() - i,
    {
        let p = x[i];
        let q = y[i];
        proof {
            let ra = a@.skip(i as int);
            let rb = b@.skip(i as int);
            assert(ra[0] == p && rb[0] == q);
            assert(ra.drop_first() =~= a@.skip(i + 1));
            assert(rb.drop_first() =~= b@.skip(i + 1));
        }
        if p != q {
            return (p as u32) < (q as u32);
        }
        i = i + 1;
    }
    i < y.len()
}

/// `text` ends with `suffix`.
pub open spec fn ends_with(text: Seq<char>, suffix: Seq<char>) -> bool {
    text.len() >= suffix.len() && text.skip(text.len() - suffix.len()) == suffix
}

/// Tells whether `text` ends with `suffix`.
pub fn text_ends_with(text: &str, suffix: &str) -> (ends: bool)
    ensures
        ends == ends_with(text@, suffix@),
{
    let t = chars_of(text);
    let s = chars_of(suffix);
    if s.len() > t.len() {
        return false;
    }
    let offset: usize = t.len() - s.len();
    let mut i: usize = 0;
    while i < s.len()
        invariant
            t@ == text@,
            s@ == suffix@,
            offset + s.len() == t.len(),
            i <= s.len(),
            forall|k: int| 0 <= k < i ==> text@[offset + k] == suffix@[k],
        decreases s.len() - i,
    {
        if t[offset + i] != s[i] {
            assert(text@.skip(offset as int)[i as int] != suffix@[i as int]);
            return false;
        }
        i = i + 1;
    }
    assert(text@.skip(offset as int) =~= suffix@);
    true
}

/// The index of the first `mark` in `text`, the length of `text` where it
/// holds none.
pub open spec fn first_index_of(text: Seq<char>, mark: char) -> int
    decreases text.len(),
{
    if text.len() == 0 || text[0] == mark {
        0
    } else {
        1 + first_index_of(text.drop_first(), mark)
    }
}

/// The first index of a mark lies within the text or at its end; no mark
/// stands before it, and one stands at it unless it is the end.
pub proof fn lemma_first_index_of(text: Seq<char>, mark: char)
    ensures
        0 <= first_index_of(text, mark) <= text.len(),
        forall|k: int| 0 <= k < first_index_of(text, mark) ==> text[k] != mark,
        first_index_of(text, mark) < text.len() ==> text[first_index_of(text, mark)] == mark,
    decreases text.len(),
{
    if text.len() == 0 || text[0] == mark {
    } else {
        let rest = text.drop_first();
        lemma_first_index_of(rest, mark);
        assert forall|k: int| 0 <= k < first_index_of(text, mark) implies text[k] != mark by {
            if k > 0 {
                assert(text[k] == rest[k - 1]);
            }
        }
        if first_index_of(text, mark) < text.len() {
            assert(text[first_index_of(text, mark)] == rest[first_index_of(rest, mark)]);
        }
    }
}

/// Finds the first `mark` in `text` at or after `from`; the result counts
/// from `from`.
pub fn find_char(text: &Vec<char>, from: usize, mark: char) -> (at: usize)
    requires
        from <= text.len(),
    ensures
        at == first_index_of(text@.skip(from as int), mark),
        from + at <= text.len(),
{
    let mut i: usize = from;
    while i < text.len() && text[i] != mark
        invariant
            from <= i <= text.len(),
            forall|k: int| from <= k < i ==> text@[k] != mark,
        decreases text.len() - i,
    {
        i = i + 1;
    }
    proof {
        let rest = text@.skip(from as int);
        lemma_first_index_of(rest, mark);
        let found = first_index_of(rest, mark);
        if found < i - from {
            assert(rest[found] == text@[from + found]);
        } else if found > i - from {
            assert(rest[i - from] == text@[i as int]);
        }
    }
    i - from
}

/// `text` with every occurrence of `from` turned into `to`, the
/// occurrences taken from the left and none overlapping another. An empty
/// `from` occurs nowhere.
pub open spec fn replaced_all(text: Seq<char>, from: Seq<char>, to: Seq<char>) -> Seq<char>
    decreases text.len(),
{
    if from.len() == 0 || text.len() < from.len() {
        text
    } else if text.take(from.len() as int) == from {
        to + replaced_all(text.skip(from.len() as int), from, to)
    } else {
        text.take(1) + replaced_all(text.skip(1), from, to)
    }
}

/// Tells whether `part` stands in `text` at offset `at`, character for
/// character.
fn same_at(text: &Vec<char>, part: &Vec<char>, at: usize) -> (same: bool)
    requires
        at + part.len() <= text.len(),
    ensures
        same == (text@.skip(at as int).take(part.len() as int) == part@),
{
    let mut j: usize = 0;
    while j < part.len()
        invariant
            at + part.len() <= text.len(),
            j <= part.len(),
            forall|k: int| 0 <= k < j ==> text@[at + k] == part@[k],
        decreases part.len() - j,
    {
        if text[at + j] != part[j] {
            assert(text@.skip(at as int).take(part.len() as int)[j as int] != part@[j as int]);
            return false;
        }
        j = j + 1;
    }
    assert(text@.skip(at as int).take(part.len() as int) =~= part@);
    true
}

/// Turns every occurrence of `from` in `text` into `to`.
pub fn replace_all(text: &str, from: &str, to: &str) -> (out: String)
    ensures
        out@ == replaced_all(text@, from@, to@),
{
    let t = chars_of(text);
    let f = chars_of(from);
    if f.len() == 0 || t.len() < f.len() {
        return String::from_str(text);
    }
    let mut out = String::new();
    let mut start: usize = 0;
    let mut i: usize = 0;
    assert(text@.skip(0) =~= text@);
    assert(out@ + text@.subrange(0, 0) =~= Seq::<char>::empty());
    assert(Seq::<char>::empty() + text@ =~= text@);
    let last: usize = t.len() - f.len();
    while i <= last
        invariant
            t@ == text@,
            f@ == from@,
            f.len() > 0,
            last + f.len() == t.len(),
            start <= i <= t.len(),
            replaced_all(text@, from@, to@) == out@ + text@.subrange(start as int, i as int)
                + replaced_all(text@.skip(i as int), from@, to@),
        decreases t.len() - i,
    {
        let ghost rest = text@.skip(i as int);
        if same_at(&t, &f, i) {
            proof {
                assert(rest.skip(f.len() as int) =~= text@.skip(i + f.len()));
            }
            let ghost before = out@;
            let ghost pending = text@.subrange(start as int, i as int);
            out.append(text.substring_char(start, i));
            out.append(to);
            i = i + f.len();
            start = i;
            assert(out@ + text@.subrange(start as int, i as int) =~= before + pending + to@);
        } else {
            proof {
                assert(rest.skip(1) =~= text@.skip(i + 1));
                assert(text@.subrange(start as int, i as int) + rest.take(1) =~= text@.subrange(
                    start as int,
                    i + 1,
                ));
            }
            i = i + 1;
        }
    }
    proof {
        assert(text@.subrange(start as int, i as int) + text@.skip(i as int) =~= text@.subrange(
            start as int,
            t.len() as int,
        ));
    }
    out.append(text.substring_char(start, t.len()));
    out
}

/// The code point of `c`, with the upper-case ASCII letters folded onto the
/// lower-case ones; every other character stands for itself.
pub open spec fn folded(c: char) -> u32 {
    if 'A' as u32 <= c as u32 && c as u32 <= 'Z' as u32 {
        (c as u32 + 32) as u32
    } else {
        c as u32
    }
}

/// `pattern` stands in `text` at offset `at`, upper and lower case of the
/// ASCII letters taken as equal.
pub open spec fn found_at(text: Seq<char>, pattern: Seq<char>, at: int) -> bool {
    &&& 0 <= at
    &&& at + pattern.len() <= text.len()
    &&& forall|j: int| 0 <= j < pattern.len() ==> folded(#[trigger] text[at + j]) == folded(pattern[j])
}

/// `pattern` occurs somewhere in `text`.
pub open spec fn contains_text(text: Seq<char>, pattern: Seq<char>) -> bool {
    exists|at: int| found_at(text, pattern, at)
}

/// The empty pattern occurs in every text.
pub proof fn lemma_contains_empty(text: Seq<char>)
    ensures
        contains_text(text, Seq::<char>::empty()),
{
    assert(found_at(text, Seq::<char>::empty(), 0));
}

/// Computes [`folded`].
pub fn fold_char(c: char) -> (f: u32)
    ensures
        f == folded(c),
{
    let n: u32 = c as u32;
    if 'A' as u32 <= n && n <= 'Z' as u32 {
        n + 32
    } else {
        n
    }
}

/// Tells whether `pattern` stands in `text` at offset `at`.
fn stands_at(text: &Vec<char>, pattern: &Vec<char>, at: usize) -> (found: bool)
    requires
        at + pattern.len() <= text.len(),
    ensures
        found == found_at(text@, pattern@, at as int),
{
    let mut j: usize = 0;
    while j < pattern.len()
        invariant
            at + pattern.len() <= text.len(),
            j <= pattern.len(),
            forall|k: int| 0 <= k < j ==> folded(#[trigger] text@[at + k]) == folded(pattern@[k]),
        decreases pattern.len() - j,
    {
        if fold_char(text[at + j]) != fold_char(pattern[j]) {
            return false;
        }
        j = j + 1;
    }
    true
}

/// Tells whether `pattern` occurs in `text`, upper and lower case of the
/// ASCII letters taken as equal.
pub fn text_contains(text: &str, pattern: &str) -> (found: bool)
    ensures
        found == contains_text(text@, pattern@),
{
    let t = chars_of(text);
    let p = chars_of(pattern);
    if p.len() > t.len() {
        assert(forall|at: int| !found_at(text@, pattern@, at));
        return false;
    }
    let last: usize = t.len() - p.len();
    let mut at: usize = 0;
    while at <= last
        invariant
            t@ == text@,
            p@ == pattern@,
            last == t.len() - p.len(),
            at <= last + 1,
            forall|k: int| 0 <= k < at ==> !found_at(text@, pattern@, k),
        decreases last + 1 - at,
    {
        if stands_at(&t, &p, at) {
            return true;
        }
        at = at + 1;
    }
    assert(forall|k: int| !found_at(text@, pattern@, k));
    false
}

} // verus!
