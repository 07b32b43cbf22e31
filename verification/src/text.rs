//! Text helpers: character sequences of strings, ordering of names,
//! substring search, case folding and the labels and addresses built from text.
use vstd::prelude::*;
use vstd::std_specs::iter::IteratorSpec;

verus! {

broadcast use vstd::string::group_string_axioms;

/// The characters of `s`, in order.
pub fn chars_of(s: &str) -> (out: Vec<char>)
    ensures
        out@ == s@,
{
    let mut out: Vec<char> = Vec::new();
    let mut it = s.chars();
    let ghost all = s@;
    loop
        invariant
            all == s@,
            it.obeys_prophetic_iter_laws(),
            all == out@ + it.remaining(),
            it.decrease() is Some,
        ensures
            out@ == s@,
        decreases it.decrease()->0,
    {
        match it.next() {
            Some(c) => {
                out.push(c);
            },
            None => {
                assert(it.remaining().len() == 0);
                assert(out@ + it.remaining() == out@);
                break;
            },
        }
    }
    out
}


/// `String::push`: appends the character `c` at the end of `s`.
#[verifier::external_body]
pub(crate) fn push_char(s: &mut String, c: char)
    ensures
        final(s)@ == old(s)@.push(c),
{
    s.push(c);
}

/// The string whose characters are `v`, in order.
pub fn string_from_chars(v: &Vec<char>) -> (s: String)
    ensures
        s@ == v@,
{
    let mut s = String::new();
    let mut i: usize = 0;
    while i < v.len()
        invariant
            i <= v@.len(),
            s@ == v@.subrange(0, i as int),
        decreases v@.len() - i,
    {
        push_char(&mut s, v[i]);
        i = i + 1;
        assert(s@ == v@.subrange(0, i as int));
    }
    assert(v@.subrange(0, v@.len() as int) == v@);
    s
}

/// What `str::to_lowercase` gives for a string with the characters `s`:
/// the Unicode lowercase mapping, which depends on `s` alone.
pub uninterp spec fn lowercase(s: Seq<char>) -> Seq<char>;

/// `str::to_lowercase`: the lowercase form of `s`. Its result is named
/// [`lowercase`]; beyond that it is claimed only that the result is empty
/// exactly when `s` is, since every `char` lowercases to one or more chars.
#[verifier::external_body]
pub(crate) fn to_lowercase(s: &str) -> (r: String)
    ensures
        r@ == lowercase(s@),
        r@.len() == 0 <==> s@.len() == 0,
{
    s.to_lowercase()
}

/// `needle` occurs in `hay` as a run of consecutive characters.
pub open spec fn is_infix(needle: Seq<char>, hay: Seq<char>) -> bool {
    exists|k: int|
        0 <= k && k + needle.len() <= hay.len() && #[trigger] hay.subrange(k, k + needle.len())
            == needle
}

/// The empty text occurs in every text.
pub proof fn lemma_empty_is_infix(needle: Seq<char>, hay: Seq<char>)
    requires
        needle.len() == 0,
    ensures
        is_infix(needle, hay),
{
    assert(hay.subrange(0, 0 + needle.len() as int) =~= needle);
}

/// `needle` occurs in `hay` starting at position `k`.
pub open spec fn occurs_at(needle: Seq<char>, hay: Seq<char>, k: int) -> bool {
    0 <= k && k + needle.len() <= hay.len() && hay.subrange(k, k + needle.len()) == needle
}

/// Whether `needle` occurs in `hay`.
pub fn contains_chars(hay: &Vec<char>, needle: &Vec<char>) -> (r: bool)
    ensures
        r == is_infix(needle@, hay@),
{
    let n = needle.len();
    let h = hay.len();
    if n > h {
        assert(!is_infix(needle@, hay@));
        return false;
    }
    let mut k: usize = 0;
    while k <= h - n
        invariant
            n == needle@.len(),
            h == hay@.len(),
            n <= h,
            k <= h - n + 1,
            forall|j: int| 0 <= j < k ==> !occurs_at(needle@, hay@, j),
        decreases h - n + 1 - k,
    {
        let mut i: usize = 0;
        let mut same = true;
        while i < n
            invariant
                n == needle@.len(),
                h == hay@.len(),
                k + n <= h,
                i <= n,
                same == (forall|t: int| 0 <= t < i ==> hay@[k + t] == needle@[t]),
            decreases n - i,
        {
            if hay[k + i] != needle[i] {
                same = false;
            }
            i = i + 1;
        }
        assert(same == occurs_at(needle@, hay@, k as int)) by {
            if same {
                assert(hay@.subrange(k as int, k + n) =~= needle@);
            } else {
                let t = choose|t: int| 0 <= t < n && hay@[k + t] != needle@[t];
                assert(hay@.subrange(k as int, k + n)[t] != needle@[t]);
            }
        }
        if same {
            assert(hay@.subrange(k as int, k + n) == needle@);
            return true;
        }
        k = k + 1;
    }
    assert forall|j: int|
        0 <= j && j + needle@.len() <= hay@.len() implies #[trigger] hay@.subrange(j, j + needle@.len())
        != needle@ by {
        assert(!occurs_at(needle@, hay@, j));
    }
    false
}

/// Lexicographic order of character sequences, character by character by
/// code point, a proper prefix coming first. For strings this is the order
/// of `str`'s `Ord`, which compares the UTF-8 bytes.
pub open spec fn seq_lt(a: Seq<char>, b: Seq<char>) -> bool
    decreases a.len(),
{
    if a.len() == 0 {
        b.len() > 0
    } else if b.len() == 0 {
        false
    } else if a[0] != b[0] {
        (a[0] as int) < (b[0] as int)
    } else {
        seq_lt(a.drop_first(), b.drop_first())
    }
}

/// `seq_lt` is irreflexive.
pub proof fn lemma_seq_lt_irreflexive(a: Seq<char>)
    ensures
        !seq_lt(a, a),
    decreases a.len(),
{
    if a.len() > 0 {
        lemma_seq_lt_irreflexive(a.drop_first());
    }
}

/// `seq_lt` is transitive.
pub proof fn lemma_seq_lt_transitive(a: Seq<char>, b: Seq<char>, c: Seq<char>)
    requires
        seq_lt(a, b),
        seq_lt(b, c),
    ensures
        seq_lt(a, c),
    decreases a.len(),
{
    if a.len() > 0 && b.len() > 0 && c.len() > 0 {
        if a[0] == b[0] && b[0] == c[0] {
            lemma_seq_lt_transitive(a.drop_first(), b.drop_first(), c.drop_first());
        }
    }
}

/// Two distinct sequences are ordered one way or the other.
pub proof fn lemma_seq_lt_total(a: Seq<char>, b: Seq<char>)
    ensures
        a == b || seq_lt(a, b) || seq_lt(b, a),
    decreases a.len(),
{
    if a.len() > 0 && b.len() > 0 {
        if a[0] == b[0] {
            lemma_seq_lt_total(a.drop_first(), b.drop_first());
            if a.drop_first() == b.drop_first() {
                assert(a =~= seq![a[0]] + a.drop_first());
                assert(b =~= seq![b[0]] + b.drop_first());
            }
        } else {
            assert((a[0] as int) != (b[0] as int));
        }
    } else if a.len() == 0 && b.len() == 0 {
        assert(a =~= b);
    }
}

/// `seq_lt` is asymmetric.
pub proof fn lemma_seq_lt_asymmetric(a: Seq<char>, b: Seq<char>)
    requires
        seq_lt(a, b),
    ensures
        !seq_lt(b, a),
{
    if seq_lt(b, a) {
        lemma_seq_lt_transitive(a, b, a);
        lemma_seq_lt_irreflexive(a);
    }
}

proof fn lemma_seq_lt_skip(a: Seq<char>, b: Seq<char>, i: int)
    requires
        0 <= i < a.len(),
        i < b.len(),
        a[i] == b[i],
    ensures
        seq_lt(a.skip(i), b.skip(i)) == seq_lt(a.skip(i + 1), b.skip(i + 1)),
{
    assert(a.skip(i).drop_first() =~= a.skip(i + 1));
    assert(b.skip(i).drop_first() =~= b.skip(i + 1));
}

/// Whether `a` comes strictly before `b` in the order of strings.
pub fn str_lt(a: &str, b: &str) -> (r: bool)
    ensures
        r == seq_lt(a@, b@),
{
    let x = chars_of(a);
    let y = chars_of(b);
    let mut i: usize = 0;
    assert(x@.skip(0) =~= x@);
    assert(y@.skip(0) =~= y@);
    while i < x.len() && i < y.len()
        invariant
            x@ == a@,
            y@ == b@,
            i <= x@.len(),
            i <= y@.len(),
            seq_lt(a@, b@) == seq_lt(x@.skip(i as int), y@.skip(i as int)),
        decreases x@.len() - i,
    {
        if x[i] != y[i] {
            let xi = x[i];
            let yi = y[i];
            assert(x@.skip(i as int)[0] == xi);
            assert(y@.skip(i as int)[0] == yi);
            return xi < yi;
        }
        proof {
            lemma_seq_lt_skip(x@, y@, i as int);
        }
        i = i + 1;
    }
    i < y.len()
}

/// Removes the last character of `s` and returns it, or returns `None` and
/// leaves `s` as it is when `s` is empty.
pub fn pop_char(s: &mut String) -> (r: Option<char>)
    ensures
        old(s)@.len() == 0 ==> r is None && final(s)@ == old(s)@,
        old(s)@.len() > 0 ==> r == Some(old(s)@.last()) && final(s)@ == old(s)@.drop_last(),
{
    let mut chars = chars_of(s.as_str());
    match chars.pop() {
        Some(c) => {
            *s = string_from_chars(&chars);
            Some(c)
        },
        None => None,
    }
}

/// `needle` occurs in a text that occurs in `hay` only if it occurs in `hay`.
pub proof fn lemma_infix_transitive(a: Seq<char>, b: Seq<char>, c: Seq<char>)
    requires
        is_infix(a, b),
        is_infix(b, c),
    ensures
        is_infix(a, c),
{
    let i = choose|k: int| 0 <= k && k + a.len() <= b.len() && #[trigger] b.subrange(k, k + a.len()) == a;
    let j = choose|k: int| 0 <= k && k + b.len() <= c.len() && #[trigger] c.subrange(k, k + b.len()) == b;
    assert(c.subrange(i + j, i + j + a.len()) =~= a) by {
        assert forall|t: int| 0 <= t < a.len() implies c.subrange(i + j, i + j + a.len())[t] == a[t] by {
            assert(b.subrange(i, i + a.len())[t] == b[i + t]);
            assert(c.subrange(j, j + b.len())[i + t] == c[j + i + t]);
        }
    }
}

} // verus!
