//! Byte-level searching and comparison shared by the line reader, the
//! response classifier and the title scanner.
use vstd::prelude::*;
use vstd::slice::slice_subrange;

verus! {

/// The first index at or after `from` where `s` holds `b`.
pub open spec fn first_from(s: Seq<u8>, b: u8, from: int) -> Option<int>
    decreases s.len() - from,
{
    if from < 0 || from >= s.len() {
        None
    } else if s[from] == b {
        Some(from)
    } else {
        first_from(s, b, from + 1)
    }
}

/// `b` does not occur in `s` between `from` (included) and `to` (excluded).
pub open spec fn absent(s: Seq<u8>, b: u8, from: int, to: int) -> bool {
    forall|j: int| from <= j < to ==> #[trigger] s[j] != b
}

/// What `first_from` returns, stated by its properties.
pub proof fn lemma_first_from(s: Seq<u8>, b: u8, from: int)
    requires
        0 <= from,
    ensures
        match first_from(s, b, from) {
            Some(i) => from <= i < s.len() && s[i] == b && absent(s, b, from, i),
            None => absent(s, b, from, s.len() as int),
        },
    decreases s.len() - from,
{
    if from < s.len() && s[from] != b {
        lemma_first_from(s, b, from + 1);
    }
}

/// The properties of `lemma_first_from` pin the result down.
pub proof fn lemma_first_from_is(s: Seq<u8>, b: u8, from: int, r: Option<int>)
    requires
        0 <= from,
        match r {
            Some(i) => from <= i < s.len() && s[i] == b && absent(s, b, from, i),
            None => absent(s, b, from, s.len() as int),
        },
    ensures
        first_from(s, b, from) == r,
    decreases s.len() - from,
{
    if from < s.len() && s[from] != b {
        lemma_first_from_is(s, b, from + 1, r);
    }
}

/// Relies on memchr::memchr: the index of the first occurrence of `needle`
/// in `haystack`, or `None` where it does not occur.
#[verifier::external_body]
fn memchr_index(needle: u8, haystack: &[u8]) -> (r: Option<usize>)
    ensures
        match r {
            Some(i) => i < haystack@.len() && haystack@[i as int] == needle && absent(
                haystack@,
                needle,
                0,
                i as int,
            ),
            None => absent(haystack@, needle, 0, haystack@.len() as int),
        },
{
    memchr::memchr(needle, haystack)
}

/// The first index at or after `from` where `v` holds `b`.
pub fn find_byte_from(v: &[u8], b: u8, from: usize) -> (r: Option<usize>)
    requires
        from <= v@.len(),
    ensures
        r == (match first_from(v@, b, from as int) {
            Some(i) => Some(i as usize),
            None => None::<usize>,
        }),
{
    let tail = slice_subrange(v, from, v.len());
    let found = memchr_index(b, tail);
    proof {
        let t = tail@;
        match found {
            Some(i) => {
                assert(v@[from + i] == t[i as int]);
                assert forall|j: int| from <= j < from + i implies #[trigger] v@[j] != b by {
                    assert(v@[j] == t[j - from]);
                }
                lemma_first_from_is(v@, b, from as int, Some(from + i));
            },
            None => {
                assert forall|j: int| from <= j < v@.len() implies #[trigger] v@[j] != b by {
                    assert(v@[j] == t[j - from]);
                }
                lemma_first_from_is(v@, b, from as int, None);
            },
        }
    }
    match found {
        Some(i) => Some(from + i),
        None => None,
    }
}

/// The byte with ASCII upper-case letters mapped to lower case.
pub open spec fn lower(b: u8) -> u8 {
    if 65 <= b <= 90 {
        (b + 32) as u8
    } else {
        b
    }
}

/// `a` and `b` are equal when ASCII letter case is ignored.
pub open spec fn eq_ignore_case(a: Seq<u8>, b: Seq<u8>) -> bool {
    &&& a.len() == b.len()
    &&& forall|i: int| 0 <= i < a.len() ==> #[trigger] lower(a[i]) == lower(b[i])
}

pub fn lower_byte(b: u8) -> (r: u8)
    ensures
        r == lower(b),
{
    if 65 <= b && b <= 90 {
        b + 32
    } else {
        b
    }
}

/// Compares `a[from..from + b.len()]` with `b`, ignoring ASCII letter case.
pub fn eq_ignore_case_at(a: &[u8], from: usize, b: &[u8]) -> (r: bool)
    requires
        from + b@.len() <= a@.len(),
    ensures
        r == eq_ignore_case(a@.subrange(from as int, from + b@.len()), b@),
{
    let n = a.len();
    let mut i: usize = 0;
    while i < b.len()
        invariant
            i <= b@.len(),
            from + b@.len() <= a@.len(),
            n == a@.len(),
            forall|j: int| 0 <= j < i ==> #[trigger] lower(a@[from + j]) == lower(b@[j]),
        decreases b@.len() - i,
    {
        if lower_byte(a[from + i]) != lower_byte(b[i]) {
            assert(lower(a@.subrange(from as int, from + b@.len())[i as int]) != lower(b@[i as int]));
            return false;
        }
        i += 1;
    }
    assert forall|j: int| 0 <= j < b@.len() implies #[trigger] lower(
        a@.subrange(from as int, from + b@.len())[j],
    ) == lower(b@[j]) by {
        assert(a@.subrange(from as int, from + b@.len())[j] == a@[from + j]);
    }
    true
}

/// Compares `a[from..to]` with `b` byte for byte.
pub fn eq_at(a: &[u8], from: usize, to: usize, b: &[u8]) -> (r: bool)
    requires
        from <= to <= a@.len(),
    ensures
        r == (a@.subrange(from as int, to as int) == b@),
{
    if to - from != b.len() {
        return false;
    }
    let mut i: usize = 0;
    while i < b.len()
        invariant
            i <= b@.len(),
            to - from == b@.len(),
            to <= a@.len(),
            forall|j: int| 0 <= j < i ==> #[trigger] a@[from + j] == b@[j],
        decreases b@.len() - i,
    {
        if a[from + i] != b[i] {
            assert(a@.subrange(from as int, to as int)[i as int] != b@[i as int]);
            return false;
        }
        i += 1;
    }
    assert(a@.subrange(from as int, to as int) =~= b@) by {
        assert forall|j: int| 0 <= j < b@.len() implies a@.subrange(from as int, to as int)[j]
            == b@[j] by {
            assert(a@[from + j] == b@[j]);
        }
    }
    true
}

/// A copy of `v[from..to]`.
pub fn copy_range(v: &[u8], from: usize, to: usize) -> (r: Vec<u8>)
    requires
        from <= to <= v@.len(),
    ensures
        r@ == v@.subrange(from as int, to as int),
{
    let mut r: Vec<u8> = Vec::new();
    let mut i: usize = from;
    while i < to
        invariant
            from <= i <= to <= v@.len(),
            r@ == v@.subrange(from as int, i as int),
        decreases to - i,
    {
        r.push(v[i]);
        assert(r@ =~= v@.subrange(from as int, i + 1));
        i += 1;
    }
    r
}

/// Appends `v[from..to]` to `out`.
pub fn append_range(out: &mut Vec<u8>, v: &[u8], from: usize, to: usize)
    requires
        from <= to <= v@.len(),
    ensures
        final(out)@ == old(out)@ + v@.subrange(from as int, to as int),
{
    let mut i: usize = from;
    while i < to
        invariant
            from <= i <= to <= v@.len(),
            out@ == old(out)@ + v@.subrange(from as int, i as int),
        decreases to - i,
    {
        out.push(v[i]);
        assert(out@ =~= old(out)@ + v@.subrange(from as int, i + 1));
        i += 1;
    }
}

/// Drops the first `n` bytes of `v`.
pub fn drop_front(v: &mut Vec<u8>, n: usize)
    requires
        n <= old(v)@.len(),
    ensures
        final(v)@ == old(v)@.subrange(n as int, old(v)@.len() as int),
{
    let rest = v.split_off(n);
    *v = rest;
}

} // verus!
