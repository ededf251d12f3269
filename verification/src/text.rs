//! Character-sequence utilities shared by the matching and hosts modules.
//!
//! Strings are handled as sequences of `char`; every function here states
//! its result over `Seq<char>`.

use vstd::prelude::*;

verus! {

/// `suffix` is a suffix of `s`.
pub open spec fn has_suffix(s: Seq<char>, suffix: Seq<char>) -> bool {
    suffix.len() <= s.len() && s.subrange(s.len() - suffix.len(), s.len() as int) == suffix
}

/// `prefix` is a prefix of `s`.
pub open spec fn has_prefix(s: Seq<char>, prefix: Seq<char>) -> bool {
    prefix.len() <= s.len() && s.take(prefix.len() as int) == prefix
}

/// `p` occurs in `s` starting at position `i`.
pub open spec fn occurs_at(s: Seq<char>, p: Seq<char>, i: int) -> bool {
    0 <= i && i + p.len() <= s.len() && s.subrange(i, i + p.len()) == p
}

/// `p` occurs somewhere in `s` (the empty sequence occurs in every sequence).
pub open spec fn contains_seq(s: Seq<char>, p: Seq<char>) -> bool {
    exists|i: int| occurs_at(s, p, i)
}

/// `domain` is `d` itself or a subdomain of `d` (ends with `.` followed by `d`).
pub open spec fn is_domain_or_subdomain(domain: Seq<char>, d: Seq<char>) -> bool {
    domain == d || has_suffix(domain, seq!['.'] + d)
}

/// The position of the first `c` in `s`, or `s.len()` when `c` does not occur.
pub open spec fn first_pos(s: Seq<char>, c: char) -> nat
    decreases s.len(),
{
    if s.len() == 0 {
        0
    } else if s[0] == c {
        0
    } else {
        1 + first_pos(s.drop_first(), c)
    }
}

/// What `first_pos` is: the first position holding `c`, or the length.
pub proof fn lemma_first_pos(s: Seq<char>, c: char)
    ensures
        first_pos(s, c) <= s.len(),
        forall|j: int| 0 <= j < first_pos(s, c) ==> s[j] != c,
        first_pos(s, c) < s.len() ==> s[first_pos(s, c) as int] == c,
    decreases s.len(),
{
    if s.len() > 0 && s[0] != c {
        lemma_first_pos(s.drop_first(), c);
        assert forall|j: int| 0 <= j < first_pos(s, c) implies s[j] != c by {
            if j > 0 {
                assert(s[j] == s.drop_first()[j - 1]);
            }
        }
    }
}

/// A position with the properties of `first_pos` is `first_pos`.
pub proof fn lemma_first_pos_unique(s: Seq<char>, c: char, i: int)
    requires
        0 <= i <= s.len(),
        forall|j: int| 0 <= j < i ==> s[j] != c,
        i < s.len() ==> s[i] == c,
    ensures
        first_pos(s, c) == i,
    decreases s.len(),
{
    if s.len() > 0 && s[0] != c {
        assert forall|j: int| 0 <= j < i - 1 implies s.drop_first()[j] != c by {
            assert(s.drop_first()[j] == s[j + 1]);
        }
        lemma_first_pos_unique(s.drop_first(), c, i - 1);
    }
}

/// The characters of `s`, in order.
pub fn chars_of(s: &str) -> (r: Vec<char>)
    ensures
        r@ == s@,
{
    let mut r: Vec<char> = Vec::new();
    for c in it: s.chars()
        invariant
            r@ == it.seq().take(it.index() as int),
    {
        r.push(c);
    }
    r
}

/// Whether `p` occurs in `s` at position `i`.
pub fn occurs_at_exec(s: &Vec<char>, p: &Vec<char>, i: usize) -> (r: bool)
    requires
        i <= s.len(),
    ensures
        r == occurs_at(s@, p@, i as int),
{
    if p.len() > s.len() - i {
        return false;
    }
    let mut j: usize = 0;
    while j < p.len()
        invariant
            i + p.len() <= s.len(),
            j <= p.len(),
            forall|k: int| 0 <= k < j ==> s@[i + k] == p@[k],
        decreases p.len() - j,
    {
        if s[i + j] != p[j] {
            assert(s@.subrange(i as int, i + p.len())[j as int] != p@[j as int]);
            return false;
        }
        j = j + 1;
    }
    assert(s@.subrange(i as int, i + p.len()) =~= p@);
    true
}

/// Whether the two sequences are equal.
pub fn seq_eq(a: &Vec<char>, b: &Vec<char>) -> (r: bool)
    ensures
        r == (a@ == b@),
{
    if a.len() != b.len() {
        return false;
    }
    let r = occurs_at_exec(a, b, 0);
    assert(a@.subrange(0, a@.len() as int) =~= a@);
    r
}

/// Whether `p` is a suffix of `s`.
pub fn ends_with(s: &Vec<char>, p: &Vec<char>) -> (r: bool)
    ensures
        r == has_suffix(s@, p@),
{
    if p.len() > s.len() {
        return false;
    }
    occurs_at_exec(s, p, s.len() - p.len())
}

/// Whether `p` is a prefix of `s`.
pub fn starts_with(s: &Vec<char>, p: &Vec<char>) -> (r: bool)
    ensures
        r == has_prefix(s@, p@),
{
    if p.len() > s.len() {
        return false;
    }
    let r = occurs_at_exec(s, p, 0);
    assert(s@.subrange(0, p@.len() as int) =~= s@.take(p@.len() as int));
    r
}

/// Whether `p` occurs anywhere in `s`.
pub fn contains(s: &Vec<char>, p: &Vec<char>) -> (r: bool)
    ensures
        r == contains_seq(s@, p@),
{
    if p.len() > s.len() {
        return false;
    }
    let last = s.len() - p.len();
    let mut i: usize = 0;
    loop
        invariant
            last == s.len() - p.len(),
            p.len() <= s.len(),
            i <= last,
            forall|k: int| 0 <= k < i ==> !occurs_at(s@, p@, k),
        decreases last - i,
    {
        if occurs_at_exec(s, p, i) {
            return true;
        }
        if i == last {
            return false;
        }
        i = i + 1;
    }
}

/// The position of the first `c` in `s`, or `s.len()`.
pub fn find_char(s: &Vec<char>, c: char) -> (r: usize)
    ensures
        r == first_pos(s@, c),
        r <= s.len(),
{
    let mut i: usize = 0;
    while i < s.len()
        invariant
            i <= s.len(),
            forall|k: int| 0 <= k < i ==> s@[k] != c,
        decreases s.len() - i,
    {
        if s[i] == c {
            proof {
                lemma_first_pos_unique(s@, c, i as int);
            }
            return i;
        }
        i = i + 1;
    }
    proof {
        lemma_first_pos_unique(s@, c, i as int);
    }
    i
}

/// The first `n` characters of `s`.
pub fn take_chars(s: &Vec<char>, n: usize) -> (r: Vec<char>)
    requires
        n <= s.len(),
    ensures
        r@ == s@.take(n as int),
{
    let mut r: Vec<char> = Vec::new();
    let mut i: usize = 0;
    while i < n
        invariant
            n <= s.len(),
            i <= n,
            r@ == s@.take(i as int),
        decreases n - i,
    {
        r.push(s[i]);
        i = i + 1;
        assert(r@ =~= s@.take(i as int));
    }
    r
}

/// Whether `domain` is `d` or a subdomain of `d`.
pub fn domain_or_subdomain(domain: &Vec<char>, d: &Vec<char>) -> (r: bool)
    ensures
        r == is_domain_or_subdomain(domain@, d@),
{
    if seq_eq(domain, d) {
        return true;
    }
    let mut dotted: Vec<char> = Vec::new();
    dotted.push('.');
    let mut i: usize = 0;
    while i < d.len()
        invariant
            i <= d.len(),
            dotted@ == seq!['.'] + d@.take(i as int),
        decreases d.len() - i,
    {
        dotted.push(d[i]);
        i = i + 1;
        assert(dotted@ =~= seq!['.'] + d@.take(i as int));
    }
    assert(d@.take(d.len() as int) =~= d@);
    ends_with(domain, &dotted)
}

/// ASCII lowercase of one character; other characters are unchanged.
pub open spec fn ascii_lower_char(c: char) -> char {
    if 'A' <= c && c <= 'Z' {
        ((c as u32) + 32) as char
    } else {
        c
    }
}

/// ASCII lowercase of a sequence, character by character.
pub open spec fn ascii_lower(s: Seq<char>) -> Seq<char> {
    Seq::new(s.len(), |i: int| ascii_lower_char(s[i]))
}

/// ASCII lowercase of `s`.
pub fn to_ascii_lower(s: &Vec<char>) -> (r: Vec<char>)
    ensures
        r@ == ascii_lower(s@),
{
    let mut r: Vec<char> = Vec::new();
    let mut i: usize = 0;
    while i < s.len()
        invariant
            i <= s.len(),
            r@ == ascii_lower(s@.take(i as int)),
        decreases s.len() - i,
    {
        let c = s[i];
        let l = if 'A' <= c && c <= 'Z' {
            let cu: u32 = c as u32;
            assert((cu as u8) as u32 == cu) by (bit_vector)
                requires
                    65 <= cu <= 90,
            ;
            let b: u8 = (cu as u8) + 32;
            b as char
        } else {
            c
        };
        r.push(l);
        i = i + 1;
        assert(r@ =~= ascii_lower(s@.take(i as int)));
    }
    assert(s@.take(s.len() as int) =~= s@);
    r
}

/// Appends the characters of `s` to `r`.
pub fn push_all(r: &mut Vec<char>, s: &Vec<char>)
    ensures
        final(r)@ == old(r)@ + s@,
{
    let ghost r0 = r@;
    let mut i: usize = 0;
    while i < s.len()
        invariant
            i <= s.len(),
            r@ == r0 + s@.take(i as int),
        decreases s.len() - i,
    {
        r.push(s[i]);
        i = i + 1;
        assert(r@ =~= r0 + s@.take(i as int));
    }
    assert(s@.take(s.len() as int) =~= s@);
}

/// Appends the characters of `s` to `r`.
pub fn push_str(r: &mut Vec<char>, s: &str)
    ensures
        final(r)@ == old(r)@ + s@,
{
    let c = chars_of(s);
    push_all(r, &c);
}

/// The UTF-8 encoding of `s` is shorter than `u32::MAX` bytes.
pub open spec fn utf8_len_below_u32_max(s: Seq<char>) -> bool {
    vstd::utf8::encode_utf8(s).len() < u32::MAX
}

/// Whether the UTF-8 encoding of `s` is shorter than `u32::MAX` bytes.
pub fn fits_u32_bytes(s: &str) -> (r: bool)
    ensures
        r == utf8_len_below_u32_max(s@),
{
    s.as_bytes().len() < 4294967295usize
}

} // verus!
