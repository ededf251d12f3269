//! The Focuser section of the system hosts file: the lines between the
//! begin and end markers, each blocked domain pointed at the loopback
//! addresses.

use vstd::prelude::*;
use crate::external::string_from_chars;
use crate::text::{
    chars_of, contains_seq, first_pos, lemma_first_pos, lemma_first_pos_unique, occurs_at, push_all,
    push_str, seq_eq,
};

verus! {

/// The line that opens the Focuser section.
pub const HOSTS_BEGIN: &'static str = "# ──── BEGIN FOCUSER BLOCK ────";

/// The line that closes the Focuser section.
pub const HOSTS_END: &'static str = "# ──── END FOCUSER BLOCK ────";

/// The system hosts file: the Windows location, or `/etc/hosts` on macOS
/// and Linux.
pub fn hosts_path(on_windows: bool) -> (r: &'static str)
    ensures
        r@ == if on_windows {
            "C:\\Windows\\System32\\drivers\\etc\\hosts"@
        } else {
            "/etc/hosts"@
        },
{
    if on_windows {
        "C:\\Windows\\System32\\drivers\\etc\\hosts"
    } else {
        "/etc/hosts"
    }
}

/// `char::is_whitespace`: the Unicode `White_Space` property.
pub open spec fn is_white_space(c: char) -> bool {
    ('\t' <= c && c <= '\r') || c == ' ' || c == '\u{85}' || c == '\u{a0}' || c == '\u{1680}'
        || ('\u{2000}' <= c && c <= '\u{200a}') || c == '\u{2028}' || c == '\u{2029}'
        || c == '\u{202f}' || c == '\u{205f}' || c == '\u{3000}'
}

/// Whether `c` is white space in the sense of `char::is_whitespace`.
pub fn is_white_space_char(c: char) -> (r: bool)
    ensures
        r == is_white_space(c),
{
    ('\t' <= c && c <= '\r') || c == ' ' || c == '\u{85}' || c == '\u{a0}' || c == '\u{1680}'
        || ('\u{2000}' <= c && c <= '\u{200a}') || c == '\u{2028}' || c == '\u{2029}'
        || c == '\u{202f}' || c == '\u{205f}' || c == '\u{3000}'
}

/// `s` without its leading white space.
pub open spec fn trim_start(s: Seq<char>) -> Seq<char>
    decreases s.len(),
{
    if s.len() > 0 && is_white_space(s[0]) {
        trim_start(s.drop_first())
    } else {
        s
    }
}

/// `s` without its trailing white space.
pub open spec fn trim_end(s: Seq<char>) -> Seq<char>
    decreases s.len(),
{
    if s.len() > 0 && is_white_space(s.last()) {
        trim_end(s.drop_last())
    } else {
        s
    }
}

/// `s` without leading and trailing white space (`str::trim`).
pub open spec fn trim(s: Seq<char>) -> Seq<char> {
    trim_end(trim_start(s))
}

/// A line with one trailing carriage return removed, if it has one.
pub open spec fn strip_cr(l: Seq<char>) -> Seq<char> {
    if l.len() > 0 && l.last() == '\r' {
        l.drop_last()
    } else {
        l
    }
}

/// The lines of `s` as `str::lines` gives them: split after each `\n`,
/// the `\n` and a `\r` just before it removed; a last piece without `\n`
/// is a line as it stands; an empty `s` has no lines.
pub open spec fn spec_lines(s: Seq<char>) -> Seq<Seq<char>>
    decreases s.len(),
{
    if s.len() == 0 {
        seq![]
    } else {
        let k = first_pos(s, '\n') as int;
        if k >= s.len() {
            seq![s]
        } else {
            seq![strip_cr(s.take(k as int))] + spec_lines(s.skip(k + 1 as int))
        }
    }
}

/// The line opens the Focuser section.
pub open spec fn is_begin(l: Seq<char>) -> bool {
    trim(l) == HOSTS_BEGIN@
}

/// The line closes the Focuser section.
pub open spec fn is_end(l: Seq<char>) -> bool {
    trim(l) == HOSTS_END@
}

/// Whether the lines `ls`, read from a state `st` (inside the section or
/// not), leave the reader inside the section.
pub open spec fn state_after(ls: Seq<Seq<char>>, st: bool) -> bool
    decreases ls.len(),
{
    if ls.len() == 0 {
        st
    } else if is_begin(ls.last()) {
        true
    } else if is_end(ls.last()) {
        false
    } else {
        state_after(ls.drop_last(), st)
    }
}

/// The lines of `ls` that are kept, reading from state `st`: every line
/// that is neither a marker nor inside the section.
pub open spec fn kept(ls: Seq<Seq<char>>, st: bool) -> Seq<Seq<char>>
    decreases ls.len(),
{
    if ls.len() == 0 {
        seq![]
    } else {
        let l = ls.last();
        let prev = ls.drop_last();
        kept(prev, st) + if is_begin(l) || is_end(l) || state_after(prev, st) {
            seq![]
        } else {
            seq![l]
        }
    }
}

/// The lines, each followed by `\n`.
pub open spec fn join_lines(ls: Seq<Seq<char>>) -> Seq<char>
    decreases ls.len(),
{
    if ls.len() == 0 {
        seq![]
    } else {
        join_lines(ls.drop_last()) + ls.last() + seq!['\n']
    }
}

/// The hosts entries for the domains: each domain pointed at `127.0.0.1`
/// and then at `::1`.
pub open spec fn host_entries(ds: Seq<Seq<char>>) -> Seq<Seq<char>>
    decreases ds.len(),
{
    if ds.len() == 0 {
        seq![]
    } else {
        host_entries(ds.drop_last()) + seq!["127.0.0.1 "@ + ds.last(), "::1 "@ + ds.last()]
    }
}

/// The lines of the Focuser section for the domains.
pub open spec fn block_lines(ds: Seq<Seq<char>>) -> Seq<Seq<char>> {
    seq![HOSTS_BEGIN@] + host_entries(ds) + seq![HOSTS_END@]
}

/// The characters of each string.
pub open spec fn string_views(v: Seq<String>) -> Seq<Seq<char>> {
    v.map_values(|s: String| s@)
}

/// The characters of each vector.
pub open spec fn char_vec_views(v: Seq<Vec<char>>) -> Seq<Seq<char>> {
    v.map_values(|l: Vec<char>| l@)
}

/// The hosts file `content` with its Focuser section replaced by one for
/// `domains`: every line outside the old section (and not a marker) kept,
/// each followed by `\n`; then, when there are domains, a line break if the
/// kept text does not end with one, and the new section.
pub open spec fn spec_replace_section(content: Seq<char>, domains: Seq<Seq<char>>) -> Seq<char> {
    let k = join_lines(kept(spec_lines(content), false));
    if domains.len() == 0 {
        k
    } else {
        let pre = if k.len() > 0 && k.last() == '\n' {
            k
        } else {
            k + seq!['\n']
        };
        pre + join_lines(block_lines(domains))
    }
}

/// The characters of `s` from `a` to `b`.
fn sub_chars(s: &Vec<char>, a: usize, b: usize) -> (r: Vec<char>)
    requires
        a <= b <= s.len(),
    ensures
        r@ == s@.subrange(a as int, b as int),
{
    let mut r: Vec<char> = Vec::new();
    let mut i: usize = a;
    while i < b
        invariant
            a <= i <= b <= s.len(),
            r@ == s@.subrange(a as int, i as int),
        decreases b - i,
    {
        r.push(s[i]);
        i = i + 1;
        assert(r@ =~= s@.subrange(a as int, i as int));
    }
    r
}

/// `s` without leading and trailing white space.
pub fn trim_chars(s: &Vec<char>) -> (r: Vec<char>)
    ensures
        r@ == trim(s@),
{
    let mut a: usize = 0;
    assert(s@.skip(0) =~= s@);
    while a < s.len() && is_white_space_char(s[a])
        invariant
            a <= s.len(),
            trim_start(s@) == trim_start(s@.skip(a as int)),
        decreases s.len() - a,
    {
        assert(s@.skip(a as int).drop_first() =~= s@.skip(a + 1));
        a = a + 1;
    }
    assert(trim_start(s@) == s@.skip(a as int));
    assert(s@.skip(a as int) =~= s@.subrange(a as int, s.len() as int));
    let mut b: usize = s.len();
    while b > a && is_white_space_char(s[b - 1])
        invariant
            a <= b <= s.len(),
            trim(s@) == trim_end(s@.subrange(a as int, b as int)),
        decreases b,
    {
        assert(s@.subrange(a as int, b as int).drop_last() =~= s@.subrange(a as int, b - 1));
        b = b - 1;
    }
    sub_chars(s, a, b)
}

/// The lines of `c`, as `spec_lines` describes them.
pub fn split_lines(c: &Vec<char>) -> (r: Vec<Vec<char>>)
    ensures
        char_vec_views(r@) == spec_lines(c@),
{
    let mut r: Vec<Vec<char>> = Vec::new();
    let mut cur: Vec<char> = Vec::new();
    let mut start: usize = 0;
    let mut i: usize = 0;
    assert(c@.skip(0) =~= c@);
    while i < c.len()
        invariant
            start <= i <= c.len(),
            cur@ == c@.subrange(start as int, i as int),
            forall|j: int| start <= j < i ==> c@[j] != '\n',
            char_vec_views(r@) + spec_lines(c@.skip(start as int)) == spec_lines(c@),
        decreases c.len() - i,
    {
        if c[i] == '\n' {
            let ghost s = c@.skip(start as int);
            proof {
                lemma_first_pos_unique(s, '\n', i - start);
                assert(s.take(i - start) =~= cur@);
                assert(s.skip(i - start + 1) =~= c@.skip(i + 1));
                assert(spec_lines(s) == seq![strip_cr(cur@)] + spec_lines(c@.skip(i + 1)));
            }
            if cur.len() > 0 && cur[cur.len() - 1] == '\r' {
                cur.pop();
            }
            let ghost r0 = r@;
            r.push(cur);
            proof {
                assert(char_vec_views(r@) =~= char_vec_views(r0) + seq![strip_cr(c@.subrange(start as int, i as int))]);
            }
            cur = Vec::new();
            start = i + 1;
            assert(cur@ =~= c@.subrange(start as int, (i + 1) as int));
        } else {
            cur.push(c[i]);
            assert(cur@ =~= c@.subrange(start as int, (i + 1) as int));
        }
        i = i + 1;
    }
    let ghost s = c@.skip(start as int);
    if cur.len() > 0 {
        proof {
            lemma_first_pos_unique(s, '\n', s.len() as int);
            assert(s =~= cur@);
        }
        let ghost r0 = r@;
        r.push(cur);
        assert(char_vec_views(r@) =~= char_vec_views(r0) + seq![s]);
    } else {
        assert(s.len() == 0);
        assert(char_vec_views(r@) + spec_lines(s) =~= char_vec_views(r@));
    }
    r
}

/// `join_lines` of a concatenation is the concatenation of `join_lines`.
pub proof fn lemma_join_concat(a: Seq<Seq<char>>, b: Seq<Seq<char>>)
    ensures
        join_lines(a + b) == join_lines(a) + join_lines(b),
    decreases b.len(),
{
    if b.len() == 0 {
        assert(a + b =~= a);
        assert(join_lines(b) =~= Seq::<char>::empty());
        assert(join_lines(a) + join_lines(b) =~= join_lines(a));
    } else {
        lemma_join_concat(a, b.drop_last());
        assert((a + b).drop_last() =~= a + b.drop_last());
        assert((a + b).last() == b.last());
        assert(join_lines(a + b) =~= join_lines(a) + join_lines(b));
    }
}

/// `join_lines` of one line is that line and a line break.
pub proof fn lemma_join_single(l: Seq<char>)
    ensures
        join_lines(seq![l]) == l + seq!['\n'],
{
    assert(seq![l].drop_last() =~= Seq::<Seq<char>>::empty());
    assert(join_lines(Seq::<Seq<char>>::empty()) =~= Seq::<char>::empty());
    assert(join_lines(seq![l]) =~= l + seq!['\n']);
}

/// `join_lines` of two lines.
pub proof fn lemma_join_pair(a: Seq<char>, b: Seq<char>)
    ensures
        join_lines(seq![a, b]) == a + seq!['\n'] + b + seq!['\n'],
{
    assert(seq![a, b].drop_last() =~= seq![a]);
    lemma_join_single(a);
    assert(join_lines(seq![a, b]) =~= a + seq!['\n'] + b + seq!['\n']);
}

/// The hosts file `content` with its Focuser section replaced by one that
/// points each of `domains` at `127.0.0.1` and `::1`; with no domains, the
/// section is removed.
pub fn replace_section(content: &str, domains: &[String]) -> (r: String)
    ensures
        r@ == spec_replace_section(content@, string_views(domains@)),
{
    let c = chars_of(content);
    let lines = split_lines(&c);
    let begin = chars_of(HOSTS_BEGIN);
    let end = chars_of(HOSTS_END);
    let ghost ls = char_vec_views(lines@);
    let mut result: Vec<char> = Vec::new();
    let mut in_section = false;
    let mut i: usize = 0;
    while i < lines.len()
        invariant
            i <= lines@.len(),
            ls == char_vec_views(lines@),
            begin@ == HOSTS_BEGIN@,
            end@ == HOSTS_END@,
            result@ == join_lines(kept(ls.take(i as int), false)),
            in_section == state_after(ls.take(i as int), false),
        decreases lines@.len() - i,
    {
        let t = trim_chars(&lines[i]);
        proof {
            assert(ls.take(i + 1).drop_last() =~= ls.take(i as int));
            assert(ls.take(i + 1).last() == lines@[i as int]@);
        }
        if seq_eq(&t, &begin) {
            in_section = true;
        } else if seq_eq(&t, &end) {
            in_section = false;
        } else if !in_section {
            let ghost r0 = result@;
            push_all(&mut result, &lines[i]);
            result.push('\n');
            proof {
                let l = lines@[i as int]@;
                let k0 = kept(ls.take(i as int), false);
                lemma_join_concat(k0, seq![l]);
                lemma_join_single(l);
                assert(result@ =~= r0 + l + seq!['\n']);
            }
        } else {
            assert(kept(ls.take(i + 1), false) =~= kept(ls.take(i as int), false));
        }
        i = i + 1;
    }
    assert(ls.take(lines@.len() as int) =~= ls);
    let ghost ds = string_views(domains@);
    if domains.len() > 0 {
        if !(result.len() > 0 && result[result.len() - 1] == '\n') {
            result.push('\n');
        }
        let ghost pre = result@;
        push_str(&mut result, HOSTS_BEGIN);
        result.push('\n');
        proof {
            assert(ds.take(0) =~= Seq::<Seq<char>>::empty());
            assert(seq![HOSTS_BEGIN@] + host_entries(ds.take(0)) =~= seq![HOSTS_BEGIN@]);
            lemma_join_single(HOSTS_BEGIN@);
        }
        assert(result@ =~= pre + join_lines(seq![HOSTS_BEGIN@] + host_entries(ds.take(0))));
        let mut j: usize = 0;
        while j < domains.len()
            invariant
                j <= domains@.len(),
                ds == string_views(domains@),
                result@ == pre + join_lines(seq![HOSTS_BEGIN@] + host_entries(ds.take(j as int))),
            decreases domains@.len() - j,
        {
            let ghost r0 = result@;
            let d = domains[j].as_str();
            push_str(&mut result, "127.0.0.1 ");
            push_str(&mut result, d);
            result.push('\n');
            push_str(&mut result, "::1 ");
            push_str(&mut result, d);
            result.push('\n');
            proof {
                let e1 = "127.0.0.1 "@ + ds[j as int];
                let e2 = "::1 "@ + ds[j as int];
                assert(ds.take(j + 1).drop_last() =~= ds.take(j as int));
                assert(host_entries(ds.take(j + 1)) == host_entries(ds.take(j as int)) + seq![e1, e2]);
                let front = seq![HOSTS_BEGIN@] + host_entries(ds.take(j as int));
                assert(seq![HOSTS_BEGIN@] + host_entries(ds.take(j + 1)) =~= front + seq![e1, e2]);
                lemma_join_concat(front, seq![e1, e2]);
                lemma_join_pair(e1, e2);
                assert(result@ =~= r0 + e1 + seq!['\n'] + e2 + seq!['\n']);
            }
            j = j + 1;
        }
        let ghost r1 = result@;
        push_str(&mut result, HOSTS_END);
        result.push('\n');
        proof {
            assert(ds.take(domains@.len() as int) =~= ds);
            let front = seq![HOSTS_BEGIN@] + host_entries(ds);
            lemma_join_concat(front, seq![HOSTS_END@]);
            lemma_join_single(HOSTS_END@);
            assert(front + seq![HOSTS_END@] =~= block_lines(ds));
            assert(result@ =~= r1 + HOSTS_END@ + seq!['\n']);
        }
    }
    string_from_chars(&result)
}

/// Each line with one trailing carriage return removed.
pub open spec fn strip_all(ls: Seq<Seq<char>>) -> Seq<Seq<char>> {
    ls.map_values(|l: Seq<char>| strip_cr(l))
}

/// The sequence holds no line break.
pub open spec fn no_newline(l: Seq<char>) -> bool {
    forall|j: int| 0 <= j < l.len() ==> l[j] != '\n'
}

/// The line ends with a carriage return.
pub open spec fn ends_with_cr(l: Seq<char>) -> bool {
    l.len() > 0 && l.last() == '\r'
}

/// The text is empty or ends with a line break.
pub open spec fn ends_line(s: Seq<char>) -> bool {
    s.len() == 0 || s.last() == '\n'
}

/// Splitting a text that ends a line, followed by more text, splits each part.
pub proof fn lemma_lines_concat(a: Seq<char>, b: Seq<char>)
    requires
        ends_line(a),
    ensures
        spec_lines(a + b) == spec_lines(a) + spec_lines(b),
    decreases a.len(),
{
    if a.len() == 0 {
        assert(a + b =~= b);
        assert(spec_lines(a) + spec_lines(b) =~= spec_lines(b));
    } else {
        lemma_first_pos(a, '\n');
        let k = first_pos(a, '\n') as int;
        assert(k < a.len()) by {
            if k >= a.len() {
                assert(a[a.len() - 1] != '\n');
            }
        }
        lemma_first_pos_unique(a + b, '\n', k as int);
        assert((a + b).take(k as int) =~= a.take(k as int));
        assert((a + b).skip(k + 1) =~= a.skip(k + 1) + b);
        let rest = a.skip(k + 1);
        assert(ends_line(rest)) by {
            if rest.len() > 0 {
                assert(rest.last() == a.last());
            }
        }
        lemma_lines_concat(rest, b);
        assert(spec_lines(a + b) == seq![strip_cr(a.take(k as int))] + spec_lines(rest + b));
        assert(spec_lines(a) == seq![strip_cr(a.take(k as int))] + spec_lines(rest));
        assert(spec_lines(a + b) =~= spec_lines(a) + spec_lines(b));
    }
}

/// A line without line breaks, followed by a line break, splits into that
/// line with a trailing carriage return removed.
pub proof fn lemma_lines_single(l: Seq<char>)
    requires
        no_newline(l),
    ensures
        spec_lines(l + seq!['\n']) == seq![strip_cr(l)],
{
    let s = l + seq!['\n'];
    lemma_first_pos_unique(s, '\n', l.len() as int);
    assert(s.take(l.len() as int) =~= l);
    assert(s.skip(l.len() as int + 1) =~= Seq::<char>::empty());
    assert(spec_lines(Seq::<char>::empty()) =~= Seq::<Seq<char>>::empty());
    assert(spec_lines(s) =~= seq![strip_cr(l)]);
}

/// Joined lines form a text that ends a line.
pub proof fn lemma_join_ends_line(ls: Seq<Seq<char>>)
    ensures
        ends_line(join_lines(ls)),
{
}

/// Splitting joined lines that hold no line breaks gives the lines back,
/// each with a trailing carriage return removed.
pub proof fn lemma_lines_join(ls: Seq<Seq<char>>)
    requires
        forall|i: int| 0 <= i < ls.len() ==> no_newline(#[trigger] ls[i]),
    ensures
        spec_lines(join_lines(ls)) == strip_all(ls),
    decreases ls.len(),
{
    if ls.len() == 0 {
        assert(spec_lines(join_lines(ls)) =~= strip_all(ls));
    } else {
        let prev = ls.drop_last();
        let l = ls.last();
        assert(no_newline(ls[ls.len() - 1]));
        lemma_lines_join(prev);
        lemma_join_ends_line(prev);
        assert(join_lines(ls) =~= join_lines(prev) + (l + seq!['\n']));
        lemma_lines_concat(join_lines(prev), l + seq!['\n']);
        lemma_lines_single(l);
        assert(strip_all(ls) =~= strip_all(prev) + seq![strip_cr(l)]);
    }
}

/// Reading two runs of lines one after the other.
pub proof fn lemma_kept_concat(a: Seq<Seq<char>>, b: Seq<Seq<char>>, st: bool)
    ensures
        kept(a + b, st) == kept(a, st) + kept(b, state_after(a, st)),
        state_after(a + b, st) == state_after(b, state_after(a, st)),
    decreases b.len(),
{
    if b.len() == 0 {
        assert(a + b =~= a);
        assert(kept(a, st) + kept(b, state_after(a, st)) =~= kept(a, st));
    } else {
        lemma_kept_concat(a, b.drop_last(), st);
        assert((a + b).drop_last() =~= a + b.drop_last());
        assert((a + b).last() == b.last());
        assert(kept(a + b, st) =~= kept(a, st) + kept(b, state_after(a, st)));
    }
}

/// Lines none of which is a marker are all kept, read from outside the section.
pub proof fn lemma_kept_plain(ls: Seq<Seq<char>>)
    requires
        forall|i: int| 0 <= i < ls.len() ==> !is_begin(#[trigger] ls[i]) && !is_end(ls[i]),
    ensures
        kept(ls, false) == ls,
        !state_after(ls, false),
    decreases ls.len(),
{
    if ls.len() > 0 {
        assert(!is_begin(ls[ls.len() - 1]) && !is_end(ls[ls.len() - 1]));
        lemma_kept_plain(ls.drop_last());
        assert(kept(ls, false) =~= ls);
    }
}

/// Lines none of which is a marker are all dropped, read from inside the section.
pub proof fn lemma_kept_inside(ls: Seq<Seq<char>>)
    requires
        forall|i: int| 0 <= i < ls.len() ==> !is_begin(#[trigger] ls[i]) && !is_end(ls[i]),
    ensures
        kept(ls, true) == Seq::<Seq<char>>::empty(),
        state_after(ls, true),
    decreases ls.len(),
{
    if ls.len() > 0 {
        assert(!is_begin(ls[ls.len() - 1]) && !is_end(ls[ls.len() - 1]));
        lemma_kept_inside(ls.drop_last());
        assert(kept(ls, true) =~= Seq::<Seq<char>>::empty());
    }
}

/// Every kept line is one of the lines read, and none is a marker.
pub proof fn lemma_kept_from(ls: Seq<Seq<char>>, st: bool)
    ensures
        forall|i: int|
            0 <= i < kept(ls, st).len() ==> !is_begin(#[trigger] kept(ls, st)[i]) && !is_end(
                kept(ls, st)[i],
            ) && exists|j: int| 0 <= j < ls.len() && kept(ls, st)[i] == ls[j],
    decreases ls.len(),
{
    if ls.len() > 0 {
        let prev = ls.drop_last();
        lemma_kept_from(prev, st);
        let k = kept(ls, st);
        assert forall|i: int| 0 <= i < k.len() implies !is_begin(#[trigger] k[i]) && !is_end(k[i])
            && exists|j: int| 0 <= j < ls.len() && k[i] == ls[j] by {
            if i < kept(prev, st).len() {
                assert(k[i] == kept(prev, st)[i]);
                let j = choose|j: int| 0 <= j < prev.len() && kept(prev, st)[i] == prev[j];
                assert(ls[j] == prev[j]);
            } else {
                assert(k[i] == ls[ls.len() - 1]);
            }
        }
    }
}

/// No line of a split text holds a line break.
pub proof fn lemma_lines_no_newline(s: Seq<char>)
    ensures
        forall|i: int| 0 <= i < spec_lines(s).len() ==> no_newline(#[trigger] spec_lines(s)[i]),
    decreases s.len(),
{
    if s.len() > 0 {
        lemma_first_pos(s, '\n');
        let k = first_pos(s, '\n') as int;
        if k < s.len() {
            lemma_lines_no_newline(s.skip(k + 1));
            let t = s.take(k as int);
            assert(no_newline(strip_cr(t))) by {
                assert forall|j: int| 0 <= j < strip_cr(t).len() implies strip_cr(t)[j] != '\n' by {
                    assert(strip_cr(t)[j] == s[j]);
                }
            }
            let ls = spec_lines(s);
            assert forall|i: int| 0 <= i < ls.len() implies no_newline(#[trigger] ls[i]) by {
                if i > 0 {
                    assert(ls[i] == spec_lines(s.skip(k + 1))[i - 1]);
                }
            }
        }
    }
}

/// Trimming a line whose first character is not white space keeps that
/// first character.
pub proof fn lemma_trim_keeps_first(l: Seq<char>)
    requires
        l.len() > 0,
        !is_white_space(l[0]),
    ensures
        trim(l).len() > 0,
        trim(l)[0] == l[0],
    decreases l.len(),
{
    assert(trim_start(l) == l);
    lemma_trim_end_keeps_first(l);
}

/// Trimming the end of a line whose first character is not white space
/// keeps that first character.
pub proof fn lemma_trim_end_keeps_first(l: Seq<char>)
    requires
        l.len() > 0,
        !is_white_space(l[0]),
    ensures
        trim_end(l).len() > 0,
        trim_end(l)[0] == l[0],
    decreases l.len(),
{
    if is_white_space(l.last()) {
        assert(l.len() > 1);
        assert(l.drop_last()[0] == l[0]);
        lemma_trim_end_keeps_first(l.drop_last());
    }
}

/// Facts about the two marker lines.
pub proof fn lemma_markers()
    ensures
        is_begin(HOSTS_BEGIN@),
        !is_end(HOSTS_BEGIN@),
        is_end(HOSTS_END@),
        !is_begin(HOSTS_END@),
        HOSTS_BEGIN@.len() > 0 && HOSTS_BEGIN@[0] == '#',
        HOSTS_END@.len() > 0 && HOSTS_END@[0] == '#',
        no_newline(HOSTS_BEGIN@),
        no_newline(HOSTS_END@),
        strip_cr(HOSTS_BEGIN@) == HOSTS_BEGIN@,
        strip_cr(HOSTS_END@) == HOSTS_END@,
{
    reveal_strlit("# ──── BEGIN FOCUSER BLOCK ────");
    reveal_strlit("# ──── END FOCUSER BLOCK ────");
    let b = HOSTS_BEGIN@;
    let e = HOSTS_END@;
    assert(trim_start(b) == b);
    assert(trim_end(b) == b);
    assert(trim_start(e) == e);
    assert(trim_end(e) == e);
    assert(b.len() != e.len());
}

/// Each hosts entry, with a trailing carriage return removed, holds no line
/// break if its domain holds none, and is not a marker.
pub proof fn lemma_entry(prefix: Seq<char>, d: Seq<char>)
    requires
        prefix == "127.0.0.1 "@ || prefix == "::1 "@,
        no_newline(d),
    ensures
        no_newline(prefix + d),
        !is_begin(strip_cr(prefix + d)),
        !is_end(strip_cr(prefix + d)),
{
    reveal_strlit("127.0.0.1 ");
    reveal_strlit("::1 ");
    lemma_markers();
    let e = prefix + d;
    assert(no_newline(e)) by {
        assert forall|j: int| 0 <= j < e.len() implies e[j] != '\n' by {
            if j >= prefix.len() {
                assert(e[j] == d[j - prefix.len()]);
            }
        }
    }
    let l = strip_cr(e);
    assert(l.len() > 0 && l[0] == prefix[0]);
    lemma_trim_keeps_first(l);
}

/// The lines `str::lines` reads back from the lines `ls` written each with
/// a line break after it: the lines of each written line, in order.
pub open spec fn line_pieces(ls: Seq<Seq<char>>) -> Seq<Seq<char>>
    decreases ls.len(),
{
    if ls.len() == 0 {
        seq![]
    } else {
        line_pieces(ls.drop_last()) + spec_lines(ls.last() + seq!['\n'])
    }
}

/// Written as a hosts entry, the domain stays inside the section: no line
/// of it (followed by a line break) other than its first, which follows the
/// entry's address, is the end marker.
pub open spec fn entry_stays_in_section(d: Seq<char>) -> bool {
    forall|j: int|
        1 <= j < spec_lines(d + seq!['\n']).len() ==> !is_end(
            #[trigger] spec_lines(d + seq!['\n'])[j],
        )
}

/// A domain without line breaks stays inside the section.
pub proof fn lemma_no_newline_stays(d: Seq<char>)
    requires
        no_newline(d),
    ensures
        entry_stays_in_section(d),
{
    lemma_lines_single(d);
}

/// Splitting joined lines gives the lines of each written line.
pub proof fn lemma_lines_join_pieces(ls: Seq<Seq<char>>)
    ensures
        spec_lines(join_lines(ls)) == line_pieces(ls),
    decreases ls.len(),
{
    if ls.len() == 0 {
        assert(spec_lines(join_lines(ls)) =~= line_pieces(ls));
    } else {
        let prev = ls.drop_last();
        let l = ls.last();
        lemma_lines_join_pieces(prev);
        lemma_join_ends_line(prev);
        assert(join_lines(ls) =~= join_lines(prev) + (l + seq!['\n']));
        lemma_lines_concat(join_lines(prev), l + seq!['\n']);
    }
}

/// The pieces of lines without line breaks are the lines, each with a
/// trailing carriage return removed.
pub proof fn lemma_pieces_plain(ls: Seq<Seq<char>>)
    requires
        forall|i: int| 0 <= i < ls.len() ==> no_newline(#[trigger] ls[i]),
    ensures
        line_pieces(ls) == strip_all(ls),
    decreases ls.len(),
{
    if ls.len() == 0 {
        assert(line_pieces(ls) =~= strip_all(ls));
    } else {
        let prev = ls.drop_last();
        assert(no_newline(ls[ls.len() - 1]));
        lemma_pieces_plain(prev);
        lemma_lines_single(ls.last());
        assert(strip_all(ls) =~= strip_all(prev) + seq![strip_cr(ls.last())]);
    }
}

/// The pieces of two runs of lines, one after the other.
pub proof fn lemma_pieces_concat(a: Seq<Seq<char>>, b: Seq<Seq<char>>)
    ensures
        line_pieces(a + b) == line_pieces(a) + line_pieces(b),
    decreases b.len(),
{
    if b.len() == 0 {
        assert(a + b =~= a);
        assert(line_pieces(a) + line_pieces(b) =~= line_pieces(a));
    } else {
        lemma_pieces_concat(a, b.drop_last());
        assert((a + b).drop_last() =~= a + b.drop_last());
        assert((a + b).last() == b.last());
        assert(line_pieces(a + b) =~= line_pieces(a) + line_pieces(b));
    }
}

/// No line read back from a hosts entry of a domain that stays inside the
/// section is the end marker.
pub proof fn lemma_entry_pieces(prefix: Seq<char>, d: Seq<char>)
    requires
        prefix == "127.0.0.1 "@ || prefix == "::1 "@,
        entry_stays_in_section(d),
    ensures
        forall|j: int|
            0 <= j < spec_lines(prefix + d + seq!['\n']).len() ==> !is_end(
                #[trigger] spec_lines(prefix + d + seq!['\n'])[j],
            ),
{
    reveal_strlit("127.0.0.1 ");
    reveal_strlit("::1 ");
    let dn = d + seq!['\n'];
    let en = prefix + d + seq!['\n'];
    assert(en =~= prefix + dn);
    lemma_first_pos(dn, '\n');
    let k = first_pos(dn, '\n') as int;
    assert(k < dn.len()) by {
        if k >= dn.len() {
            assert(dn[dn.len() - 1] == '\n');
        }
    }
    assert(no_newline(prefix)) by {
        assert forall|j: int| 0 <= j < prefix.len() implies prefix[j] != '\n' by {}
    }
    assert(en[prefix.len() + k] == '\n');
    assert forall|j: int| 0 <= j < prefix.len() + k implies en[j] != '\n' by {
        if j >= prefix.len() {
            assert(en[j] == dn[j - prefix.len()]);
        }
    }
    lemma_first_pos_unique(en, '\n', prefix.len() + k);
    let head = dn.take(k);
    assert(no_newline(head));
    assert(en.take(prefix.len() + k) =~= prefix + head);
    assert(en.skip(prefix.len() + k + 1) =~= dn.skip(k + 1));
    lemma_entry(prefix, head);
    let le = spec_lines(en);
    let ld = spec_lines(dn);
    assert(le == seq![strip_cr(prefix + head)] + spec_lines(dn.skip(k + 1)));
    assert(ld == seq![strip_cr(head)] + spec_lines(dn.skip(k + 1)));
    assert forall|j: int| 0 <= j < le.len() implies !is_end(#[trigger] le[j]) by {
        if j > 0 {
            assert(le[j] == ld[j]);
        }
    }
}

/// No line read back from the hosts entries of domains that stay inside
/// the section is the end marker.
pub proof fn lemma_entries_pieces(ds: Seq<Seq<char>>)
    requires
        forall|i: int| 0 <= i < ds.len() ==> entry_stays_in_section(#[trigger] ds[i]),
    ensures
        forall|j: int|
            0 <= j < line_pieces(host_entries(ds)).len() ==> !is_end(
                #[trigger] line_pieces(host_entries(ds))[j],
            ),
    decreases ds.len(),
{
    if ds.len() > 0 {
        let prev = ds.drop_last();
        assert forall|i: int| 0 <= i < prev.len() implies entry_stays_in_section(
            #[trigger] prev[i],
        ) by {
            assert(prev[i] == ds[i]);
        }
        lemma_entries_pieces(prev);
        let d = ds.last();
        assert(entry_stays_in_section(ds[ds.len() - 1]));
        let e1 = "127.0.0.1 "@ + d;
        let e2 = "::1 "@ + d;
        lemma_entry_pieces("127.0.0.1 "@, d);
        lemma_entry_pieces("::1 "@, d);
        let ep = host_entries(prev);
        assert(host_entries(ds) == ep + seq![e1, e2]);
        lemma_pieces_concat(ep, seq![e1, e2]);
        assert(seq![e1, e2].drop_last() =~= seq![e1]);
        assert(seq![e1].drop_last() =~= Seq::<Seq<char>>::empty());
        let p2 = line_pieces(seq![e1, e2]);
        assert(line_pieces(Seq::<Seq<char>>::empty()) =~= Seq::<Seq<char>>::empty());
        assert(line_pieces(seq![e1]) =~= spec_lines(e1 + seq!['\n']));
        assert(p2 =~= spec_lines(e1 + seq!['\n']) + spec_lines(e2 + seq!['\n']));
        let all = line_pieces(host_entries(ds));
        assert(all =~= line_pieces(ep) + p2);
        assert forall|j: int| 0 <= j < all.len() implies !is_end(#[trigger] all[j]) by {
            if j < line_pieces(ep).len() {
                assert(all[j] == line_pieces(ep)[j]);
            } else if j < line_pieces(ep).len() + spec_lines(e1 + seq!['\n']).len() {
                assert(all[j] == spec_lines(e1 + seq!['\n'])[j - line_pieces(ep).len()]);
            } else {
                assert(all[j] == spec_lines(e2 + seq!['\n'])[j - line_pieces(ep).len()
                    - spec_lines(e1 + seq!['\n']).len()]);
            }
        }
    }
}

/// Read from inside the section, lines none of which is the end marker are
/// all dropped, and the reader stays inside.
pub proof fn lemma_kept_inside_open(ls: Seq<Seq<char>>)
    requires
        forall|i: int| 0 <= i < ls.len() ==> !is_end(#[trigger] ls[i]),
    ensures
        kept(ls, true) == Seq::<Seq<char>>::empty(),
        state_after(ls, true),
    decreases ls.len(),
{
    if ls.len() > 0 {
        assert(!is_end(ls[ls.len() - 1]));
        lemma_kept_inside_open(ls.drop_last());
        assert(kept(ls, true) =~= Seq::<Seq<char>>::empty());
    }
}

/// The section written for domains that stay inside it, read back, keeps
/// no line and leaves the reader outside.
pub proof fn lemma_block_pieces(ds: Seq<Seq<char>>)
    requires
        forall|i: int| 0 <= i < ds.len() ==> entry_stays_in_section(#[trigger] ds[i]),
    ensures
        kept(line_pieces(block_lines(ds)), false) == Seq::<Seq<char>>::empty(),
        !state_after(line_pieces(block_lines(ds)), false),
{
    lemma_markers();
    lemma_entries_pieces(ds);
    let es = host_entries(ds);
    let b = seq![HOSTS_BEGIN@];
    let e = seq![HOSTS_END@];
    assert(block_lines(ds) == b + es + e);
    lemma_pieces_concat(b + es, e);
    lemma_pieces_concat(b, es);
    lemma_pieces_plain(b);
    lemma_pieces_plain(e);
    assert(strip_all(b) =~= b);
    assert(strip_all(e) =~= e);
    let se = line_pieces(es);
    assert(line_pieces(block_lines(ds)) =~= b + se + e);
    lemma_kept_inside_open(se);
    lemma_kept_concat(b, se, false);
    lemma_kept_concat(b + se, e, false);
    assert(b.drop_last() =~= Seq::<Seq<char>>::empty());
    assert(e.drop_last() =~= Seq::<Seq<char>>::empty());
    assert(kept(Seq::<Seq<char>>::empty(), false) =~= Seq::<Seq<char>>::empty());
    assert(kept(Seq::<Seq<char>>::empty(), true) =~= Seq::<Seq<char>>::empty());
    assert(kept(b, false) =~= Seq::<Seq<char>>::empty());
    assert(kept(e, true) =~= Seq::<Seq<char>>::empty());
}

/// The kept lines of `content`.
pub open spec fn kept_lines(content: Seq<char>) -> Seq<Seq<char>> {
    kept(spec_lines(content), false)
}

/// Replacing the section twice with the same domains gives what replacing
/// it once gives, provided every domain, written as an entry, stays inside
/// the section (as every domain without a line break does) and no kept line
/// of `content` ends with a carriage return.
pub proof fn lemma_replace_idempotent(content: Seq<char>, domains: Seq<Seq<char>>)
    requires
        forall|i: int| 0 <= i < domains.len() ==> entry_stays_in_section(#[trigger] domains[i]),
        forall|i: int|
            0 <= i < kept_lines(content).len() ==> !ends_with_cr(#[trigger] kept_lines(content)[i]),
    ensures
        spec_replace_section(spec_replace_section(content, domains), domains)
            == spec_replace_section(content, domains),
{
    lemma_replace_reread(content, domains);
}

/// What re-reading a replaced text keeps: the kept lines of the input text
/// (preceded by one empty line when there were none and a section was
/// written).
pub open spec fn reread_kept(content: Seq<char>, domains: Seq<Seq<char>>) -> Seq<Seq<char>> {
    if domains.len() > 0 && kept_lines(content).len() == 0 {
        seq![Seq::<char>::empty()]
    } else {
        kept_lines(content)
    }
}

/// Re-reading a replaced text keeps `reread_kept`, which joins back to the
/// kept part of the replaced text.
pub proof fn lemma_replace_reread(content: Seq<char>, domains: Seq<Seq<char>>)
    requires
        forall|i: int| 0 <= i < domains.len() ==> entry_stays_in_section(#[trigger] domains[i]),
        forall|i: int|
            0 <= i < kept_lines(content).len() ==> !ends_with_cr(#[trigger] kept_lines(content)[i]),
    ensures
        kept_lines(spec_replace_section(content, domains)) == reread_kept(content, domains),
        domains.len() == 0 ==> spec_replace_section(content, domains) == join_lines(
            reread_kept(content, domains),
        ),
        domains.len() > 0 ==> spec_replace_section(content, domains) == join_lines(
            reread_kept(content, domains),
        ) + join_lines(block_lines(domains)),
        domains.len() > 0 ==> join_lines(reread_kept(content, domains)).len() > 0,
{
    let ls = spec_lines(content);
    let k = kept(ls, false);
    lemma_lines_no_newline(content);
    lemma_kept_from(ls, false);
    assert forall|i: int| 0 <= i < k.len() implies no_newline(#[trigger] k[i]) && !is_begin(k[i])
        && !is_end(k[i]) && strip_cr(k[i]) == k[i] by {
        let j = choose|j: int| 0 <= j < ls.len() && k[i] == ls[j];
        assert(no_newline(ls[j]));
        assert(!ends_with_cr(kept_lines(content)[i]));
    }
    let p = reread_kept(content, domains);
    assert forall|i: int| 0 <= i < p.len() implies no_newline(#[trigger] p[i]) && !is_begin(p[i])
        && !is_end(p[i]) && strip_cr(p[i]) == p[i] by {
        if domains.len() > 0 && k.len() == 0 {
            assert(p[i] == Seq::<char>::empty());
            reveal_strlit("# ──── BEGIN FOCUSER BLOCK ────");
            reveal_strlit("# ──── END FOCUSER BLOCK ────");
            assert(trim(p[i]) =~= Seq::<char>::empty());
        } else {
            assert(p[i] == k[i]);
        }
    }
    lemma_lines_join(p);
    assert(strip_all(p) =~= p);
    lemma_kept_plain(p);
    let kj = join_lines(k);
    if domains.len() == 0 {
        assert(p == k);
        assert(spec_replace_section(content, domains) == join_lines(p));
    } else {
        lemma_block_pieces(domains);
        let bl = block_lines(domains);
        if k.len() == 0 {
            assert(kj =~= Seq::<char>::empty());
            lemma_join_single(Seq::<char>::empty());
            assert(join_lines(p) =~= seq!['\n']);
        } else {
            assert(kj.len() > 0 && kj.last() == '\n');
        }
        assert(spec_replace_section(content, domains) == join_lines(p) + join_lines(bl));
        lemma_join_concat(p, bl);
        lemma_lines_join_pieces(p + bl);
        lemma_pieces_concat(p, bl);
        lemma_pieces_plain(p);
        assert(line_pieces(p) =~= p);
        lemma_kept_concat(p, line_pieces(bl), false);
        assert(kept(p, false) + kept(line_pieces(bl), false) =~= p);
    }
}

/// Removing the section from a replaced text gives what removing it from
/// the input text gives, provided that text keeps at least one line (or no
/// section was written), every domain, written as an entry, stays inside the
/// section (as every domain without a line break does), and no kept line
/// ends with a carriage return.
pub proof fn lemma_replace_then_remove(content: Seq<char>, domains: Seq<Seq<char>>)
    requires
        forall|i: int| 0 <= i < domains.len() ==> entry_stays_in_section(#[trigger] domains[i]),
        forall|i: int|
            0 <= i < kept_lines(content).len() ==> !ends_with_cr(#[trigger] kept_lines(content)[i]),
        domains.len() == 0 || kept_lines(content).len() > 0,
    ensures
        spec_replace_section(spec_replace_section(content, domains), Seq::<Seq<char>>::empty())
            == spec_replace_section(content, Seq::<Seq<char>>::empty()),
{
    lemma_replace_reread(content, domains);
}

/// Removing the section from a text that has none, holds no `\r\n`, and is
/// empty or ends with a line break leaves the text unchanged.
pub proof fn lemma_remove_preserves(content: Seq<char>)
    requires
        forall|i: int|
            0 <= i < spec_lines(content).len() ==> !is_begin(#[trigger] spec_lines(content)[i])
                && !is_end(spec_lines(content)[i]),
        !contains_seq(content, seq!['\r', '\n']),
        ends_line(content),
    ensures
        spec_replace_section(content, Seq::<Seq<char>>::empty()) == content,
{
    lemma_kept_plain(spec_lines(content));
    lemma_join_lines_of(content);
}

/// Joining the lines of a text that ends a line and holds no `\r\n` gives
/// the text back.
pub proof fn lemma_join_lines_of(s: Seq<char>)
    requires
        !contains_seq(s, seq!['\r', '\n']),
        ends_line(s),
    ensures
        join_lines(spec_lines(s)) == s,
    decreases s.len(),
{
    if s.len() == 0 {
        assert(join_lines(spec_lines(s)) =~= s);
    } else {
        lemma_first_pos(s, '\n');
        let k = first_pos(s, '\n') as int;
        assert(k < s.len()) by {
            if k >= s.len() {
                assert(s[s.len() - 1] != '\n');
            }
        }
        let t = s.take(k as int);
        let rest = s.skip(k + 1);
        assert(strip_cr(t) == t) by {
            if t.len() > 0 && t.last() == '\r' {
                assert(occurs_at(s, seq!['\r', '\n'], k - 1)) by {
                    assert(s.subrange(k - 1, k + 1) =~= seq!['\r', '\n']);
                }
            }
        }
        assert(!contains_seq(rest, seq!['\r', '\n'])) by {
            if contains_seq(rest, seq!['\r', '\n']) {
                let i = choose|i: int| occurs_at(rest, seq!['\r', '\n'], i);
                assert(s.subrange(i + k + 1, i + k + 3) =~= rest.subrange(i, i + 2));
                assert(occurs_at(s, seq!['\r', '\n'], i + k + 1));
            }
        }
        assert(ends_line(rest)) by {
            if rest.len() > 0 {
                assert(rest.last() == s.last());
            }
        }
        lemma_join_lines_of(rest);
        assert(spec_lines(s) == seq![t] + spec_lines(rest));
        lemma_join_concat(seq![t], spec_lines(rest));
        lemma_join_single(t);
        assert(s =~= t + seq!['\n'] + rest);
    }
}

} // verus!
