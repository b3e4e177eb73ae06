//! Character-level text operations with exact specifications.
//!
//! Every function works on the sequence of characters of a string (its view), so
//! that contracts elsewhere can speak of text without speaking of UTF-8.

use vstd::prelude::*;
use vstd::utf8::{decode_utf8, encode_utf8, valid_utf8};

verus! {

/// `String::push`: appends one character.
pub assume_specification[ String::push ](s: &mut String, c: char)
    ensures
        final(s)@ == old(s)@.push(c),
;

/// The Unicode `White_Space` property.
pub open spec fn is_white(c: char) -> bool {
    ||| '\u{9}' <= c <= '\u{d}'
    ||| c == ' '
    ||| c == '\u{85}'
    ||| c == '\u{a0}'
    ||| c == '\u{1680}'
    ||| '\u{2000}' <= c <= '\u{200a}'
    ||| c == '\u{2028}'
    ||| c == '\u{2029}'
    ||| c == '\u{202f}'
    ||| c == '\u{205f}'
    ||| c == '\u{3000}'
}

/// `s` without the white space at its start.
pub open spec fn trimmed_start(s: Seq<char>) -> Seq<char>
    decreases s.len(),
{
    if s.len() > 0 && is_white(s[0]) {
        trimmed_start(s.drop_first())
    } else {
        s
    }
}

/// `s` without the white space at its end.
pub open spec fn trimmed_end(s: Seq<char>) -> Seq<char>
    decreases s.len(),
{
    if s.len() > 0 && is_white(s.last()) {
        trimmed_end(s.drop_last())
    } else {
        s
    }
}

/// `s` without the white space at either end.
pub open spec fn trimmed(s: Seq<char>) -> Seq<char> {
    trimmed_end(trimmed_start(s))
}

/// Whether `s` holds nothing but white space.
pub open spec fn is_blank(s: Seq<char>) -> bool {
    trimmed(s).len() == 0
}

/// The ASCII lower-case form of a character; other characters stay.
pub open spec fn lower_char(c: char) -> char {
    if 'A' <= c <= 'Z' {
        ((c as u32) + 32) as char
    } else {
        c
    }
}

/// The ASCII lower-case form of a text.
pub open spec fn lowered(s: Seq<char>) -> Seq<char> {
    s.map_values(|c: char| lower_char(c))
}

pub fn is_whitespace(c: char) -> (b: bool)
    ensures
        b == is_white(c),
{
    ('\u{9}' <= c && c <= '\u{d}') || c == ' ' || c == '\u{85}' || c == '\u{a0}' || c == '\u{1680}'
        || ('\u{2000}' <= c && c <= '\u{200a}') || c == '\u{2028}' || c == '\u{2029}' || c
        == '\u{202f}' || c == '\u{205f}' || c == '\u{3000}'
}

/// The characters of a text.
pub fn chars_of(s: &str) -> (v: Vec<char>)
    ensures
        v@ == s@,
{
    let mut v: Vec<char> = Vec::new();
    for c in iter: s.chars()
        invariant
            iter.seq() == s@,
            v@ == s@.take(iter.index() as int),
    {
        v.push(c);
        assert(v@ =~= s@.take(iter.index() + 1));
    }
    assert(s@.take(s@.len() as int) =~= s@);
    v
}

/// The text made of `v[from..to]`.
pub fn string_of(v: &Vec<char>, from: usize, to: usize) -> (s: String)
    requires
        from <= to <= v.len(),
    ensures
        s@ == v@.subrange(from as int, to as int),
{
    let mut s = String::new();
    let mut i: usize = from;
    while i < to
        invariant
            from <= i <= to <= v.len(),
            s@ == v@.subrange(from as int, i as int),
        decreases to - i,
    {
        s.push(v[i]);
        i += 1;
        assert(s@ =~= v@.subrange(from as int, i as int));
    }
    s
}

pub fn same(a: &str, b: &str) -> (r: bool)
    ensures
        r == (a@ == b@),
{
    a.to_owned() == b.to_owned()
}

/// Whether `p` stands at the start of `s`.
pub open spec fn has_prefix(s: Seq<char>, p: Seq<char>) -> bool {
    p.len() <= s.len() && s.take(p.len() as int) == p
}

/// Whether `p` stands at the end of `s`.
pub open spec fn has_suffix(s: Seq<char>, p: Seq<char>) -> bool {
    p.len() <= s.len() && s.skip(s.len() - p.len()) == p
}

/// Whether `p` stands in `s` at position `i`.
pub open spec fn occurs_at(s: Seq<char>, p: Seq<char>, i: int) -> bool {
    0 <= i <= s.len() - p.len() && s.subrange(i, i + p.len()) == p
}

/// Whether `p` stands anywhere in `s`.
pub open spec fn has_infix(s: Seq<char>, p: Seq<char>) -> bool {
    exists|i: int| occurs_at(s, p, i)
}

/// The text before and after the first `c` of `s`.
pub open spec fn split_first(s: Seq<char>, c: char) -> Option<(Seq<char>, Seq<char>)>
    decreases s.len(),
{
    if s.len() == 0 {
        None
    } else if s[0] == c {
        Some((Seq::empty(), s.drop_first()))
    } else {
        match split_first(s.drop_first(), c) {
            Some((before, after)) => Some((seq![s[0]] + before, after)),
            None => None,
        }
    }
}

/// A line without the carriage return that belongs to its line ending.
pub open spec fn without_cr(s: Seq<char>) -> Seq<char> {
    if s.len() > 0 && s.last() == '\r' {
        s.drop_last()
    } else {
        s
    }
}

/// The lines of a text: a line ends at `\n` or `\r\n`, and the last ending is optional.
pub open spec fn lines_of(s: Seq<char>) -> Seq<Seq<char>>
    decreases s.len(),
    via lines_of_decreases
{
    if s.len() == 0 {
        Seq::empty()
    } else {
        match split_first(s, '\n') {
            Some((before, after)) => seq![without_cr(before)] + lines_of(after),
            None => seq![s],
        }
    }
}

pub proof fn lemma_split_first(s: Seq<char>, c: char)
    ensures
        split_first(s, c) matches Some((before, after)) ==> {
            &&& s == before + seq![c] + after
            &&& !before.contains(c)
        },
        split_first(s, c) is None ==> !s.contains(c),
    decreases s.len(),
{
    if s.len() > 0 {
        lemma_split_first(s.drop_first(), c);
        if s[0] == c {
            assert(s =~= Seq::empty() + seq![c] + s.drop_first());
        } else {
            match split_first(s.drop_first(), c) {
                Some((before, after)) => {
                    let front = seq![s[0]] + before;
                    assert(s =~= seq![s[0]] + s.drop_first());
                    assert(s =~= front + seq![c] + after);
                    assert forall|i: int| 0 <= i < front.len() implies front[i] != c by {
                        if i > 0 {
                            assert(before.contains(before[i - 1]));
                        }
                    }
                },
                None => {
                    assert forall|i: int| 0 <= i < s.len() implies s[i] != c by {
                        if i > 0 {
                            assert(s.drop_first().contains(s.drop_first()[i - 1]));
                        }
                    }
                },
            }
        }
    }
}

#[via_fn]
proof fn lines_of_decreases(s: Seq<char>) {
    lemma_split_first(s, '\n');
}

/// How `split_first` cuts when the first `c` stands at position `i`.
pub proof fn lemma_split_first_at(s: Seq<char>, c: char, i: int)
    requires
        0 <= i < s.len(),
        s[i] == c,
        forall|j: int| 0 <= j < i ==> s[j] != c,
    ensures
        split_first(s, c) == Some((s.take(i), s.skip(i + 1))),
    decreases i,
{
    if i == 0 {
        assert(s.take(0) =~= Seq::empty());
        assert(s.skip(1) =~= s.drop_first());
    } else {
        let t = s.drop_first();
        lemma_split_first_at(t, c, i - 1);
        assert(seq![s[0]] + t.take(i - 1) =~= s.take(i));
        assert(t.skip(i) =~= s.skip(i + 1));
    }
}

pub proof fn lemma_split_first_none(s: Seq<char>, c: char)
    requires
        forall|j: int| 0 <= j < s.len() ==> s[j] != c,
    ensures
        split_first(s, c) is None,
    decreases s.len(),
{
    if s.len() > 0 {
        assert forall|j: int| 0 <= j < s.drop_first().len() implies s.drop_first()[j] != c by {
            assert(s.drop_first()[j] == s[j + 1]);
        }
        lemma_split_first_none(s.drop_first(), c);
    }
}

proof fn lemma_trimmed_start_at(s: Seq<char>, i: int)
    requires
        0 <= i <= s.len(),
        forall|j: int| 0 <= j < i ==> is_white(s[j]),
        i < s.len() ==> !is_white(s[i]),
    ensures
        trimmed_start(s) == s.skip(i),
    decreases i,
{
    if i == 0 {
        assert(s.skip(0) =~= s);
    } else {
        let t = s.drop_first();
        assert forall|j: int| 0 <= j < i - 1 implies is_white(t[j]) by {
            assert(t[j] == s[j + 1]);
        }
        lemma_trimmed_start_at(t, i - 1);
        assert(t.skip(i - 1) =~= s.skip(i));
    }
}

proof fn lemma_trimmed_end_at(s: Seq<char>, i: int)
    requires
        0 <= i <= s.len(),
        forall|j: int| i <= j < s.len() ==> is_white(s[j]),
        i > 0 ==> !is_white(s[i - 1]),
    ensures
        trimmed_end(s) == s.take(i),
    decreases s.len() - i,
{
    if i == s.len() {
        assert(s.take(i) =~= s);
    } else {
        lemma_trimmed_end_at(s.drop_last(), i);
        assert(s.drop_last().take(i) =~= s.take(i));
    }
}

/// Trimming leaves text alone that neither starts nor ends with white space.
pub proof fn lemma_trimmed_fixed(s: Seq<char>)
    requires
        s.len() > 0 ==> !is_white(s[0]) && !is_white(s.last()),
    ensures
        trimmed(s) == s,
{
}

/// What trimming leaves neither starts nor ends with white space.
pub proof fn lemma_trimmed_ends(s: Seq<char>)
    ensures
        trimmed(s).len() > 0 ==> !is_white(trimmed(s)[0]) && !is_white(trimmed(s).last()),
    decreases s.len(),
{
    lemma_trimmed_start_front(s);
    lemma_trimmed_end_back(trimmed_start(s));
}

proof fn lemma_trimmed_start_front(s: Seq<char>)
    ensures
        trimmed_start(s).len() > 0 ==> !is_white(trimmed_start(s)[0]),
    decreases s.len(),
{
    if s.len() > 0 && is_white(s[0]) {
        lemma_trimmed_start_front(s.drop_first());
    }
}

proof fn lemma_trimmed_end_back(s: Seq<char>)
    ensures
        trimmed_end(s).len() > 0 ==> !is_white(trimmed_end(s).last()) && trimmed_end(s)[0] == s[0],
    decreases s.len(),
{
    if s.len() > 0 && is_white(s.last()) {
        lemma_trimmed_end_back(s.drop_last());
    }
}

/// The position of the first character that is not white space.
fn first_solid(v: &Vec<char>) -> (i: usize)
    ensures
        i <= v.len(),
        trimmed_start(v@) == v@.skip(i as int),
{
    let mut i: usize = 0;
    while i < v.len() && is_whitespace(v[i])
        invariant
            i <= v.len(),
            forall|j: int| 0 <= j < i ==> is_white(v@[j]),
        decreases v.len() - i,
    {
        i += 1;
    }
    proof {
        lemma_trimmed_start_at(v@, i as int);
    }
    i
}

/// `s` without the white space at either end.
pub fn trim(s: &str) -> (r: String)
    ensures
        r@ == trimmed(s@),
{
    let v = chars_of(s);
    let from = first_solid(&v);
    let mut to: usize = v.len();
    while to > from && is_whitespace(v[to - 1])
        invariant
            from <= to <= v.len(),
            forall|j: int| to <= j < v.len() ==> is_white(v@[j]),
        decreases to,
    {
        to -= 1;
    }
    proof {
        let t = v@.skip(from as int);
        assert forall|j: int| to - from <= j < t.len() implies is_white(t[j]) by {
            assert(t[j] == v@[from + j]);
        }
        lemma_trimmed_end_at(t, to - from);
        assert(t.take(to - from) =~= v@.subrange(from as int, to as int));
    }
    string_of(&v, from, to)
}

/// `s` without the white space at its start.
pub fn trim_start(s: &str) -> (r: String)
    ensures
        r@ == trimmed_start(s@),
{
    let v = chars_of(s);
    let from = first_solid(&v);
    let len: usize = v.len();
    assert(v@.subrange(from as int, len as int) =~= v@.skip(from as int));
    string_of(&v, from, len)
}

/// Whether `s` holds nothing but white space.
pub fn blank(s: &str) -> (r: bool)
    ensures
        r == is_blank(s@),
{
    trim(s).as_str().is_empty()
}

pub fn lowercase_char(c: char) -> (r: char)
    ensures
        r == lower_char(c),
{
    match c {
        'A' => 'a',
        'B' => 'b',
        'C' => 'c',
        'D' => 'd',
        'E' => 'e',
        'F' => 'f',
        'G' => 'g',
        'H' => 'h',
        'I' => 'i',
        'J' => 'j',
        'K' => 'k',
        'L' => 'l',
        'M' => 'm',
        'N' => 'n',
        'O' => 'o',
        'P' => 'p',
        'Q' => 'q',
        'R' => 'r',
        'S' => 's',
        'T' => 't',
        'U' => 'u',
        'V' => 'v',
        'W' => 'w',
        'X' => 'x',
        'Y' => 'y',
        'Z' => 'z',
        _ => c,
    }
}

/// The ASCII lower-case form of a text.
pub fn lowercase(s: &str) -> (r: String)
    ensures
        r@ == lowered(s@),
{
    let v = chars_of(s);
    let mut r = String::new();
    let mut i: usize = 0;
    while i < v.len()
        invariant
            i <= v.len(),
            r@ == lowered(v@.take(i as int)),
        decreases v.len() - i,
    {
        r.push(lowercase_char(v[i]));
        i += 1;
        assert(r@ =~= lowered(v@.take(i as int)));
    }
    assert(v@.take(i as int) =~= v@);
    r
}

fn matches_at(s: &Vec<char>, p: &Vec<char>, at: usize) -> (r: bool)
    requires
        at + p.len() <= s.len(),
    ensures
        r == (s@.subrange(at as int, at + p@.len()) == p@),
{
    let mut i: usize = 0;
    while i < p.len()
        invariant
            i <= p.len(),
            at + p.len() <= s.len(),
            forall|j: int| 0 <= j < i ==> s@[at + j] == p@[j],
        decreases p.len() - i,
    {
        if s[at + i] != p[i] {
            assert(s@.subrange(at as int, at + p@.len())[i as int] != p@[i as int]);
            return false;
        }
        i += 1;
    }
    assert(s@.subrange(at as int, at + p@.len()) =~= p@);
    true
}

/// Whether `p` stands at the start of `s`.
pub fn starts_with(s: &str, p: &str) -> (r: bool)
    ensures
        r == has_prefix(s@, p@),
{
    let v = chars_of(s);
    let w = chars_of(p);
    if w.len() > v.len() {
        return false;
    }
    assert(s@.subrange(0, p@.len() as int) =~= s@.take(p@.len() as int));
    matches_at(&v, &w, 0)
}

/// Whether `p` stands at the end of `s`.
pub fn ends_with(s: &str, p: &str) -> (r: bool)
    ensures
        r == has_suffix(s@, p@),
{
    let v = chars_of(s);
    let w = chars_of(p);
    if w.len() > v.len() {
        return false;
    }
    let at: usize = v.len() - w.len();
    assert(s@.subrange(at as int, at + p@.len()) =~= s@.skip(at as int));
    matches_at(&v, &w, at)
}

/// Whether `p` stands anywhere in `s`.
pub fn contains(s: &str, p: &str) -> (r: bool)
    ensures
        r == has_infix(s@, p@),
{
    let v = chars_of(s);
    let w = chars_of(p);
    if w.len() > v.len() {
        assert forall|i: int| !occurs_at(s@, p@, i) by {
        }
        return false;
    }
    let last: usize = v.len() - w.len();
    let mut i: usize = 0;
    loop
        invariant
            v@ == s@,
            w@ == p@,
            w.len() <= v.len(),
            last == v.len() - w.len(),
            i <= last,
            forall|j: int| 0 <= j < i ==> !occurs_at(s@, p@, j),
        decreases last - i,
    {
        if matches_at(&v, &w, i) {
            assert(occurs_at(s@, p@, i as int));
            return true;
        }
        assert(!occurs_at(s@, p@, i as int));
        if i == last {
            assert forall|j: int| !occurs_at(s@, p@, j) by {
            }
            return false;
        }
        i += 1;
    }
}

/// The text before and after the first `c` of `s`.
pub fn split_once(s: &str, c: char) -> (r: Option<(String, String)>)
    ensures
        match r {
            Some((before, after)) => split_first(s@, c) == Some((before@, after@)),
            None => split_first(s@, c) is None,
        },
{
    let v = chars_of(s);
    let mut i: usize = 0;
    while i < v.len()
        invariant
            v@ == s@,
            i <= v.len(),
            forall|j: int| 0 <= j < i ==> v@[j] != c,
        decreases v.len() - i,
    {
        if v[i] == c {
            proof {
                lemma_split_first_at(s@, c, i as int);
                assert(v@.subrange(0, i as int) =~= s@.take(i as int));
                assert(v@.subrange(i + 1, v@.len() as int) =~= s@.skip(i + 1));
            }
            let len: usize = v.len();
            return Some((string_of(&v, 0, i), string_of(&v, i + 1, len)));
        }
        i += 1;
    }
    proof {
        lemma_split_first_none(s@, c);
    }
    None
}

/// The text before a suffix, where `s` ends with it.
pub fn strip_suffix(s: &str, p: &str) -> (r: Option<String>)
    ensures
        match r {
            Some(stem) => has_suffix(s@, p@) && stem@ == s@.take(s@.len() - p@.len()),
            None => !has_suffix(s@, p@),
        },
{
    if ends_with(s, p) {
        let v = chars_of(s);
        let w = chars_of(p);
        let to: usize = v.len() - w.len();
        assert(v@.subrange(0, to as int) =~= s@.take(to as int));
        Some(string_of(&v, 0, to))
    } else {
        None
    }
}

/// The text after a prefix, where `s` starts with it.
pub fn strip_prefix(s: &str, p: &str) -> (r: Option<String>)
    ensures
        match r {
            Some(rest) => has_prefix(s@, p@) && rest@ == s@.skip(p@.len() as int),
            None => !has_prefix(s@, p@),
        },
{
    if starts_with(s, p) {
        let v = chars_of(s);
        let w = chars_of(p);
        let from: usize = w.len();
        let len: usize = v.len();
        assert(v@.subrange(from as int, len as int) =~= s@.skip(from as int));
        Some(string_of(&v, from, len))
    } else {
        None
    }
}

/// `s` with every `from` replaced by `to`.
pub open spec fn replaced(s: Seq<char>, from: char, to: char) -> Seq<char> {
    s.map_values(
        |c: char|
            if c == from {
                to
            } else {
                c
            },
    )
}

/// `s` with every `from` replaced by `to`.
pub fn replace_char(s: &str, from: char, to: char) -> (r: String)
    ensures
        r@ == replaced(s@, from, to),
{
    let v = chars_of(s);
    let mut r = String::new();
    let mut i: usize = 0;
    while i < v.len()
        invariant
            i <= v.len(),
            r@ == replaced(v@.take(i as int), from, to),
        decreases v.len() - i,
    {
        if v[i] == from {
            r.push(to);
        } else {
            r.push(v[i]);
        }
        i += 1;
        assert(r@ =~= replaced(v@.take(i as int), from, to));
    }
    assert(v@.take(i as int) =~= v@);
    r
}

/// The text of a string that may be missing.
pub open spec fn text_of(o: Option<String>) -> Option<Seq<char>> {
    match o {
        Some(s) => Some(s@),
        None => None,
    }
}

/// The texts of a list of strings.
pub open spec fn views(v: Seq<String>) -> Seq<Seq<char>> {
    v.map_values(|s: String| s@)
}

/// The lines of a text: a line ends at `\n` or `\r\n`, and the last ending is optional.
pub fn lines(s: &str) -> (r: Vec<String>)
    ensures
        views(r@) == lines_of(s@),
{
    let v = chars_of(s);
    let len: usize = v.len();
    let mut r: Vec<String> = Vec::new();
    let mut start: usize = 0;
    assert(v@.skip(0) =~= v@);
    while start < len
        invariant
            v@ == s@,
            len == v.len(),
            start <= len,
            lines_of(s@) == views(r@) + lines_of(s@.skip(start as int)),
        decreases len - start,
    {
        let mut end: usize = start;
        while end < len && v[end] != '\n'
            invariant
                len == v.len(),
                start <= end <= len,
                forall|j: int| start <= j < end ==> v@[j] != '\n',
            decreases len - end,
        {
            end += 1;
        }
        let ghost rest = s@.skip(start as int);
        let ghost before = r@;
        if end == len {
            proof {
                assert forall|j: int| 0 <= j < rest.len() implies rest[j] != '\n' by {
                    assert(rest[j] == v@[start + j]);
                }
                lemma_split_first_none(rest, '\n');
                assert(v@.subrange(start as int, end as int) =~= rest);
            }
            r.push(string_of(&v, start, end));
            start = end;
            assert(lines_of(s@.skip(start as int)) =~= Seq::empty());
        } else {
            let ghost line = rest.take(end - start);
            proof {
                assert forall|j: int| 0 <= j < end - start implies rest[j] != '\n' by {
                    assert(rest[j] == v@[start + j]);
                }
                lemma_split_first_at(rest, '\n', end - start);
                assert(rest.skip(end - start + 1) =~= s@.skip(end + 1));
                assert(v@.subrange(start as int, end as int) =~= line);
            }
            let mut stop: usize = end;
            if end > start && v[end - 1] == '\r' {
                stop = end - 1;
            }
            assert(v@.subrange(start as int, stop as int) =~= without_cr(line));
            r.push(string_of(&v, start, stop));
            start = end + 1;
        }
        proof {
            assert(views(r@) =~= views(before).push(r@.last()@));
            assert(lines_of(s@) =~= views(r@) + lines_of(s@.skip(start as int)));
        }
    }
    assert(lines_of(s@.skip(start as int)) =~= Seq::empty());
    assert(views(r@) + Seq::empty() =~= views(r@));
    r
}

/// The parts with `sep` between each two.
pub open spec fn joined(parts: Seq<Seq<char>>, sep: Seq<char>) -> Seq<char>
    decreases parts.len(),
{
    if parts.len() == 0 {
        Seq::empty()
    } else if parts.len() == 1 {
        parts[0]
    } else {
        joined(parts.drop_last(), sep) + sep + parts.last()
    }
}

proof fn lemma_joined_front(parts: Seq<Seq<char>>, sep: Seq<char>)
    requires
        parts.len() >= 2,
    ensures
        joined(parts, sep) == parts[0] + sep + joined(parts.drop_first(), sep),
    decreases parts.len(),
{
    let front = parts.drop_last();
    if parts.len() == 2 {
        assert(joined(front, sep) == front[0]);
        assert(joined(parts.drop_first(), sep) == parts[1]);
    } else {
        lemma_joined_front(front, sep);
        assert(front.drop_first() =~= parts.drop_first().drop_last());
        assert(joined(parts, sep) =~= parts[0] + sep + (joined(front.drop_first(), sep) + sep
            + parts.last()));
    }
}

/// Whether a text can stand as a line before others.
pub open spec fn is_plain_line(s: Seq<char>) -> bool {
    !s.contains('\n') && !(s.len() > 0 && s.last() == '\r')
}

/// The first line of a text that begins with it.
proof fn lemma_first_line(line: Seq<char>, rest: Seq<char>)
    requires
        is_plain_line(line),
    ensures
        lines_of(line + "\n"@ + rest) == seq![line] + lines_of(rest),
{
    reveal_strlit("\n");
    let s = line + "\n"@ + rest;
    let at = line.len() as int;
    assert(s[at] == '\n');
    assert forall|k: int| 0 <= k < at implies s[k] != '\n' by {
        assert(s[k] == line[k]);
        assert(line.contains(line[k]));
    }
    lemma_split_first_at(s, '\n', at);
    assert(s.take(at) =~= line);
    assert(s.skip(at + 1) =~= rest);
}

/// Lines that are joined are read back, where the last one is ended too or holds
/// something.
pub proof fn lemma_joined_lines(lines: Seq<Seq<char>>, ended: bool)
    requires
        lines.len() > 0,
        forall|i: int| 0 <= i < lines.len() ==> is_plain_line(#[trigger] lines[i]),
        ended || lines.last().len() > 0,
    ensures
        lines_of(joined(lines, "\n"@) + if ended { "\n"@ } else { Seq::empty() }) == lines,
        has_suffix(
            joined(lines, "\n"@) + if ended { "\n"@ } else { Seq::empty() },
            "\n"@,
        ) == ended,
    decreases lines.len(),
{
    reveal_strlit("\n");
    let end = if ended {
        "\n"@
    } else {
        Seq::<char>::empty()
    };
    let s = joined(lines, "\n"@) + end;
    if lines.len() == 1 {
        let line = lines[0];
        if ended {
            lemma_first_line(line, Seq::empty());
            assert(line + "\n"@ + Seq::<char>::empty() =~= s);
            assert(lines_of(s) =~= lines);
            assert(s.skip(s.len() - 1) =~= "\n"@);
        } else {
            assert(s =~= line);
            lemma_split_first_none(s, '\n');
            assert(lines_of(s) =~= lines);
            if has_suffix(s, "\n"@) {
                assert(s.skip(s.len() - 1)[0] == s.last());
                assert(line.contains(s.last()));
            }
        }
    } else {
        let rest = lines.drop_first();
        assert(rest.last() == lines.last());
        assert forall|i: int| 0 <= i < rest.len() implies is_plain_line(#[trigger] rest[i]) by {
            assert(rest[i] == lines[i + 1]);
        }
        lemma_joined_lines(rest, ended);
        lemma_joined_front(lines, "\n"@);
        let tail = joined(rest, "\n"@) + end;
        assert(s =~= lines[0] + "\n"@ + tail);
        lemma_first_line(lines[0], tail);
        assert(seq![lines[0]] + rest =~= lines);
        // The tail is not empty, so it decides how the text ends.
        assert(tail.len() > 0) by {
            if tail.len() == 0 {
                assert(lines_of(tail).len() == 0);
            }
        }
        assert(s.skip(s.len() - 1) =~= tail.skip(tail.len() - 1));
    }
}

/// No line of a text holds a line break.
pub proof fn lemma_lines_hold_no_break(s: Seq<char>)
    ensures
        forall|i: int| 0 <= i < lines_of(s).len() ==> !(#[trigger] lines_of(s)[i]).contains('\n'),
        s.len() > 0 ==> lines_of(s).len() > 0,
        s.len() == 0 ==> lines_of(s).len() == 0,
        s.len() > 0 && s.last() != '\n' ==> lines_of(s).last().len() > 0,
    decreases s.len(),
{
    if s.len() > 0 {
        lemma_split_first(s, '\n');
        match split_first(s, '\n') {
            Some((before, after)) => {
                lemma_lines_hold_no_break(after);
                let line = without_cr(before);
                assert(!line.contains('\n')) by {
                    if line.contains('\n') {
                        let i = choose|i: int| 0 <= i < line.len() && line[i] == '\n';
                        assert(before[i] == '\n');
                    }
                }
                let all = lines_of(s);
                assert(all == seq![line] + lines_of(after));
                assert forall|i: int| 0 <= i < all.len() implies !(#[trigger] all[i]).contains(
                    '\n',
                ) by {
                    if i > 0 {
                        assert(all[i] == lines_of(after)[i - 1]);
                    }
                }
                if s.last() != '\n' {
                    assert(after.len() > 0);
                    assert(s.last() == after.last());
                    assert(all.last() == lines_of(after).last());
                }
            },
            None => {},
        }
    }
}

/// `parts[from..]` with `sep` between each two.
pub fn join_from(parts: &Vec<String>, from: usize, sep: &str) -> (r: String)
    requires
        from <= parts.len(),
    ensures
        r@ == joined(views(parts@).skip(from as int), sep@),
{
    let mut r = String::new();
    let mut i: usize = from;
    while i < parts.len()
        invariant
            from <= i <= parts.len(),
            r@ == joined(views(parts@).subrange(from as int, i as int), sep@),
        decreases parts.len() - i,
    {
        if i > from {
            r.append(sep);
        }
        r.append(parts[i].as_str());
        i += 1;
        proof {
            let now = views(parts@).subrange(from as int, i as int);
            assert(now.drop_last() =~= views(parts@).subrange(from as int, i - 1));
            assert(now.last() == parts@[i - 1]@);
            if i == from + 1 {
                assert(Seq::<char>::empty() + now.last() =~= now[0]);
            }
        }
    }
    assert(views(parts@).subrange(from as int, i as int) =~= views(parts@).skip(from as int));
    r
}

/// The parts with `sep` between each two.
pub fn join(parts: &Vec<String>, sep: &str) -> (r: String)
    ensures
        r@ == joined(views(parts@), sep@),
{
    assert(views(parts@).skip(0) =~= views(parts@));
    join_from(parts, 0, sep)
}

/// `a` stands before `b` or is equal to it, character by character.
pub open spec fn text_le(a: Seq<char>, b: Seq<char>) -> bool
    decreases a.len(),
{
    if a.len() == 0 {
        true
    } else if b.len() == 0 {
        false
    } else if a[0] == b[0] {
        text_le(a.drop_first(), b.drop_first())
    } else {
        a[0] < b[0]
    }
}

/// Any two texts are ordered, and only equal texts are ordered both ways.
pub proof fn lemma_text_le_total(a: Seq<char>, b: Seq<char>)
    ensures
        text_le(a, b) || text_le(b, a),
        text_le(a, b) && text_le(b, a) ==> a == b,
    decreases a.len(),
{
    if a.len() == 0 {
        assert(b.len() == 0 ==> a =~= b);
    } else if b.len() > 0 && a[0] == b[0] {
        lemma_text_le_total(a.drop_first(), b.drop_first());
        if text_le(a, b) && text_le(b, a) {
            assert(a =~= seq![a[0]] + a.drop_first());
            assert(b =~= seq![b[0]] + b.drop_first());
        }
    }
}

pub proof fn lemma_text_le_transitive(a: Seq<char>, b: Seq<char>, c: Seq<char>)
    requires
        text_le(a, b),
        text_le(b, c),
    ensures
        text_le(a, c),
    decreases a.len(),
{
    if a.len() > 0 && a[0] == b[0] && b[0] == c[0] {
        lemma_text_le_transitive(a.drop_first(), b.drop_first(), c.drop_first());
    }
}

/// Whether `a` stands before `b` or is equal to it.
pub fn at_most(a: &str, b: &str) -> (r: bool)
    ensures
        r == text_le(a@, b@),
{
    let v = chars_of(a);
    let w = chars_of(b);
    let mut i: usize = 0;
    assert(v@.skip(0) =~= v@);
    assert(w@.skip(0) =~= w@);
    while i < v.len() && i < w.len() && v[i] == w[i]
        invariant
            v@ == a@,
            w@ == b@,
            i <= v.len(),
            i <= w.len(),
            text_le(a@, b@) == text_le(v@.skip(i as int), w@.skip(i as int)),
        decreases v.len() - i,
    {
        assert(v@.skip(i as int).drop_first() =~= v@.skip(i + 1));
        assert(w@.skip(i as int).drop_first() =~= w@.skip(i + 1));
        i += 1;
    }
    if i >= v.len() {
        true
    } else if i >= w.len() {
        false
    } else {
        assert(v@.skip(i as int)[0] == v@[i as int]);
        assert(w@.skip(i as int)[0] == w@[i as int]);
        v[i] < w[i]
    }
}

pub fn concat2(a: &str, b: &str) -> (r: String)
    ensures
        r@ == a@ + b@,
{
    let mut r = a.to_owned();
    r.append(b);
    r
}

pub fn concat3(a: &str, b: &str, c: &str) -> (r: String)
    ensures
        r@ == a@ + b@ + c@,
{
    let mut r = a.to_owned();
    r.append(b);
    r.append(c);
    r
}

pub fn concat4(a: &str, b: &str, c: &str, d: &str) -> (r: String)
    ensures
        r@ == a@ + b@ + c@ + d@,
{
    let mut r = concat3(a, b, c);
    r.append(d);
    r
}

pub fn concat5(a: &str, b: &str, c: &str, d: &str, e: &str) -> (r: String)
    ensures
        r@ == a@ + b@ + c@ + d@ + e@,
{
    let mut r = concat4(a, b, c, d);
    r.append(e);
    r
}

/// The digit of a value below ten.
pub open spec fn digit(d: int) -> char {
    if d == 0 { '0' } else if d == 1 { '1' } else if d == 2 { '2' } else if d == 3 { '3' }
    else if d == 4 { '4' } else if d == 5 { '5' } else if d == 6 { '6' } else if d == 7 { '7' }
    else if d == 8 { '8' } else { '9' }
}

/// The decimal digits of a number, without leading zeros.
pub open spec fn decimal(n: nat) -> Seq<char>
    decreases n,
{
    if n < 10 {
        seq![digit(n as int)]
    } else {
        decimal(n / 10).push(digit((n % 10) as int))
    }
}

/// `s` with zeros in front, up to `width` characters.
pub open spec fn zero_padded(s: Seq<char>, width: nat) -> Seq<char> {
    if s.len() >= width {
        s
    } else {
        Seq::new((width - s.len()) as nat, |i: int| '0') + s
    }
}

pub open spec fn is_digit(c: char) -> bool {
    '0' <= c <= '9'
}

pub open spec fn all_digits(s: Seq<char>) -> bool {
    forall|i: int| 0 <= i < s.len() ==> is_digit(#[trigger] s[i])
}

/// The number that a run of digits stands for.
pub open spec fn digits_value(s: Seq<char>) -> nat
    decreases s.len(),
{
    if s.len() == 0 {
        0
    } else {
        (digits_value(s.drop_last()) * 10 + (s.last() as u32 - '0' as u32)) as nat
    }
}

/// The number that a text stands for: digits, with an optional plus sign, of a
/// value up to `max`.
pub open spec fn unsigned_value(s: Seq<char>, max: nat) -> Option<nat> {
    let t = if s.len() > 0 && s[0] == '+' {
        s.drop_first()
    } else {
        s
    };
    if t.len() > 0 && all_digits(t) && digits_value(t) <= max {
        Some(digits_value(t))
    } else {
        None
    }
}

fn digit_char(d: u64) -> (c: char)
    requires
        d < 10,
    ensures
        c == digit(d as int),
{
    if d == 0 { '0' } else if d == 1 { '1' } else if d == 2 { '2' } else if d == 3 { '3' }
    else if d == 4 { '4' } else if d == 5 { '5' } else if d == 6 { '6' } else if d == 7 { '7' }
    else if d == 8 { '8' } else { '9' }
}

/// The decimal digits of a number, without leading zeros.
pub fn decimal_of(n: u64) -> (r: String)
    ensures
        r@ == decimal(n as nat),
    decreases n,
{
    if n < 10 {
        let mut r = String::new();
        r.push(digit_char(n));
        assert(r@ =~= seq![digit(n as int)]);
        r
    } else {
        let mut r = decimal_of(n / 10);
        r.push(digit_char(n % 10));
        r
    }
}

/// `s` with zeros in front, up to `width` characters.
pub fn zero_pad(s: &str, width: usize) -> (r: String)
    ensures
        r@ == zero_padded(s@, width as nat),
{
    let v = chars_of(s);
    if v.len() >= width {
        return s.to_owned();
    }
    let count: usize = width - v.len();
    let mut r = String::new();
    let mut i: usize = 0;
    while i < count
        invariant
            i <= count,
            r@ == Seq::new(i as nat, |j: int| '0'),
        decreases count - i,
    {
        r.push('0');
        i += 1;
        assert(r@ =~= Seq::new(i as nat, |j: int| '0'));
    }
    r.append(s);
    r
}

proof fn lemma_digits_value_prefix(s: Seq<char>, i: int)
    requires
        0 <= i <= s.len(),
        all_digits(s),
    ensures
        digits_value(s.take(i)) <= digits_value(s),
    decreases s.len(),
{
    if i == s.len() {
        assert(s.take(i) =~= s);
    } else {
        assert(s.drop_last().take(i) =~= s.take(i));
        assert(is_digit(s.last()));
        lemma_digits_value_prefix(s.drop_last(), i);
    }
}

/// The number that a text stands for, up to `max`.
pub fn parse_unsigned(s: &str, max: u64) -> (r: Option<u64>)
    ensures
        match r {
            Some(n) => unsigned_value(s@, max as nat) == Some(n as nat),
            None => unsigned_value(s@, max as nat) is None,
        },
{
    let v = chars_of(s);
    let from: usize = if v.len() > 0 && v[0] == '+' {
        1
    } else {
        0
    };
    let ghost t = v@.skip(from as int);
    assert(v@.skip(0) =~= v@);
    assert(v@.skip(1) =~= v@.drop_first());
    if from >= v.len() {
        return None;
    }
    let mut value: u64 = 0;
    let mut i: usize = from;
    assert(t.take(0) =~= Seq::empty());
    while i < v.len()
        invariant
            from <= i <= v.len(),
            t == v@.skip(from as int),
            t.len() == v.len() - from,
            from == 1 || from == 0,
            unsigned_value(s@, max as nat) == if all_digits(t) && digits_value(t) <= max {
                Some(digits_value(t))
            } else {
                None
            },
            forall|j: int| 0 <= j < i - from ==> is_digit(#[trigger] t[j]),
            value == digits_value(t.take(i - from)),
            value <= max,
        decreases v.len() - i,
    {
        let c = v[i];
        assert(t[i - from] == c);
        if !('0' <= c && c <= '9') {
            assert(!all_digits(t));
            return None;
        }
        let d: u64 = (c as u64) - 48;
        proof {
            let n = t.take(i - from + 1);
            assert(n.drop_last() =~= t.take(i - from));
            assert(n.last() == c);
            assert(digits_value(n) == value * 10 + d);
            if all_digits(t) {
                lemma_digits_value_prefix(t, i - from + 1);
            }
        }
        if value > max / 10 {
            assert(value * 10 > max);
            return None;
        }
        let scaled: u64 = value * 10;
        if d > max - scaled {
            return None;
        }
        value = scaled + d;
        i += 1;
    }
    assert(t.take(i - from) =~= t);
    Some(value)
}

/// The decimal form of a number is a nonempty run of digits that stands for it.
pub proof fn lemma_decimal_value(n: nat)
    ensures
        decimal(n).len() > 0,
        all_digits(decimal(n)),
        digits_value(decimal(n)) == n,
    decreases n,
{
    if n < 10 {
        let s = seq![digit(n as int)];
        assert(s.drop_last() =~= Seq::empty());
        assert(digits_value(s.drop_last()) == 0);
    } else {
        lemma_decimal_value(n / 10);
        let s = decimal(n);
        assert(s.drop_last() =~= decimal(n / 10));
        assert forall|i: int| 0 <= i < s.len() implies is_digit(#[trigger] s[i]) by {
            if i < s.len() - 1 {
                assert(s[i] == decimal(n / 10)[i]);
            }
        }
    }
}

/// Zeros in front of digits keep them digits and keep the value.
pub proof fn lemma_zero_padded_value(s: Seq<char>, width: nat)
    requires
        all_digits(s),
    ensures
        all_digits(zero_padded(s, width)),
        digits_value(zero_padded(s, width)) == digits_value(s),
        zero_padded(s, width).len() >= s.len(),
    decreases s.len(),
{
    let z = zero_padded(s, width);
    if s.len() < width {
        if s.len() == 0 {
            lemma_zeros_value(width);
            assert(z =~= Seq::new(width, |i: int| '0'));
        } else {
            let k = (width - s.len()) as nat;
            lemma_zero_padded_value(s.drop_last(), (width - 1) as nat);
            assert(z.drop_last() =~= zero_padded(s.drop_last(), (width - 1) as nat));
            assert(z.last() == s.last());
            assert forall|i: int| 0 <= i < z.len() implies is_digit(#[trigger] z[i]) by {
                if i >= k {
                    assert(z[i] == s[i - k]);
                }
            }
        }
    }
}

proof fn lemma_zeros_value(n: nat)
    ensures
        digits_value(Seq::new(n, |i: int| '0')) == 0,
    decreases n,
{
    if n > 0 {
        let z = Seq::new(n, |i: int| '0');
        lemma_zeros_value((n - 1) as nat);
        assert(z.drop_last() =~= Seq::new((n - 1) as nat, |i: int| '0'));
    }
}

/// Reading back the zero-padded decimal form of a number gives the number.
pub proof fn law_decimal_round_trip(n: u64, width: nat)
    ensures
        unsigned_value(zero_padded(decimal(n as nat), width), u64::MAX as nat) == Some(n as nat),
{
    lemma_decimal_value(n as nat);
    lemma_zero_padded_value(decimal(n as nat), width);
    let z = zero_padded(decimal(n as nat), width);
    assert(is_digit(z[0]));
}

/// The length of the word that `s` begins with.
pub open spec fn word_len(s: Seq<char>) -> nat
    decreases s.len(),
{
    if s.len() == 0 || is_white(s[0]) {
        0
    } else {
        1 + word_len(s.drop_first())
    }
}

pub proof fn lemma_word_len(s: Seq<char>)
    ensures
        word_len(s) <= s.len(),
        s.len() > 0 && !is_white(s[0]) ==> word_len(s) > 0,
    decreases s.len(),
{
    if s.len() > 0 && !is_white(s[0]) {
        lemma_word_len(s.drop_first());
    }
}

proof fn lemma_trimmed_start_shorter(s: Seq<char>)
    ensures
        trimmed_start(s).len() <= s.len(),
    decreases s.len(),
{
    if s.len() > 0 && is_white(s[0]) {
        lemma_trimmed_start_shorter(s.drop_first());
    }
}

/// The words of a text: its parts between white space.
pub open spec fn words_of(s: Seq<char>) -> Seq<Seq<char>>
    decreases s.len(),
    via words_of_decreases
{
    let t = trimmed_start(s);
    if t.len() == 0 {
        Seq::empty()
    } else {
        seq![t.take(word_len(t) as int)] + words_of(t.skip(word_len(t) as int))
    }
}

#[via_fn]
proof fn words_of_decreases(s: Seq<char>) {
    lemma_trimmed_start_shorter(s);
    lemma_trimmed_start_front(s);
    lemma_word_len(trimmed_start(s));
}

proof fn lemma_word_len_at(s: Seq<char>, n: int)
    requires
        0 <= n <= s.len(),
        forall|j: int| 0 <= j < n ==> !is_white(s[j]),
        n < s.len() ==> is_white(s[n]),
    ensures
        word_len(s) == n,
    decreases n,
{
    if n > 0 {
        assert forall|j: int| 0 <= j < n - 1 implies !is_white(s.drop_first()[j]) by {
            assert(s.drop_first()[j] == s[j + 1]);
        }
        lemma_word_len_at(s.drop_first(), n - 1);
    }
}

/// The words of a text: its parts between white space.
pub fn words(s: &str) -> (r: Vec<String>)
    ensures
        views(r@) == words_of(s@),
{
    let v = chars_of(s);
    let len: usize = v.len();
    let mut r: Vec<String> = Vec::new();
    let mut at: usize = 0;
    assert(v@.skip(0) =~= v@);
    loop
        invariant
            v@ == s@,
            len == v.len(),
            at <= len,
            words_of(s@) == views(r@) + words_of(s@.skip(at as int)),
        decreases len - at,
    {
        let mut from: usize = at;
        while from < len && is_whitespace(v[from])
            invariant
                len == v.len(),
                at <= from <= len,
                forall|j: int| at <= j < from ==> is_white(v@[j]),
            decreases len - from,
        {
            from += 1;
        }
        let ghost rest = s@.skip(at as int);
        let ghost t = s@.skip(from as int);
        proof {
            assert forall|j: int| 0 <= j < from - at implies is_white(rest[j]) by {
                assert(rest[j] == v@[at + j]);
            }
            lemma_trimmed_start_at(rest, from - at);
            assert(rest.skip(from - at) =~= t);
        }
        if from == len {
            assert(words_of(rest) =~= Seq::empty());
            assert(views(r@) + Seq::empty() =~= views(r@));
            return r;
        }
        let mut to: usize = from;
        while to < len && !is_whitespace(v[to])
            invariant
                len == v.len(),
                from <= to <= len,
                forall|j: int| from <= j < to ==> !is_white(v@[j]),
            decreases len - to,
        {
            to += 1;
        }
        let ghost before = r@;
        proof {
            assert forall|j: int| 0 <= j < to - from implies !is_white(t[j]) by {
                assert(t[j] == v@[from + j]);
            }
            lemma_word_len_at(t, to - from);
            assert(v@.subrange(from as int, to as int) =~= t.take(to - from));
            assert(t.skip(to - from) =~= s@.skip(to as int));
            assert(!is_white(v@[from as int]));
            assert(to > from);
        }
        r.push(string_of(&v, from, to));
        at = to;
        proof {
            assert(views(r@) =~= views(before).push(t.take(to - from)));
            assert(words_of(s@) =~= views(r@) + words_of(s@.skip(at as int)));
        }
    }
}

/// Whether a file name has this extension.
pub open spec fn has_extension(name: Seq<char>, ext: Seq<char>) -> bool {
    exists|i: int|
        #![trigger name[i]]
        0 < i < name.len() && name[i] == '.' && name.skip(i + 1) == ext && name != ".."@
            && !ext.contains('.')
}

/// Whether a file name has the extension `ext`, which holds no dot.
pub fn is_extension(name: &str, ext: &str) -> (r: bool)
    requires
        !ext@.contains('.'),
    ensures
        r == has_extension(name@, ext@),
{
    let v = chars_of(name);
    let w = chars_of(ext);
    if v.len() < 2 || v.len() - 2 < w.len() || same(name, "..") {
        proof {
            if has_extension(name@, ext@) {
                let i = choose|i: int|
                    #![trigger name@[i]]
                    0 < i < name@.len() && name@[i] == '.' && name@.skip(i + 1) == ext@;
                assert(name@.skip(i + 1).len() == name@.len() - i - 1);
            }
        }
        return false;
    }
    let dot: usize = v.len() - w.len() - 1;
    let r = v[dot] == '.' && matches_at(&v, &w, dot + 1);
    proof {
        assert(v@.subrange(dot + 1, dot + 1 + w@.len()) =~= name@.skip(dot + 1));
        if has_extension(name@, ext@) {
            let i = choose|i: int|
                #![trigger name@[i]]
                0 < i < name@.len() && name@[i] == '.' && name@.skip(i + 1) == ext@ && name@
                    != ".."@;
            assert(name@.skip(i + 1).len() == name@.len() - i - 1);
            assert(i == dot);
        }
        if r {
            assert(name@[dot as int] == '.');
        }
    }
    r
}

/// Whether a text is one of those in the list.
pub fn is_among(list: &Vec<String>, value: &str) -> (r: bool)
    ensures
        r == views(list@).contains(value@),
{
    let mut i: usize = 0;
    while i < list.len()
        invariant
            i <= list@.len(),
            forall|k: int| 0 <= k < i ==> (#[trigger] list@[k])@ != value@,
        decreases list.len() - i,
    {
        if same(list[i].as_str(), value) {
            assert(views(list@)[i as int] == value@);
            return true;
        }
        i += 1;
    }
    proof {
        if views(list@).contains(value@) {
            let k = choose|k: int|
                0 <= k < views(list@).len() && views(list@)[k] == value@;
            assert(list@[k]@ == value@);
        }
    }
    false
}

/// How many bytes a text has.
pub fn byte_len(s: &str) -> (r: usize)
    ensures
        r == encode_utf8(s@).len(),
{
    s.as_bytes().len()
}

/// How `std::str::from_utf8` describes what is wrong with bytes that are no text.
pub uninterp spec fn utf8_error(bytes: Seq<u8>) -> Seq<char>;

/// `std::str::from_utf8`. Claims that it decodes exactly the bytes that are UTF-8, and
/// that the text of its error depends on the bytes alone.
#[verifier::external_body]
pub(crate) fn utf8_text(bytes: &[u8]) -> (r: std::result::Result<String, String>)
    ensures
        match r {
            Ok(s) => valid_utf8(bytes@) && s@ == decode_utf8(bytes@),
            Err(e) => !valid_utf8(bytes@) && e@ == utf8_error(bytes@),
        },
{
    match std::str::from_utf8(bytes) {
        Ok(s) => Ok(s.to_string()),
        Err(e) => Err(e.to_string()),
    }
}

/// What `String::from_utf8_lossy` makes of bytes.
pub uninterp spec fn lossy(bytes: Seq<u8>) -> Seq<char>;

/// Whether `s` is the text of the bytes where they are UTF-8.
pub open spec fn decodes(s: Seq<char>, bytes: Seq<u8>) -> bool {
    valid_utf8(bytes) ==> s == decode_utf8(bytes)
}

/// `String::from_utf8_lossy`. Claims that the text depends on the bytes alone and that
/// UTF-8 is decoded as it is.
#[verifier::external_body]
pub(crate) fn lossy_text(bytes: &[u8]) -> (r: String)
    ensures
        r@ == lossy(bytes@),
        decodes(r@, bytes@),
{
    String::from_utf8_lossy(bytes).into_owned()
}

/// The last `n` characters of a text.
pub open spec fn last_chars(s: Seq<char>, n: int) -> Seq<char> {
    if s.len() <= n {
        s
    } else {
        s.skip(s.len() - n)
    }
}

/// The last `n` characters of a text.
pub fn tail_of(s: &str, n: usize) -> (r: String)
    ensures
        r@ == last_chars(s@, n as int),
{
    let v = chars_of(s);
    let from: usize = if v.len() <= n {
        0
    } else {
        v.len() - n
    };
    assert(v@.subrange(from as int, v@.len() as int) =~= last_chars(s@, n as int));
    string_of(&v, from, v.len())
}

/// Trimming takes white space off the ends, all of it and nothing else.
pub proof fn law_trimming_takes_white_space_off(s: Seq<char>)
    ensures
        exists|from: int, to: int|
            #![trigger s.subrange(from, to)]
            0 <= from <= to <= s.len() && trimmed(s) == s.subrange(from, to) && (forall|i: int|
                0 <= i < from || to <= i < s.len() ==> is_white(#[trigger] s[i])),
        trimmed(s).len() > 0 ==> !is_white(trimmed(s)[0]) && !is_white(trimmed(s).last()),
        is_blank(s) == forall|i: int| 0 <= i < s.len() ==> is_white(#[trigger] s[i]),
{
    let from = lemma_trimmed_start_splits(s);
    let rest = trimmed_start(s);
    let kept = lemma_trimmed_end_splits(rest);
    let to = from + kept;
    assert(s.subrange(from, to) =~= rest.take(kept));
    assert forall|i: int| to <= i < s.len() implies is_white(#[trigger] s[i]) by {
        assert(rest[i - from] == s[i]);
    }
    if trimmed(s).len() > 0 {
        assert(trimmed(s)[0] == rest[0]);
    }
    if is_blank(s) {
        assert(from == to);
    } else {
        assert(s[from] == trimmed(s)[0]);
    }
}

proof fn lemma_trimmed_start_splits(s: Seq<char>) -> (from: int)
    ensures
        0 <= from <= s.len(),
        trimmed_start(s) == s.skip(from),
        forall|i: int| 0 <= i < from ==> is_white(#[trigger] s[i]),
        from < s.len() ==> !is_white(s[from]),
    decreases s.len(),
{
    if s.len() > 0 && is_white(s[0]) {
        let rest = s.drop_first();
        let from = lemma_trimmed_start_splits(rest);
        assert(rest.skip(from) =~= s.skip(from + 1));
        assert forall|i: int| 0 <= i < from + 1 implies is_white(#[trigger] s[i]) by {
            if i > 0 {
                assert(rest[i - 1] == s[i]);
            }
        }
        from + 1
    } else {
        assert(s.skip(0) =~= s);
        0
    }
}

proof fn lemma_trimmed_end_splits(s: Seq<char>) -> (to: int)
    ensures
        0 <= to <= s.len(),
        trimmed_end(s) == s.take(to),
        forall|i: int| to <= i < s.len() ==> is_white(#[trigger] s[i]),
        to > 0 ==> !is_white(s[to - 1]),
    decreases s.len(),
{
    if s.len() > 0 && is_white(s.last()) {
        let rest = s.drop_last();
        let to = lemma_trimmed_end_splits(rest);
        assert(rest.take(to) =~= s.take(to));
        assert forall|i: int| to <= i < s.len() implies is_white(#[trigger] s[i]) by {
            if i < s.len() - 1 {
                assert(rest[i] == s[i]);
            }
        }
        to
    } else {
        assert(s.take(s.len() as int) =~= s);
        s.len() as int
    }
}

/// Lowering changes the letters `A` to `Z` to `a` to `z`, each for itself, and nothing else.
pub proof fn law_lowering_changes_capitals_alone(s: Seq<char>, i: int)
    requires
        0 <= i < s.len(),
    ensures
        lowered(s).len() == s.len(),
        'A' <= s[i] <= 'Z' ==> lowered(s)[i] as int == s[i] as int + 32,
        !('A' <= s[i] <= 'Z') ==> lowered(s)[i] == s[i],
{
}

/// A number is written with its digits, the highest first.
pub proof fn law_decimals_grow_by_digits(n: nat, d: nat)
    requires
        d < 10,
    ensures
        decimal(d).len() == 1,
        decimal(d)[0] as int == '0' as int + d,
        n > 0 ==> decimal(10 * n + d) == decimal(n) + decimal(d),
{
    let m = 10 * n + d;
    assert(m / 10 == n && m % 10 == d);
    if n > 0 {
        assert(decimal(m) =~= decimal(n) + decimal(d));
    }
}

/// Texts stand in the order of the first character in which they differ, and the shorter
/// one first where they do not.
pub proof fn law_texts_stand_by_their_first_difference(a: Seq<char>, b: Seq<char>, k: int)
    requires
        0 <= k <= a.len(),
        k <= b.len(),
        forall|i: int| 0 <= i < k ==> a[i] == b[i],
    ensures
        k < a.len() && k < b.len() && a[k] != b[k] ==> text_le(a, b) == (a[k] < b[k]),
        k == a.len() ==> text_le(a, b),
        k == b.len() && k < a.len() ==> !text_le(a, b),
    decreases k,
{
    if k > 0 {
        assert(a[0] == b[0]);
        assert forall|i: int| 0 <= i < k - 1 implies a.drop_first()[i] == b.drop_first()[i] by {
            assert(a[i + 1] == b[i + 1]);
        }
        law_texts_stand_by_their_first_difference(a.drop_first(), b.drop_first(), k - 1);
    }
}

/// A file has an extension where its name ends with a dot and the extension, after at least
/// one other character.
pub proof fn law_extensions_follow_the_last_dot(name: Seq<char>, ext: Seq<char>)
    requires
        ext.len() > 0,
        !ext.contains('.'),
    ensures
        has_extension(name, ext) <==> name.len() > ext.len() + 1 && name[name.len() - ext.len() - 1]
            == '.' && name.skip(name.len() - ext.len()) == ext,
{
    reveal_strlit("..");
    if has_extension(name, ext) {
        let i = choose|i: int|
            #![trigger name[i]]
            0 < i < name.len() && name[i] == '.' && name.skip(i + 1) == ext && name != ".."@
                && !ext.contains('.');
        assert(i + 1 == name.len() - ext.len());
    }
    if name.len() > ext.len() + 1 && name[name.len() - ext.len() - 1] == '.' && name.skip(
        name.len() - ext.len(),
    ) == ext {
        let i = name.len() - ext.len() - 1;
        assert(name[i] == '.');
        assert(name.skip(i + 1) == ext);
        if name == ".."@ {
            assert(ext[0] == name[name.len() - ext.len()]);
            assert(ext.contains(ext[0]));
        }
    }
}

/// Joined texts stand one after the other with the separator between them.
pub proof fn law_joining_puts_separators_between(
    parts: Seq<Seq<char>>,
    last: Seq<char>,
    sep: Seq<char>,
)
    ensures
        joined(Seq::<Seq<char>>::empty(), sep) == Seq::<char>::empty(),
        joined(seq![last], sep) == last,
        parts.len() > 0 ==> joined(parts.push(last), sep) == joined(parts, sep) + sep + last,
{
    assert(parts.push(last).drop_last() =~= parts);
}

/// The lines of a text are its parts between line endings, in order; the ending of the last
/// line may be missing.
pub proof fn law_lines_end_at_line_breaks(line: Seq<char>, rest: Seq<char>)
    requires
        !line.contains('\n'),
        line.len() > 0 ==> line.last() != '\r',
    ensures
        lines_of(Seq::<char>::empty()) == Seq::<Seq<char>>::empty(),
        lines_of(line + seq!['\n'] + rest) == seq![line] + lines_of(rest),
        lines_of(line + seq!['\r', '\n'] + rest) == seq![line] + lines_of(rest),
        line.len() > 0 ==> lines_of(line) == seq![line],
{
    reveal_strlit("\n");
    assert(seq!['\n'] =~= "\n"@);
    lemma_first_line(line, rest);
    let s = line + seq!['\r', '\n'] + rest;
    let at = line.len() as int + 1;
    assert(s[at] == '\n');
    assert forall|k: int| 0 <= k < at implies s[k] != '\n' by {
        if k < line.len() {
            assert(s[k] == line[k]);
            assert(line.contains(line[k]));
        }
    }
    lemma_split_first_at(s, '\n', at);
    assert(s.take(at).drop_last() =~= line);
    assert(s.take(at).last() == '\r');
    assert(s.skip(at + 1) =~= rest);
    if line.len() > 0 {
        lemma_split_first_none(line, '\n');
        assert(lines_of(line) =~= seq![line]);
    }
}

/// A text is cut at the first place where the character stands.
pub proof fn law_a_text_is_cut_at_the_first_place(
    before: Seq<char>,
    c: char,
    after: Seq<char>,
)
    requires
        !before.contains(c),
    ensures
        split_first(before + seq![c] + after, c) == Some((before, after)),
        split_first(before, c) is None,
{
    let s = before + seq![c] + after;
    let at = before.len() as int;
    assert(s[at] == c);
    assert forall|k: int| 0 <= k < at implies s[k] != c by {
        assert(s[k] == before[k]);
        assert(before.contains(before[k]));
    }
    lemma_split_first_at(s, c, at);
    assert(s.take(at) =~= before);
    assert(s.skip(at + 1) =~= after);
    lemma_split_first_none(before, c);
}

/// Replacing a character changes it wherever it stands, and nothing else.
pub proof fn law_replacing_changes_one_character_alone(
    s: Seq<char>,
    from: char,
    to: char,
    i: int,
)
    requires
        0 <= i < s.len(),
    ensures
        replaced(s, from, to).len() == s.len(),
        s[i] == from ==> replaced(s, from, to)[i] == to,
        s[i] != from ==> replaced(s, from, to)[i] == s[i],
{
}

/// Padding puts zeros in front, up to the width and no more.
pub proof fn law_padding_puts_zeros_in_front(s: Seq<char>, width: nat)
    ensures
        s.len() >= width ==> zero_padded(s, width) == s,
        s.len() < width ==> {
            &&& zero_padded(s, width).len() == width
            &&& zero_padded(s, width).skip(width - s.len()) == s
            &&& forall|i: int|
                0 <= i < width - s.len() ==> #[trigger] zero_padded(s, width)[i] == '0'
        },
{
    if s.len() < width {
        assert(zero_padded(s, width).skip(width - s.len()) =~= s);
    }
}

proof fn lemma_word_in_front(word: Seq<char>, rest: Seq<char>)
    requires
        forall|i: int| 0 <= i < word.len() ==> !is_white(#[trigger] word[i]),
        rest.len() == 0 || is_white(rest[0]),
    ensures
        word_len(word + rest) == word.len(),
    decreases word.len(),
{
    let s = word + rest;
    if word.len() == 0 {
        assert(s =~= rest);
    } else {
        assert(!is_white(word[0]));
        let tail = word.drop_first();
        assert forall|i: int| 0 <= i < tail.len() implies !is_white(#[trigger] tail[i]) by {
            assert(tail[i] == word[i + 1]);
        }
        lemma_word_in_front(tail, rest);
        assert(s.drop_first() =~= tail + rest);
    }
}

/// Words are what stands between white space, in their order.
pub proof fn law_words_stand_between_white_space(word: Seq<char>, rest: Seq<char>, white: char)
    requires
        word.len() > 0,
        forall|i: int| 0 <= i < word.len() ==> !is_white(#[trigger] word[i]),
        rest.len() == 0 || is_white(rest[0]),
        is_white(white),
    ensures
        words_of(word + rest) == seq![word] + words_of(rest),
        words_of(seq![white] + rest) == words_of(rest),
        words_of(Seq::empty()).len() == 0,
{
    let s = word + rest;
    assert(!is_white(word[0]) && s[0] == word[0]);
    assert(trimmed_start(s) == s);
    lemma_word_in_front(word, rest);
    assert(s.take(word.len() as int) =~= word);
    assert(s.skip(word.len() as int) =~= rest);
    let t = seq![white] + rest;
    assert(t.drop_first() =~= rest);
    assert(trimmed_start(t) == trimmed_start(rest));
    assert(trimmed_start(Seq::<char>::empty()).len() == 0);
}

/// A number is read digit by digit, each digit behind ten times what stands before it.
pub proof fn law_numbers_are_read_by_their_digits(s: Seq<char>, d: nat, max: nat)
    requires
        d < 10,
        all_digits(s),
        s.len() > 0,
    ensures
        digits_value(s.push(digit(d as int))) == digits_value(s) * 10 + d,
        digits_value(seq![digit(d as int)]) == d,
        digits_value(s) <= max ==> unsigned_value(s, max) == Some(digits_value(s)),
        digits_value(s) > max ==> unsigned_value(s, max) is None,
        unsigned_value(seq!['+'] + s, max) == unsigned_value(s, max),
        unsigned_value(Seq::empty(), max) is None,
        unsigned_value(s.push('-'), max) is None,
{
    let c = digit(d as int);
    assert(s.push(c).drop_last() =~= s);
    assert(seq![c].drop_last() =~= Seq::<char>::empty());
    assert(digits_value(Seq::<char>::empty()) == 0);
    assert(is_digit(s[0]));
    assert((seq!['+'] + s).drop_first() =~= s);
    let t = s.push('-');
    assert(t[0] == s[0]);
    assert(!is_digit(t[s.len() as int]));
}

/// The end of a text is kept, and no more of it than was asked for.
pub proof fn law_the_end_of_a_text_is_kept(s: Seq<char>, n: int)
    requires
        n >= 0,
    ensures
        s.len() <= n ==> last_chars(s, n) == s,
        s.len() > n ==> last_chars(s, n).len() == n,
        s.take(s.len() - last_chars(s, n).len()) + last_chars(s, n) == s,
{
    assert(s.take(s.len() - last_chars(s, n).len()) + last_chars(s, n) =~= s);
}

/// A text begins, ends and goes on with what it is put together of, and with nothing else.
pub proof fn law_parts_of_a_text(a: Seq<char>, b: Seq<char>, p: Seq<char>)
    ensures
        has_prefix(p + b, p),
        has_suffix(a + p, p),
        has_infix(a + p + b, p),
        has_prefix(a, p) ==> a == p + a.skip(p.len() as int),
        has_suffix(a, p) ==> a == a.take(a.len() - p.len()) + p,
        has_infix(a, p) ==> exists|i: int|
            0 <= i <= a.len() - p.len() && a == #[trigger] a.take(i) + p + a.skip(i + p.len()),
{
    assert((p + b).take(p.len() as int) =~= p);
    assert((a + p).skip(a.len() as int) =~= p);
    assert((a + p + b).subrange(a.len() as int, (a.len() + p.len()) as int) =~= p);
    assert(occurs_at(a + p + b, p, a.len() as int));
    if has_prefix(a, p) {
        assert(a =~= a.take(p.len() as int) + a.skip(p.len() as int));
    }
    if has_suffix(a, p) {
        assert(a =~= a.take(a.len() - p.len()) + a.skip(a.len() - p.len()));
    }
    if has_infix(a, p) {
        let i = choose|i: int| occurs_at(a, p, i);
        assert(a =~= a.take(i) + a.subrange(i, i + p.len()) + a.skip(i + p.len()));
    }
}

/// Spaces, tabs and line breaks are white space; what is printed in ASCII is not.
pub proof fn law_what_white_space_is(c: char)
    ensures
        is_white(' ') && is_white('\t') && is_white('\n') && is_white('\r'),
        '!' <= c <= '~' ==> !is_white(c),
        is_blank(seq![' ']),
{
    assert(seq![' '].drop_first() =~= Seq::<char>::empty());
    law_trimming_takes_white_space_off(seq![' ']);
    reveal_with_fuel(trimmed_start, 2);
}

} // verus!
