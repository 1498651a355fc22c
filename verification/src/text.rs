//! Text operations with their meaning stated over sequences of characters.

use vstd::prelude::*;
use vstd::utf8::*;

verus! {

/// The characters of each string of a sequence.
pub open spec fn strings(list: Seq<String>) -> Seq<Seq<char>> {
    list.map_values(|s: String| s@)
}

/// The characters of a text that may be missing.
pub open spec fn optional_text(s: Option<String>) -> Option<Seq<char>> {
    match s {
        None => None,
        Some(s) => Some(s@),
    }
}

/// The characters with the Unicode property `White_Space`.
pub open spec fn white_space(c: char) -> bool {
    let n = c as int;
    ||| 0x9 <= n <= 0xd
    ||| n == 0x20
    ||| n == 0x85
    ||| n == 0xa0
    ||| n == 0x1680
    ||| 0x2000 <= n <= 0x200a
    ||| n == 0x2028
    ||| n == 0x2029
    ||| n == 0x202f
    ||| n == 0x205f
    ||| n == 0x3000
}

/// `s` without its leading white space.
pub open spec fn trim_start(s: Seq<char>) -> Seq<char>
    decreases s.len(),
{
    if s.len() > 0 && white_space(s[0]) {
        trim_start(s.drop_first())
    } else {
        s
    }
}

/// `s` without its trailing white space.
pub open spec fn trim_end(s: Seq<char>) -> Seq<char>
    decreases s.len(),
{
    if s.len() > 0 && white_space(s.last()) {
        trim_end(s.drop_last())
    } else {
        s
    }
}

/// `s` without white space at either end.
pub open spec fn trimmed(s: Seq<char>) -> Seq<char> {
    trim_end(trim_start(s))
}

/// The pieces of `s` between the occurrences of `sep`: one more than `sep` occurs.
pub open spec fn split(s: Seq<char>, sep: char) -> Seq<Seq<char>>
    decreases s.len(),
{
    if s.len() == 0 {
        seq![s]
    } else {
        let pieces = split(s.drop_last(), sep);
        if s.last() == sep {
            pieces.push(Seq::empty())
        } else {
            pieces.drop_last().push(pieces.last().push(s.last()))
        }
    }
}

/// The pieces of `list` that hold at least one character, in order.
pub open spec fn non_empty(list: Seq<Seq<char>>) -> Seq<Seq<char>> {
    list.filter(|piece: Seq<char>| piece.len() > 0)
}

/// Whether `needle` occurs in `hay` at position `at`.
pub open spec fn occurs_at(hay: Seq<char>, needle: Seq<char>, at: int) -> bool {
    &&& 0 <= at
    &&& at + needle.len() <= hay.len()
    &&& hay.subrange(at, at + needle.len()) == needle
}

/// Whether `needle` occurs somewhere in `hay`.
pub open spec fn has_substring(hay: Seq<char>, needle: Seq<char>) -> bool {
    exists|at: int| occurs_at(hay, needle, at)
}

/// The text that lossy UTF-8 decoding makes of `bytes`.
pub uninterp spec fn utf8_lossy(bytes: Seq<u8>) -> Seq<char>;

/// Calls `String::from_utf8_lossy`. What comes back depends on the bytes alone;
/// bytes that are valid UTF-8 are decoded as they stand. What stands in place of
/// invalid bytes is not spelled out.
#[verifier::external_body]
pub(crate) fn decode_lossy(bytes: &[u8]) -> (text: String)
    ensures
        text@ == utf8_lossy(bytes@),
        valid_utf8(bytes@) ==> text@ == decode_utf8(bytes@),
{
    String::from_utf8_lossy(bytes).into_owned()
}

/// Whether `c` is white space.
pub fn is_white_space(c: char) -> (r: bool)
    ensures
        r == white_space(c),
{
    let n: u32 = c as u32;
    (0x9 <= n && n <= 0xd) || n == 0x20 || n == 0x85 || n == 0xa0 || n == 0x1680 || (0x2000 <= n
        && n <= 0x200a) || n == 0x2028 || n == 0x2029 || n == 0x202f || n == 0x205f || n == 0x3000
}

/// The characters of `s`, in order.
pub fn chars_of(s: &str) -> (r: Vec<char>)
    ensures
        r@ == s@,
{
    let mut r: Vec<char> = Vec::new();
    for c in iter: s.chars()
        invariant
            iter.seq() == s@,
            r@ == s@.take(iter.index() as int),
    {
        r.push(c);
        assert(s@.take(iter.index() + 1) =~= s@.take(iter.index() as int).push(c));
    }
    assert(s@.take(s@.len() as int) =~= s@);
    r
}

/// `s` without white space at either end.
pub fn trim(s: &str) -> (r: &str)
    ensures
        r@ == trimmed(s@),
{
    let chars = chars_of(s);
    let n: usize = chars.len();
    let mut start: usize = 0;
    assert(s@.skip(0) =~= s@);
    while start < n && is_white_space(chars[start])
        invariant
            start <= n,
            n == chars.len(),
            chars@ == s@,
            trim_start(s@) == trim_start(s@.skip(start as int)),
        decreases n - start,
    {
        assert(s@.skip(start as int).drop_first() =~= s@.skip(start + 1));
        start += 1;
    }
    let mut end: usize = n;
    assert(s@.skip(start as int) =~= s@.subrange(start as int, n as int));
    while end > start && is_white_space(chars[end - 1])
        invariant
            start <= end <= n,
            n == chars.len(),
            chars@ == s@,
            trimmed(s@) == trim_end(s@.subrange(start as int, end as int)),
        decreases end,
    {
        assert(s@.subrange(start as int, end as int).drop_last() =~= s@.subrange(
            start as int,
            end - 1,
        ));
        end -= 1;
    }
    s.substring_char(start, end)
}

/// The non-empty pieces of `s` between the occurrences of `sep`, in order.
pub fn split_non_empty(s: &str, sep: char) -> (r: Vec<String>)
    ensures
        strings(r@) == non_empty(split(s@, sep)),
{
    let chars = chars_of(s);
    let n: usize = chars.len();
    let mut r: Vec<String> = Vec::new();
    let mut start: usize = 0;
    let ghost mut done: Seq<Seq<char>> = Seq::empty();
    proof {
        reveal(Seq::filter);
        assert(strings(r@) =~= non_empty(done));
        assert(split(s@.take(0), sep) =~= done.push(s@.subrange(0, 0)));
    }
    for i in 0..n
        invariant
            start <= i <= n,
            n == chars.len(),
            chars@ == s@,
            split(s@.take(i as int), sep) == done.push(s@.subrange(start as int, i as int)),
            strings(r@) == non_empty(done),
    {
        let ghost before = s@.take(i as int);
        let ghost piece = s@.subrange(start as int, i as int);
        assert(s@.take(i + 1).drop_last() =~= before);
        if chars[i] == sep {
            proof {
                lemma_non_empty_push(done, piece);
                done = done.push(piece);
            }
            if start < i {
                r.push(s.substring_char(start, i).to_owned());
                assert(strings(r@) =~= non_empty(done));
            }
            start = i + 1;
            assert(s@.subrange(start as int, i + 1) =~= Seq::empty());
            assert(split(s@.take(i + 1), sep) =~= done.push(s@.subrange(start as int, i + 1)));
        } else {
            assert(done.push(piece).drop_last() =~= done);
            assert(piece.push(chars@[i as int]) =~= s@.subrange(start as int, i + 1));
        }
    }
    assert(s@.take(n as int) =~= s@);
    proof {
        lemma_non_empty_push(done, s@.subrange(start as int, n as int));
    }
    if start < n {
        r.push(s.substring_char(start, n).to_owned());
    }
    assert(strings(r@) =~= non_empty(split(s@, sep)));
    r
}

/// Appending a piece to a list appends it to the non-empty ones if it is not empty.
proof fn lemma_non_empty_push(list: Seq<Seq<char>>, piece: Seq<char>)
    ensures
        non_empty(list.push(piece)) == if piece.len() > 0 {
            non_empty(list).push(piece)
        } else {
            non_empty(list)
        },
{
    reveal(Seq::filter);
    assert(list.push(piece).drop_last() =~= list);
}

/// Whether `needle` occurs in `hay` at position `at`, compared character by character.
fn matches_at(hay: &Vec<char>, needle: &Vec<char>, at: usize) -> (r: bool)
    requires
        at + needle.len() <= hay.len(),
    ensures
        r == occurs_at(hay@, needle@, at as int),
{
    for k in 0..needle.len()
        invariant
            at + needle.len() <= hay.len(),
            forall|j: int| 0 <= j < k ==> hay@[at + j] == needle@[j],
    {
        if hay[at + k] != needle[k] {
            assert(hay@.subrange(at as int, at + needle@.len())[k as int] != needle@[k as int]);
            return false;
        }
    }
    assert(hay@.subrange(at as int, at + needle@.len()) =~= needle@);
    true
}

/// Whether `needle` occurs somewhere in `hay`.
pub fn contains(hay: &str, needle: &str) -> (r: bool)
    ensures
        r == has_substring(hay@, needle@),
{
    let hay_chars = chars_of(hay);
    let needle_chars = chars_of(needle);
    if needle_chars.len() > hay_chars.len() {
        return false;
    }
    let last: usize = hay_chars.len() - needle_chars.len();
    let mut at: usize = 0;
    loop
        invariant
            at <= last,
            last == hay_chars.len() - needle_chars.len(),
            hay_chars@ == hay@,
            needle_chars@ == needle@,
            forall|j: int| 0 <= j < at ==> !occurs_at(hay@, needle@, j),
        decreases last - at,
    {
        if matches_at(&hay_chars, &needle_chars, at) {
            return true;
        }
        if at == last {
            return false;
        }
        at += 1;
    }
}

/// Whether `a` and `b` hold the same characters.
pub fn same_text(a: &str, b: &str) -> (r: bool)
    ensures
        r == (a@ == b@),
{
    a.to_owned() == b.to_owned()
}

/// Trimming takes white space away at the ends, all of it and nothing else.
pub proof fn law_trimmed(s: Seq<char>)
    ensures
        trimmed(s).len() > 0 ==> !white_space(trimmed(s)[0]) && !white_space(trimmed(s).last()),
        exists|from: int, to: int|
            #![trigger s.subrange(from, to)]
            0 <= from <= to <= s.len() && trimmed(s) == s.subrange(from, to) && (forall|i: int|
                0 <= i < from || to <= i < s.len() ==> white_space(#[trigger] s[i])),
{
    let from = lemma_trim_start(s);
    let rest = s.skip(from);
    let to = lemma_trim_end(rest);
    assert(rest.take(to) =~= s.subrange(from, from + to));
    assert forall|i: int| 0 <= i < from || from + to <= i < s.len() implies white_space(
        #[trigger] s[i],
    ) by {
        if i >= from + to {
            assert(rest[i - from] == s[i]);
        }
    }
}

/// What trimming takes away at the start.
proof fn lemma_trim_start(s: Seq<char>) -> (from: int)
    ensures
        0 <= from <= s.len(),
        trim_start(s) == s.skip(from),
        forall|i: int| 0 <= i < from ==> white_space(#[trigger] s[i]),
        from < s.len() ==> !white_space(s[from]),
    decreases s.len(),
{
    if s.len() > 0 && white_space(s[0]) {
        let rest = s.drop_first();
        let at = lemma_trim_start(rest);
        assert(rest.skip(at) =~= s.skip(at + 1));
        assert forall|i: int| 0 <= i < at + 1 implies white_space(#[trigger] s[i]) by {
            if i > 0 {
                assert(rest[i - 1] == s[i]);
            }
        }
        at + 1
    } else {
        assert(s.skip(0) =~= s);
        0
    }
}

/// What trimming takes away at the end.
proof fn lemma_trim_end(s: Seq<char>) -> (to: int)
    ensures
        0 <= to <= s.len(),
        trim_end(s) == s.take(to),
        forall|i: int| to <= i < s.len() ==> white_space(#[trigger] s[i]),
        to > 0 ==> !white_space(s[to - 1]),
    decreases s.len(),
{
    if s.len() > 0 && white_space(s.last()) {
        let rest = s.drop_last();
        let to = lemma_trim_end(rest);
        assert(rest.take(to) =~= s.take(to));
        assert forall|i: int| to <= i < s.len() implies white_space(#[trigger] s[i]) by {
            if i < rest.len() {
                assert(rest[i] == s[i]);
            }
        }
        to
    } else {
        assert(s.take(s.len() as int) =~= s);
        s.len() as int
    }
}

/// `pieces` with `sep` between them.
pub open spec fn joined(pieces: Seq<Seq<char>>, sep: char) -> Seq<char>
    decreases pieces.len(),
{
    if pieces.len() == 0 {
        Seq::empty()
    } else if pieces.len() == 1 {
        pieces[0]
    } else {
        joined(pieces.drop_last(), sep).push(sep) + pieces.last()
    }
}

/// Splitting leaves no separator in a piece and loses nothing: with the separator
/// between them, the pieces are the text again.
pub proof fn law_split(s: Seq<char>, sep: char)
    ensures
        split(s, sep).len() > 0,
        forall|i: int| 0 <= i < split(s, sep).len() ==> !(#[trigger] split(s, sep)[i]).contains(sep),
        joined(split(s, sep), sep) == s,
    decreases s.len(),
{
    if s.len() > 0 {
        let init = s.drop_last();
        law_split(init, sep);
        let before = split(init, sep);
        let after = split(s, sep);
        assert(init.push(s.last()) =~= s);
        if s.last() == sep {
            assert(after.drop_last() =~= before);
            assert(joined(before, sep).push(sep) + Seq::<char>::empty() =~= s);
        } else {
            assert(after.drop_last() =~= before.drop_last());
            let piece = before.last();
            let longer = piece.push(s.last());
            assert(!before[before.len() - 1].contains(sep));
            assert(!longer.contains(sep)) by {
                if longer.contains(sep) {
                    let k = choose|k: int| 0 <= k < longer.len() && longer[k] == sep;
                    assert(piece[k] == sep);
                }
            }
            if before.len() > 1 {
                let head = joined(before.drop_last(), sep).push(sep);
                assert(head + longer =~= (head + piece).push(s.last()));
            }
        }
    }
}

/// What is left without the empty pieces was there before and is not empty.
pub proof fn law_non_empty(list: Seq<Seq<char>>, piece: Seq<char>)
    ensures
        non_empty(list).contains(piece) <==> list.contains(piece) && piece.len() > 0,
    decreases list.len(),
{
    reveal(Seq::filter);
    if list.len() > 0 {
        let init = list.drop_last();
        law_non_empty(init, piece);
        assert(init.push(list.last()) =~= list);
        lemma_push_contains(init, list.last(), piece);
        lemma_push_contains(non_empty(init), list.last(), piece);
    }
}

/// What is in a list with one more element.
pub(crate) proof fn lemma_push_contains(list: Seq<Seq<char>>, x: Seq<char>, t: Seq<char>)
    ensures
        list.push(x).contains(t) <==> list.contains(t) || t == x,
{
    if list.contains(t) {
        let i = choose|i: int| 0 <= i < list.len() && list[i] == t;
        assert(list.push(x)[i] == t);
    }
    assert(list.push(x)[list.len() as int] == x);
    if list.push(x).contains(t) && t != x {
        let i = choose|i: int| 0 <= i < list.push(x).len() && list.push(x)[i] == t;
        assert(list[i] == t);
    }
}

/// The texts of a list are those of its strings, one for one.
pub proof fn law_strings(list: Seq<String>)
    ensures
        strings(list).len() == list.len(),
        forall|i: int| 0 <= i < list.len() ==> #[trigger] strings(list)[i] == list[i]@,
{
}

/// A text that may be missing is there exactly where the string is, and is its text.
pub proof fn law_optional_text(s: Option<String>)
    ensures
        optional_text(s) is Some <==> s is Some,
        s is Some ==> optional_text(s) == Some(s->0@),
{
}

/// A text occurs in another exactly where the other is made of something, that text
/// and something.
pub proof fn law_has_substring(hay: Seq<char>, needle: Seq<char>)
    ensures
        has_substring(hay, needle) <==> exists|before: Seq<char>, after: Seq<char>| #[trigger]
            (before + needle + after) == hay,
{
    if has_substring(hay, needle) {
        let at = choose|at: int| occurs_at(hay, needle, at);
        let before = hay.take(at);
        let after = hay.skip(at + needle.len());
        assert(before + needle + after =~= hay) by {
            assert forall|i: int| 0 <= i < hay.len() implies (before + needle + after)[i]
                == hay[i] by {
                if at <= i < at + needle.len() {
                    assert(hay.subrange(at, at + needle.len())[i - at] == hay[i]);
                }
            }
        }
    }
    if exists|before: Seq<char>, after: Seq<char>| #[trigger] (before + needle + after) == hay {
        let (before, after) = choose|before: Seq<char>, after: Seq<char>| #[trigger]
            (before + needle + after) == hay;
        let at = before.len() as int;
        assert(hay.subrange(at, at + needle.len()) =~= needle);
        assert(occurs_at(hay, needle, at));
    }
}

/// White space around a text whose ends are none is what trimming takes away; of
/// white space alone nothing is left.
pub proof fn law_trimmed_of(before: Seq<char>, core: Seq<char>, after: Seq<char>)
    requires
        forall|i: int| 0 <= i < before.len() ==> white_space(#[trigger] before[i]),
        forall|i: int| 0 <= i < after.len() ==> white_space(#[trigger] after[i]),
        core.len() > 0 ==> !white_space(core[0]) && !white_space(core.last()),
    ensures
        trimmed(before + core + after) == core,
{
    let s = before + core + after;
    let from = lemma_trim_start(s);
    if core.len() == 0 {
        if from < s.len() {
            if from < before.len() {
                assert(s[from] == before[from]);
            } else {
                assert(s[from] == after[from - before.len()]);
            }
        }
        assert(s.skip(from) =~= core);
    } else {
        assert(from == before.len()) by {
            assert(s[before.len() as int] == core[0]);
            if from < before.len() {
                assert(s[from] == before[from]);
            }
            if from > before.len() {
                assert(white_space(s[before.len() as int]));
            }
        }
        let rest = s.skip(from);
        assert(rest =~= core + after);
        let to = lemma_trim_end(rest);
        assert(to == core.len()) by {
            assert(rest[core.len() - 1] == core.last());
            if to > core.len() {
                assert(rest[to - 1] == after[to - 1 - core.len()]);
            }
            if to < core.len() {
                assert(white_space(rest[core.len() - 1]));
            }
        }
        assert(rest.take(to) =~= core);
    }
}

/// A text without the separator is one piece.
pub proof fn law_split_whole(s: Seq<char>, sep: char)
    requires
        !s.contains(sep),
    ensures
        split(s, sep) == seq![s],
    decreases s.len(),
{
    if s.len() > 0 {
        let init = s.drop_last();
        assert(!init.contains(sep)) by {
            if init.contains(sep) {
                let k = choose|k: int| 0 <= k < init.len() && init[k] == sep;
                assert(s[k] == sep);
            }
        }
        law_split_whole(init, sep);
        assert(s[s.len() - 1] != sep);
        assert(init.push(s.last()) =~= s);
        assert(split(s, sep) =~= seq![s]);
    } else {
        assert(split(s, sep) =~= seq![s]);
    }
}

/// At a separator, the pieces are those before it and those after it.
pub proof fn law_split_at(before: Seq<char>, after: Seq<char>, sep: char)
    ensures
        split(before.push(sep) + after, sep) == split(before, sep) + split(after, sep),
    decreases after.len(),
{
    let s = before.push(sep) + after;
    if after.len() == 0 {
        assert(s =~= before.push(sep));
        assert(s.drop_last() =~= before);
        assert(split(after, sep) =~= seq![after]);
        assert(after =~= Seq::empty());
        assert(split(s, sep) =~= split(before, sep) + split(after, sep));
    } else {
        let init = after.drop_last();
        assert(s.drop_last() =~= before.push(sep) + init);
        law_split_at(before, init, sep);
        law_split(init, sep);
        let pieces = split(before, sep) + split(init, sep);
        assert(pieces.last() == split(init, sep).last());
        assert(pieces.drop_last() =~= split(before, sep) + split(init, sep).drop_last());
        assert(split(s, sep) =~= split(before, sep) + split(after, sep));
    }
}

/// The non-empty pieces of two lists in a row are those of the one, then those of
/// the other; of a single piece they are that piece, where it holds a character.
pub proof fn law_non_empty_parts(a: Seq<Seq<char>>, b: Seq<Seq<char>>, piece: Seq<char>)
    ensures
        non_empty(a + b) == non_empty(a) + non_empty(b),
        piece.len() > 0 ==> non_empty(seq![piece]) == seq![piece],
        piece.len() == 0 ==> non_empty(seq![piece]).len() == 0,
    decreases b.len(),
{
    reveal(Seq::filter);
    let none: Seq<Seq<char>> = Seq::empty();
    assert(seq![piece] =~= none.push(piece));
    lemma_non_empty_push(none, piece);
    assert(none.push(piece) =~= seq![piece]);
    if b.len() == 0 {
        assert(a + b =~= a);
        assert(non_empty(a) + non_empty(b) =~= non_empty(a));
    } else {
        let init = b.drop_last();
        law_non_empty_parts(a, init, piece);
        assert(a + b =~= (a + init).push(b.last()));
        assert(b =~= init.push(b.last()));
        lemma_non_empty_push(a + init, b.last());
        lemma_non_empty_push(init, b.last());
        assert(non_empty(a + b) =~= non_empty(a) + non_empty(b));
    }
}

/// White space are the control characters from tabulator to carriage return, the next
/// line, and the separators of Unicode: blanks of every width, the line and the
/// paragraph separator.
pub proof fn law_white_space(c: char)
    ensures
        white_space(c) <==> {
            ||| c == '\t' || c == '\n' || c == '\u{b}' || c == '\u{c}' || c == '\r'
            ||| c == ' ' || c == '\u{85}' || c == '\u{a0}' || c == '\u{1680}'
            ||| c == '\u{2000}' || c == '\u{2001}' || c == '\u{2002}' || c == '\u{2003}'
            ||| c == '\u{2004}' || c == '\u{2005}' || c == '\u{2006}' || c == '\u{2007}'
            ||| c == '\u{2008}' || c == '\u{2009}' || c == '\u{200a}'
            ||| c == '\u{2028}' || c == '\u{2029}' || c == '\u{202f}' || c == '\u{205f}'
            ||| c == '\u{3000}'
        },
{
}

} // verus!
