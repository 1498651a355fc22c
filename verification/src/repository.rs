//! Where the clone of a repository lies.

use vstd::prelude::*;
use vstd::utf8::*;

verus! {

/// The part of `s` that its bytes `from..to` encode in UTF-8.
pub open spec fn byte_part(s: Seq<char>, from: int, to: int) -> Seq<char> {
    decode_utf8(encode_utf8(s).subrange(from, to))
}

/// Whether the first two pairs of bytes of `owner`, where it is long enough to
/// have them, end between characters.
pub open spec fn owner_splits(owner: Seq<char>) -> bool {
    encode_utf8(owner).len() >= 4 ==> is_char_boundary(encode_utf8(owner), 2) && is_char_boundary(
        encode_utf8(owner),
        4,
    )
}

/// The directory of a repository's clone, below the base directory. Owners with
/// names of four bytes or more are spread over two levels, named by the first two
/// pairs of bytes; the rest of the name is left out, so that repositories of one
/// name can share one clone though their owners differ.
pub open spec fn subdir(owner: Seq<char>, repo: Seq<char>) -> Seq<char> {
    if encode_utf8(owner).len() < 4 {
        owner + "/"@ + repo
    } else {
        byte_part(owner, 0, 2) + "/"@ + byte_part(owner, 2, 4) + "/"@ + repo
    }
}

/// The directory of a repository's clone, below the base directory.
pub fn repository_subdir(owner: &str, repo: &str) -> (r: String)
    requires
        owner_splits(owner@),
    ensures
        r@ == subdir(owner@, repo@),
{
    if owner.as_bytes().len() < 4 {
        return owner.to_owned().concat("/").concat(repo);
    }
    let ghost bytes = encode_utf8(owner@);
    let (first, rest) = owner.split_at(2);
    proof {
        encode_utf8_valid_utf8(owner@);
        encode_utf8_decode_utf8(first@);
        encode_utf8_valid_utf8(rest@);
        if encode_utf8(rest@).len() == 2 {
            is_char_boundary_start_end_of_seq(encode_utf8(rest@));
        } else {
            is_char_boundary_iff_not_is_continuation_byte(bytes, 4);
            is_char_boundary_iff_not_is_continuation_byte(encode_utf8(rest@), 2);
        }
    }
    let (second, _) = rest.split_at(2);
    proof {
        encode_utf8_decode_utf8(second@);
        assert(encode_utf8(rest@).subrange(0, 2) =~= bytes.subrange(2, 4));
    }
    first.to_owned().concat("/").concat(second).concat("/").concat(repo)
}

/// A name of ASCII characters can always be split, and its parts are its first
/// two pairs of characters.
pub proof fn law_ascii_subdir(owner: Seq<char>, repo: Seq<char>)
    requires
        is_ascii_chars(owner),
    ensures
        owner_splits(owner),
        subdir(owner, repo) == if owner.len() < 4 {
            owner + "/"@ + repo
        } else {
            owner.subrange(0, 2) + "/"@ + owner.subrange(2, 4) + "/"@ + repo
        },
{
    is_ascii_chars_encode_utf8(owner);
    if owner.len() >= 4 {
        lemma_ascii_part(owner, 0, 2);
        lemma_ascii_part(owner, 2, 4);
        lemma_ascii_boundary(owner, 2);
        lemma_ascii_boundary(owner, 4);
    }
}

/// Owners whose names share their first four bytes share the directory of a
/// repository of one name.
pub proof fn law_shared_subdir(a: Seq<char>, b: Seq<char>, repo: Seq<char>)
    requires
        encode_utf8(a).len() >= 4,
        encode_utf8(b).len() >= 4,
        encode_utf8(a).subrange(0, 4) == encode_utf8(b).subrange(0, 4),
    ensures
        subdir(a, repo) == subdir(b, repo),
{
    let (x, y) = (encode_utf8(a), encode_utf8(b));
    assert(x.subrange(0, 2) =~= x.subrange(0, 4).subrange(0, 2));
    assert(y.subrange(0, 2) =~= y.subrange(0, 4).subrange(0, 2));
    assert(x.subrange(2, 4) =~= x.subrange(0, 4).subrange(2, 4));
    assert(y.subrange(2, 4) =~= y.subrange(0, 4).subrange(2, 4));
}

/// In ASCII text, bytes and characters have the same positions.
proof fn lemma_ascii_part(s: Seq<char>, from: int, to: int)
    requires
        is_ascii_chars(s),
        0 <= from <= to <= s.len(),
    ensures
        byte_part(s, from, to) == s.subrange(from, to),
{
    let part = s.subrange(from, to);
    assert(is_ascii_chars(part));
    is_ascii_chars_encode_utf8(s);
    is_ascii_chars_encode_utf8(part);
    assert(encode_utf8(part) =~= encode_utf8(s).subrange(from, to));
    encode_utf8_decode_utf8(part);
}

/// In ASCII text, every position is between characters.
proof fn lemma_ascii_boundary(s: Seq<char>, at: int)
    requires
        is_ascii_chars(s),
        0 <= at <= s.len(),
    ensures
        is_char_boundary(encode_utf8(s), at),
{
    let bytes = encode_utf8(s);
    encode_utf8_valid_utf8(s);
    is_ascii_chars_encode_utf8(s);
    if at == s.len() {
        is_char_boundary_start_end_of_seq(bytes);
    } else {
        let c = s[at];
        assert('\0' <= c <= '\u{7f}');
        assert(bytes[at] == c as u8);
        assert(bytes[at] <= 0x7f);
        is_char_boundary_iff_not_is_continuation_byte(bytes, at);
    }
}

/// An owner whose name encodes in fewer than four bytes has one level, named as they
/// are.
pub proof fn law_short_owner(owner: Seq<char>, repo: Seq<char>)
    requires
        encode_utf8(owner).len() < 4,
    ensures
        owner_splits(owner),
        subdir(owner, repo) == owner + "/"@ + repo,
{
}

/// An owner whose name starts with two parts of two bytes each has two levels, named
/// by these parts, whatever follows them.
pub proof fn law_long_owner(first: Seq<char>, second: Seq<char>, rest: Seq<char>, repo: Seq<char>)
    requires
        encode_utf8(first).len() == 2,
        encode_utf8(second).len() == 2,
    ensures
        owner_splits(first + second + rest),
        subdir(first + second + rest, repo) == first + "/"@ + second + "/"@ + repo,
{
    let owner = first + second + rest;
    let bytes = encode_utf8(owner);
    lemma_encode_concat(first + second, rest);
    lemma_encode_concat(first, second);
    assert(bytes.subrange(0, 2) =~= encode_utf8(first));
    assert(bytes.subrange(2, 4) =~= encode_utf8(second));
    encode_utf8_decode_utf8(first);
    encode_utf8_decode_utf8(second);
    lemma_boundary_between(first, second + rest);
    assert(first + (second + rest) =~= owner);
    lemma_boundary_between(first + second, rest);
}

/// A name that can be split is short or starts with two parts of two bytes each.
pub proof fn law_owner_splits(owner: Seq<char>)
    requires
        owner_splits(owner),
    ensures
        encode_utf8(owner).len() < 4 || exists|first: Seq<char>, second: Seq<char>, rest: Seq<char>|
            encode_utf8(first).len() == 2 && encode_utf8(second).len() == 2 && #[trigger] (first
                + second + rest) == owner,
{
    let bytes = encode_utf8(owner);
    if bytes.len() >= 4 {
        encode_utf8_valid_utf8(owner);
        encode_utf8_decode_utf8(owner);
        valid_utf8_split(bytes, 4);
        decode_utf8_split(bytes, 4);
        let head = bytes.subrange(0, 4);
        let tail = bytes.subrange(4, bytes.len() as int);
        let head_chars = decode_utf8(head);
        decode_utf8_encode_utf8(head);
        is_char_boundary_iff_not_is_continuation_byte(bytes, 2);
        is_char_boundary_iff_not_is_continuation_byte(head, 2);
        valid_utf8_split(head, 2);
        decode_utf8_split(head, 2);
        let first = decode_utf8(head.subrange(0, 2));
        let second = decode_utf8(head.subrange(2, 4));
        decode_utf8_encode_utf8(head.subrange(0, 2));
        decode_utf8_encode_utf8(head.subrange(2, 4));
        assert(first + second + decode_utf8(tail) =~= owner);
    }
}

/// Texts in a row are encoded in a row.
proof fn lemma_encode_concat(a: Seq<char>, b: Seq<char>)
    ensures
        encode_utf8(a + b) == encode_utf8(a) + encode_utf8(b),
    decreases a.len(),
{
    if a.len() == 0 {
        assert(a + b =~= b);
        assert(encode_utf8(a) =~= Seq::empty());
        assert(encode_utf8(a) + encode_utf8(b) =~= encode_utf8(b));
    } else {
        assert((a + b).drop_first() =~= a.drop_first() + b);
        lemma_encode_concat(a.drop_first(), b);
        assert(encode_utf8(a + b) =~= encode_utf8(a) + encode_utf8(b));
    }
}

/// Between two texts in a row there is a boundary between characters.
proof fn lemma_boundary_between(a: Seq<char>, b: Seq<char>)
    ensures
        is_char_boundary(encode_utf8(a + b), encode_utf8(a).len() as int),
    decreases a.len(),
{
    let bytes = encode_utf8(a + b);
    encode_utf8_valid_utf8(a + b);
    if a.len() == 0 {
        is_char_boundary_start_end_of_seq(bytes);
        assert(encode_utf8(a) =~= Seq::empty());
    } else {
        let rest = a.drop_first();
        assert((a + b).drop_first() =~= rest + b);
        lemma_boundary_between(rest, b);
        encode_utf8_first_scalar(a + b);
        assert(pop_first_scalar(bytes) =~= encode_utf8(rest + b));
        lemma_encode_concat(a, b);
    }
}

} // verus!
