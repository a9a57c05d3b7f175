//! Text as Unicode characters, worked on through its UTF-8 bytes.

use vstd::prelude::*;
use vstd::string::*;
use vstd::utf8::*;

verus! {

/// What a list of texts holds.
pub open spec fn texts(list: Seq<String>) -> Seq<Seq<char>> {
    list.map_values(|s: String| s@)
}

/// `pattern` occurs in `text` from character `at` on.
pub open spec fn occurs_at(text: Seq<char>, pattern: Seq<char>, at: int) -> bool {
    &&& 0 <= at <= text.len() - pattern.len()
    &&& text.subrange(at, at + pattern.len()) == pattern
}

/// `pattern` occurs somewhere in `text`.
pub open spec fn occurs_in(text: Seq<char>, pattern: Seq<char>) -> bool {
    exists|at: int| occurs_at(text, pattern, at)
}

/// What follows the last `/` of `text`, or all of it where there is none.
pub open spec fn last_segment(text: Seq<char>) -> Seq<char>
    decreases text.len(),
{
    if text.len() == 0 || text.last() == '/' {
        Seq::empty()
    } else {
        last_segment(text.drop_last()).push(text.last())
    }
}

/// `text` without the slashes at its end.
pub open spec fn without_trailing_slashes(text: Seq<char>) -> Seq<char>
    decreases text.len(),
{
    if text.len() > 0 && text.last() == '/' {
        without_trailing_slashes(text.drop_last())
    } else {
        text
    }
}

proof fn lemma_encode_concat(a: Seq<char>, b: Seq<char>)
    ensures
        encode_utf8(a + b) == encode_utf8(a) + encode_utf8(b),
    decreases a.len(),
{
    if a.len() == 0 {
        assert(a + b =~= b);
    } else {
        lemma_encode_concat(a.drop_first(), b);
        assert((a + b).drop_first() =~= a.drop_first() + b);
    }
}

proof fn lemma_encode_injective(a: Seq<char>, b: Seq<char>)
    requires
        encode_utf8(a) == encode_utf8(b),
    ensures
        a == b,
{
    encode_utf8_decode_utf8(a);
    encode_utf8_decode_utf8(b);
}

/// Bytes that start with the encoding of `p` encode `p` and a rest.
pub(crate) proof fn lemma_encoded_prefix(s: Seq<char>, p: Seq<char>)
    requires
        encode_utf8(p).len() <= encode_utf8(s).len(),
        encode_utf8(s).subrange(0, encode_utf8(p).len() as int) == encode_utf8(p),
    ensures
        p.len() <= s.len(),
        s.subrange(0, p.len() as int) == p,
{
    let bytes = encode_utf8(s);
    let n = encode_utf8(p).len() as int;
    let rest = bytes.subrange(n, bytes.len() as int);
    encode_utf8_valid_utf8(s);
    encode_utf8_valid_utf8(p);
    if !valid_utf8(rest) {
        partial_valid_partial_invalid_utf8(bytes, n);
    }
    let q = decode_utf8(rest);
    decode_utf8_encode_utf8(rest);
    lemma_encode_concat(p, q);
    assert(bytes =~= encode_utf8(p) + rest);
    lemma_encode_injective(s, p + q);
    assert((p + q).subrange(0, p.len() as int) =~= p);
}

/// Where the encoding of a non-empty text stands among bytes, a character starts.
proof fn lemma_encoded_starts_on_boundary(s: Seq<char>, p: Seq<char>, at: int)
    requires
        p.len() > 0,
        0 <= at <= encode_utf8(s).len() - encode_utf8(p).len(),
        encode_utf8(s).subrange(at, at + encode_utf8(p).len()) == encode_utf8(p),
    ensures
        encode_utf8(p).len() > 0,
        is_char_boundary(encode_utf8(s), at),
{
    let bytes = encode_utf8(s);
    encode_utf8_valid_utf8(s);
    encode_utf8_first_scalar(p);
    assert(encode_utf8(p)[0] == bytes[at]);
    is_char_boundary_iff_not_is_continuation_byte(bytes, at);
}

/// A character boundary parts a text into the two texts that its bytes encode there.
proof fn lemma_split_at_boundary(s: Seq<char>, at: int) -> (parts: (Seq<char>, Seq<char>))
    requires
        0 <= at <= encode_utf8(s).len(),
        is_char_boundary(encode_utf8(s), at),
    ensures
        s == parts.0 + parts.1,
        encode_utf8(parts.0) == encode_utf8(s).subrange(0, at),
        encode_utf8(parts.1) == encode_utf8(s).subrange(at, encode_utf8(s).len() as int),
{
    let bytes = encode_utf8(s);
    encode_utf8_valid_utf8(s);
    valid_utf8_split(bytes, at);
    let a = decode_utf8(bytes.subrange(0, at));
    let b = decode_utf8(bytes.subrange(at, bytes.len() as int));
    decode_utf8_encode_utf8(bytes.subrange(0, at));
    decode_utf8_encode_utf8(bytes.subrange(at, bytes.len() as int));
    decode_utf8_split(bytes, at);
    encode_utf8_decode_utf8(s);
    (a, b)
}

/// Whether the bytes of `part` stand in `bytes` from index `at` on.
fn bytes_at(bytes: &[u8], part: &[u8], at: usize) -> (found: bool)
    requires
        at + part@.len() <= bytes@.len(),
    ensures
        found == (bytes@.subrange(at as int, at + part@.len()) == part@),
{
    let end: usize = bytes.len();
    let mut i: usize = 0;
    while i < part.len()
        invariant
            i <= part@.len(),
            end == bytes@.len(),
            at + part@.len() <= end,
            forall|j: int| 0 <= j < i ==> bytes@[at + j] == #[trigger] part@[j],
        decreases part@.len() - i,
    {
        if bytes[at + i] != part[i] {
            assert(bytes@.subrange(at as int, at + part@.len())[i as int] != part@[i as int]);
            return false;
        }
        i += 1;
    }
    assert(bytes@.subrange(at as int, at + part@.len()) =~= part@);
    true
}

/// Whether two texts are the same.
pub fn same_text(a: &str, b: &str) -> (same: bool)
    ensures
        same == (a@ == b@),
{
    let x = a.as_bytes();
    let y = b.as_bytes();
    if x.len() != y.len() {
        return false;
    }
    let same = bytes_at(x, y, 0);
    assert(x@.subrange(0, y@.len() as int) =~= x@);
    proof {
        if same {
            lemma_encode_injective(a@, b@);
        }
    }
    same
}

/// Whether `text` begins with `prefix`.
pub fn begins_with(text: &str, prefix: &str) -> (found: bool)
    ensures
        found == prefix@.is_prefix_of(text@),
{
    let x = text.as_bytes();
    let y = prefix.as_bytes();
    proof {
        if prefix@.is_prefix_of(text@) {
            let rest = text@.subrange(prefix@.len() as int, text@.len() as int);
            assert(text@ =~= prefix@ + rest);
            lemma_encode_concat(prefix@, rest);
            assert(x@.subrange(0, y@.len() as int) =~= y@);
        }
    }
    if x.len() < y.len() {
        return false;
    }
    let found = bytes_at(x, y, 0);
    proof {
        if found {
            lemma_encoded_prefix(text@, prefix@);
        }
    }
    found
}

/// Whether `text` ends with `suffix`.
pub fn finishes_with(text: &str, suffix: &str) -> (found: bool)
    ensures
        found == suffix@.is_suffix_of(text@),
{
    let x = text.as_bytes();
    let y = suffix.as_bytes();
    proof {
        if suffix@.is_suffix_of(text@) {
            let rest = text@.subrange(0, text@.len() - suffix@.len());
            assert(text@ =~= rest + suffix@);
            lemma_encode_concat(rest, suffix@);
            assert(x@.subrange(x@.len() - y@.len(), x@.len() as int) =~= y@);
        }
    }
    if x.len() < y.len() {
        return false;
    }
    let at = x.len() - y.len();
    let found = bytes_at(x, y, at);
    proof {
        if found && suffix@.len() > 0 {
            lemma_encoded_starts_on_boundary(text@, suffix@, at as int);
            let parts = lemma_split_at_boundary(text@, at as int);
            assert(at + y@.len() == x@.len());
            lemma_encode_injective(parts.1, suffix@);
        }
    }
    found
}

/// Where the bytes of a pattern stand in those of a text, the pattern occurs in
/// the text.
proof fn lemma_found_bytes_occur(text: Seq<char>, pattern: Seq<char>, at: int)
    requires
        pattern.len() > 0,
        0 <= at,
        at + encode_utf8(pattern).len() <= encode_utf8(text).len(),
        encode_utf8(text).subrange(at, at + encode_utf8(pattern).len()) == encode_utf8(pattern),
    ensures
        occurs_in(text, pattern),
{
    let n = encode_utf8(pattern).len() as int;
    lemma_encoded_starts_on_boundary(text, pattern, at);
    let parts = lemma_split_at_boundary(text, at);
    assert(encode_utf8(parts.1).subrange(0, n) =~= encode_utf8(text).subrange(at, at + n));
    lemma_encoded_prefix(parts.1, pattern);
    let k = parts.0.len() as int;
    assert(text.subrange(k, k + pattern.len()) =~= parts.1.subrange(0, pattern.len() as int));
    assert(occurs_at(text, pattern, k));
}

/// Where a pattern occurs in a text, its bytes stand in those of the text.
proof fn lemma_occurring_bytes_found(text: Seq<char>, pattern: Seq<char>) -> (at: int)
    requires
        occurs_in(text, pattern),
    ensures
        0 <= at,
        at + encode_utf8(pattern).len() <= encode_utf8(text).len(),
        encode_utf8(text).subrange(at, at + encode_utf8(pattern).len()) == encode_utf8(pattern),
{
    let k = choose|k: int| occurs_at(text, pattern, k);
    let before = text.subrange(0, k);
    let after = text.subrange(k + pattern.len(), text.len() as int);
    assert(text =~= before + (pattern + after));
    lemma_encode_concat(before, pattern + after);
    lemma_encode_concat(pattern, after);
    let at = encode_utf8(before).len() as int;
    assert(encode_utf8(text).subrange(at, at + encode_utf8(pattern).len()) =~= encode_utf8(
        pattern,
    ));
    at
}

/// Whether `pattern` occurs in `text`.
pub fn holds(text: &str, pattern: &str) -> (found: bool)
    ensures
        found == occurs_in(text@, pattern@),
{
    let x = text.as_bytes();
    let y = pattern.as_bytes();
    if y.len() == 0 {
        proof {
            if pattern@.len() > 0 {
                encode_utf8_first_scalar(pattern@);
            }
            assert(occurs_at(text@, pattern@, 0)) by {
                assert(text@.subrange(0, 0) =~= pattern@);
            }
        }
        return true;
    }
    let mut at: usize = 0;
    while at < x.len() && y.len() <= x.len() - at
        invariant
            x@ == encode_utf8(text@),
            y@ == encode_utf8(pattern@),
            y@.len() > 0,
            at <= x@.len(),
            forall|j: int|
                0 <= j < at && j + y@.len() <= x@.len() ==> #[trigger] x@.subrange(
                    j,
                    j + y@.len(),
                ) != y@,
        decreases x@.len() - at,
    {
        if bytes_at(x, y, at) {
            proof {
                assert(pattern@.len() > 0);
                lemma_found_bytes_occur(text@, pattern@, at as int);
            }
            return true;
        }
        at += 1;
    }
    proof {
        if occurs_in(text@, pattern@) {
            let j = lemma_occurring_bytes_found(text@, pattern@);
            assert(x@.subrange(j, j + y@.len()) == y@);
        }
    }
    false
}

/// The end of a first text is a character boundary of what it begins.
pub(crate) proof fn lemma_boundary_after(a: Seq<char>, b: Seq<char>)
    ensures
        encode_utf8(a + b) == encode_utf8(a) + encode_utf8(b),
        is_char_boundary(encode_utf8(a + b), encode_utf8(a).len() as int),
{
    let bytes = encode_utf8(a + b);
    let n = encode_utf8(a).len() as int;
    lemma_encode_concat(a, b);
    encode_utf8_valid_utf8(a + b);
    if b.len() == 0 {
        assert(encode_utf8(b).len() == 0);
        is_char_boundary_start_end_of_seq(bytes);
    } else {
        encode_utf8_first_scalar(b);
        assert(bytes[n] == encode_utf8(b)[0]);
        is_char_boundary_iff_not_is_continuation_byte(bytes, n);
    }
}

proof fn lemma_encode_slash()
    ensures
        encode_utf8(seq!['/']) == seq![0x2fu8],
{
    is_ascii_chars_encode_utf8(seq!['/']);
    assert(encode_utf8(seq!['/']) =~= seq![0x2fu8]);
}

/// A byte `0x2f` among the bytes of a text is one of its slashes.
proof fn lemma_slash_byte(s: Seq<char>, at: int) -> (parts: (Seq<char>, Seq<char>))
    requires
        0 <= at < encode_utf8(s).len(),
        encode_utf8(s)[at] == 0x2f,
    ensures
        s == parts.0 + seq!['/'] + parts.1,
        encode_utf8(parts.0) == encode_utf8(s).subrange(0, at),
        encode_utf8(parts.1) == encode_utf8(s).subrange(at + 1, encode_utf8(s).len() as int),
{
    let bytes = encode_utf8(s);
    encode_utf8_valid_utf8(s);
    is_char_boundary_iff_not_is_continuation_byte(bytes, at);
    let halves = lemma_split_at_boundary(s, at);
    let tail = halves.1;
    lemma_encode_slash();
    assert(encode_utf8(tail).subrange(0, 1) =~= seq![0x2fu8]);
    lemma_encoded_prefix(tail, seq!['/']);
    let rest = tail.subrange(1, tail.len() as int);
    assert(tail =~= seq!['/'] + rest);
    lemma_encode_concat(seq!['/'], rest);
    assert(encode_utf8(rest) =~= encode_utf8(tail).subrange(1, encode_utf8(tail).len() as int));
    assert(encode_utf8(rest) =~= bytes.subrange(at + 1, bytes.len() as int));
    assert(s =~= halves.0 + seq!['/'] + rest);
    (halves.0, rest)
}

/// Every slash of a text is a byte `0x2f` of it.
proof fn lemma_slash_char(s: Seq<char>, k: int)
    requires
        0 <= k < s.len(),
        s[k] == '/',
    ensures
        exists|at: int| 0 <= at < encode_utf8(s).len() && #[trigger] encode_utf8(s)[at] == 0x2f,
{
    let a = s.subrange(0, k);
    let b = s.subrange(k + 1, s.len() as int);
    assert(s =~= a + (seq!['/'] + b));
    lemma_encode_concat(a, seq!['/'] + b);
    lemma_encode_concat(seq!['/'], b);
    lemma_encode_slash();
    assert(encode_utf8(s)[encode_utf8(a).len() as int] == 0x2f);
}

proof fn lemma_last_segment_after_slash(a: Seq<char>, b: Seq<char>)
    requires
        !b.contains('/'),
    ensures
        last_segment(a + seq!['/'] + b) == b,
    decreases b.len(),
{
    let s = a + seq!['/'] + b;
    if b.len() == 0 {
        assert(s.last() == '/');
        assert(last_segment(s) =~= b);
    } else {
        assert(b[b.len() - 1] != '/');
        assert(!b.drop_last().contains('/')) by {
            assert forall|i: int| 0 <= i < b.len() - 1 implies b.drop_last()[i] != '/' by {
                assert(b[i] != '/');
            }
        }
        lemma_last_segment_after_slash(a, b.drop_last());
        assert(s.drop_last() =~= a + seq!['/'] + b.drop_last());
        assert(b.drop_last().push(b.last()) =~= b);
    }
}

proof fn lemma_last_segment_whole(s: Seq<char>)
    requires
        !s.contains('/'),
    ensures
        last_segment(s) == s,
    decreases s.len(),
{
    if s.len() > 0 {
        assert(s[s.len() - 1] != '/');
        assert(!s.drop_last().contains('/')) by {
            assert forall|i: int| 0 <= i < s.len() - 1 implies s.drop_last()[i] != '/' by {
                assert(s[i] != '/');
            }
        }
        lemma_last_segment_whole(s.drop_last());
        assert(s.drop_last().push(s.last()) =~= s);
    } else {
        assert(last_segment(s) =~= s);
    }
}

/// The part of `text` after its last slash.
pub fn after_last_slash(text: &str) -> (segment: &str)
    ensures
        segment@ == last_segment(text@),
{
    let bytes = text.as_bytes();
    let mut n: usize = bytes.len();
    while n > 0
        invariant
            bytes@ == encode_utf8(text@),
            n <= bytes@.len(),
            forall|j: int| n <= j < bytes@.len() ==> #[trigger] bytes@[j] != 0x2f,
        decreases n,
    {
        if bytes[n - 1] == 0x2f {
            let ghost parts = lemma_slash_byte(text@, n - 1);
            proof {
                let head = parts.0 + seq!['/'];
                lemma_boundary_after(head, parts.1);
                assert(encode_utf8(head).len() == n);
                if parts.1.contains('/') {
                    let k = choose|k: int| 0 <= k < parts.1.len() && parts.1[k] == '/';
                    lemma_slash_char(parts.1, k);
                    let at = choose|at: int|
                        0 <= at < encode_utf8(parts.1).len() && #[trigger] encode_utf8(parts.1)[at]
                            == 0x2f;
                    assert(bytes@[n + at] == 0x2f);
                }
                lemma_last_segment_after_slash(parts.0, parts.1);
            }
            let (_, segment) = text.split_at(n);
            proof {
                lemma_encode_injective(segment@, parts.1);
            }
            return segment;
        }
        n -= 1;
    }
    proof {
        if text@.contains('/') {
            let k = choose|k: int| 0 <= k < text@.len() && text@[k] == '/';
            lemma_slash_char(text@, k);
        }
        lemma_last_segment_whole(text@);
    }
    text
}

/// `text` with the slashes at its end cut off.
pub fn trim_trailing_slashes(text: &str) -> (trimmed: &str)
    ensures
        trimmed@ == without_trailing_slashes(text@),
{
    let bytes = text.as_bytes();
    let mut n: usize = bytes.len();
    let ghost mut kept = text@;
    proof {
        assert(bytes@.subrange(0, n as int) =~= bytes@);
        assert(text@ =~= kept + Seq::<char>::empty());
    }
    let ghost mut cut = Seq::<char>::empty();
    while n > 0 && bytes[n - 1] == 0x2f
        invariant
            bytes@ == encode_utf8(text@),
            n <= bytes@.len(),
            text@ == kept + cut,
            encode_utf8(kept) == bytes@.subrange(0, n as int),
            without_trailing_slashes(text@) == without_trailing_slashes(kept),
        decreases n,
    {
        proof {
            let parts = lemma_slash_byte(kept, n - 1);
            assert(encode_utf8(parts.1).len() == 0);
            lemma_encode_injective(parts.1, Seq::empty());
            assert(kept =~= parts.0.push('/'));
            assert(kept.drop_last() =~= parts.0);
            cut = seq!['/'] + cut;
            kept = parts.0;
            assert(text@ =~= kept + cut);
            assert(encode_utf8(kept) =~= bytes@.subrange(0, n - 1));
        }
        n -= 1;
    }
    proof {
        lemma_boundary_after(kept, cut);
        if kept.len() > 0 && kept.last() == '/' {
            let front = kept.drop_last();
            assert(kept =~= front + seq!['/']);
            lemma_encode_concat(front, seq!['/']);
            lemma_encode_slash();
            assert(encode_utf8(kept).last() == 0x2f);
        }
    }
    let (trimmed, _) = text.split_at(n);
    proof {
        lemma_encode_injective(trimmed@, kept);
    }
    trimmed
}

/// A list of texts holds one sequence of characters for each, in their order.
pub proof fn law_texts_are_views(list: Seq<String>)
    ensures
        texts(list).len() == list.len(),
        forall|i: int| 0 <= i < list.len() ==> #[trigger] texts(list)[i] == list[i]@,
{
}

/// Whatever stands before and after a pattern, it occurs there.
pub proof fn law_part_occurs(before: Seq<char>, pattern: Seq<char>, after: Seq<char>)
    ensures
        occurs_in(before + pattern + after, pattern),
{
    let text = before + pattern + after;
    let at = before.len() as int;
    assert(text.subrange(at, at + pattern.len()) =~= pattern);
    assert(occurs_at(text, pattern, at));
}

/// Where a pattern occurs, the text is made up of something before it, the
/// pattern and something after it.
pub proof fn law_occurrence_parts_text(text: Seq<char>, pattern: Seq<char>) -> (parts: (
    Seq<char>,
    Seq<char>,
))
    requires
        occurs_in(text, pattern),
    ensures
        text == parts.0 + pattern + parts.1,
{
    let at = choose|at: int| occurs_at(text, pattern, at);
    let before = text.subrange(0, at);
    let after = text.subrange(at + pattern.len(), text.len() as int);
    assert(text =~= before + pattern + after);
    (before, after)
}

/// The last segment of a text is what follows a slash and holds none, or all of
/// a text without slashes.
pub proof fn law_last_segment_follows_last_slash(before: Seq<char>, segment: Seq<char>)
    requires
        !segment.contains('/'),
    ensures
        last_segment(before + seq!['/'] + segment) == segment,
        last_segment(segment) == segment,
{
    lemma_last_segment_after_slash(before, segment);
    lemma_last_segment_whole(segment);
}

/// Any number of slashes at the end of a text is cut off, and nothing else.
pub proof fn law_all_trailing_slashes_are_cut(text: Seq<char>, slashes: Seq<char>)
    requires
        text.len() == 0 || text.last() != '/',
        forall|i: int| 0 <= i < slashes.len() ==> #[trigger] slashes[i] == '/',
    ensures
        without_trailing_slashes(text + slashes) == text,
    decreases slashes.len(),
{
    if slashes.len() == 0 {
        assert(text + slashes =~= text);
    } else {
        let fewer = slashes.drop_last();
        assert forall|i: int| 0 <= i < fewer.len() implies #[trigger] fewer[i] == '/' by {
            assert(fewer[i] == slashes[i]);
        }
        law_all_trailing_slashes_are_cut(text, fewer);
        assert((text + slashes).last() == slashes[slashes.len() - 1]);
        assert((text + slashes).drop_last() =~= text + fewer);
    }
}

} // verus!
