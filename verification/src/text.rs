use vstd::prelude::*;
use vstd::utf8::encode_utf8_decode_utf8;

verus! {

/// The characters of a text that may be absent.
pub open spec fn text_of(text: Option<String>) -> Option<Seq<char>> {
    match text {
        Some(held) => Some(held@),
        None => None,
    }
}

/// Whether two strings hold the same characters.
pub fn text_eq(a: &str, b: &str) -> (same: bool)
    ensures
        same == (a@ == b@),
{
    let x = a.as_bytes();
    let y = b.as_bytes();
    proof {
        encode_utf8_decode_utf8(a@);
        encode_utf8_decode_utf8(b@);
    }
    if x.len() != y.len() {
        return false;
    }
    let mut i: usize = 0;
    while i < x.len()
        invariant
            x@.len() == y@.len(),
            a@ == b@ ==> x@ == y@,
            i <= x@.len(),
            forall|j: int| 0 <= j < i ==> x@[j] == y@[j],
        decreases x@.len() - i,
    {
        if x[i] != y[i] {
            return false;
        }
        i += 1;
    }
    assert(x@ =~= y@);
    true
}

/// Position of the first `needle` in `s` at or after `from`, or the length of `s`.
pub open spec fn find_from(s: Seq<char>, needle: char, from: int) -> int
    decreases s.len() - from,
{
    if from < 0 || from >= s.len() {
        s.len() as int
    } else if s[from] == needle {
        from
    } else {
        find_from(s, needle, from + 1)
    }
}

/// Searches `s` for `needle`, starting at character position `from`.
pub fn find_char(s: &str, needle: char, from: usize) -> (at: usize)
    ensures
        at == find_from(s@, needle, from as int),
{
    let len = s.unicode_len();
    let mut at: usize = 0;
    let mut found = false;
    for c in it: s.chars()
        invariant
            it.seq() == s@,
            len == s@.len(),
            found ==> from <= at < it.index() && s@[at as int] == needle,
            !found ==> at == it.index(),
            forall|j: int| from <= j < at ==> s@[j] != needle,
    {
        if !found {
            if at >= from && c == needle {
                found = true;
            } else {
                at = at + 1;
            }
        }
    }
    proof {
        if from <= at {
            lemma_find_from(s@, needle, from as int, at as int);
        }
    }
    at
}

/// A search ends at the first needle after a stretch that holds none, or at the end.
pub proof fn lemma_find_from(s: Seq<char>, needle: char, from: int, at: int)
    requires
        0 <= from <= at <= s.len(),
        forall|j: int| from <= j < at ==> s[j] != needle,
        at < s.len() ==> s[at] == needle,
    ensures
        find_from(s, needle, from) == at,
    decreases at - from,
{
    if from < at {
        lemma_find_from(s, needle, from + 1, at);
    }
}

/// The identifier cut before its second `/`: the `owner/name` form of a repository.
///
/// An identifier with fewer than two `/` is its own canonical form.
pub open spec fn canonical_identifier(s: Seq<char>) -> Seq<char> {
    s.take(find_from(s, '/', find_from(s, '/', 0) + 1))
}

/// Searching a prefix finds what searching the whole finds, as far as the prefix reaches.
pub proof fn lemma_find_in_prefix(s: Seq<char>, needle: char, from: int, cut: int)
    requires
        0 <= from,
        0 <= cut <= s.len(),
    ensures
        find_from(s.take(cut), needle, from) == if find_from(s, needle, from) < cut {
            find_from(s, needle, from)
        } else {
            cut
        },
    decreases s.len() - from,
{
    if from < cut {
        if s[from] != needle {
            lemma_find_in_prefix(s, needle, from + 1, cut);
        }
    } else if from < s.len() {
        lemma_find_bounds(s, needle, from);
    }
}

/// A search from `from` ends between `from` and the end, unless `from` lies beyond the end.
pub proof fn lemma_find_bounds(s: Seq<char>, needle: char, from: int)
    requires
        0 <= from,
    ensures
        from <= s.len() ==> from <= find_from(s, needle, from) <= s.len(),
        from > s.len() ==> find_from(s, needle, from) == s.len(),
        find_from(s, needle, from) < s.len() ==> s[find_from(s, needle, from)] == needle,
    decreases s.len() - from,
{
    if from < s.len() && s[from] != needle {
        lemma_find_bounds(s, needle, from + 1);
    }
}

/// Cutting an identifier that is already cut changes nothing.
pub proof fn lemma_canonical_idempotent(s: Seq<char>)
    ensures
        canonical_identifier(canonical_identifier(s)) == canonical_identifier(s),
{
    let first = find_from(s, '/', 0);
    lemma_find_bounds(s, '/', 0);
    lemma_find_bounds(s, '/', first + 1);
    let cut = find_from(s, '/', first + 1);
    let t = s.take(cut);
    lemma_find_in_prefix(s, '/', 0, cut);
    if first < s.len() {
        lemma_find_in_prefix(s, '/', first + 1, cut);
        assert(find_from(t, '/', first + 1) == cut);
    } else {
        assert(t =~= s);
    }
    assert(t.take(t.len() as int) =~= t);
}

/// Whether a text holds no `/`.
pub open spec fn is_segment(s: Seq<char>) -> bool {
    forall|i: int| 0 <= i < s.len() ==> s[i] != '/'
}

/// Of an identifier of more than two segments, the first two are kept and the rest is
/// dropped; one of two segments, or of one, stays as it is.
pub proof fn lemma_canonical_of_segments(owner: Seq<char>, name: Seq<char>, rest: Seq<char>)
    requires
        is_segment(owner),
        is_segment(name),
    ensures
        canonical_identifier(owner + seq!['/'] + name + seq!['/'] + rest) == owner + seq!['/']
            + name,
        canonical_identifier(owner + seq!['/'] + name) == owner + seq!['/'] + name,
        canonical_identifier(owner) == owner,
{
    let two = owner + seq!['/'] + name;
    let more = two + seq!['/'] + rest;
    let first = owner.len() as int;
    let second = two.len() as int;
    lemma_find_from(more, '/', 0, first);
    lemma_find_from(more, '/', first + 1, second);
    assert(more.take(second) =~= two);
    lemma_find_from(two, '/', 0, first);
    lemma_find_from(two, '/', first + 1, second);
    assert(two.take(second) =~= two);
    lemma_find_from(owner, '/', 0, first);
    lemma_find_bounds(owner, '/', first + 1);
    assert(owner.take(first) =~= owner);
}

/// Writes an identifier in its canonical `owner/name` form.
pub fn canonical(identifier: &str) -> (cut: String)
    ensures
        cut@ == canonical_identifier(identifier@),
{
    let len = identifier.unicode_len();
    let first = find_char(identifier, '/', 0);
    proof {
        lemma_find_bounds(identifier@, '/', 0);
    }
    if first >= len {
        assert(identifier@.take(len as int) =~= identifier@);
        return identifier.to_owned();
    }
    let second = find_char(identifier, '/', first + 1);
    proof {
        lemma_find_bounds(identifier@, '/', first + 1);
    }
    identifier.substring_char(0, second).to_owned()
}

/// Whether a character is white space, as Unicode lists it.
pub open spec fn is_space(c: char) -> bool {
    let code = c as u32;
    ||| 0x09 <= code <= 0x0d
    ||| code == 0x20
    ||| code == 0x85
    ||| code == 0xa0
    ||| code == 0x1680
    ||| 0x2000 <= code <= 0x200a
    ||| code == 0x2028
    ||| code == 0x2029
    ||| code == 0x202f
    ||| code == 0x205f
    ||| code == 0x3000
}

/// Position of the first character at or after `from` that is no white space, or the
/// length of the text.
pub open spec fn ink_start(s: Seq<char>, from: int) -> int
    decreases s.len() - from,
{
    if from < 0 || from >= s.len() {
        s.len() as int
    } else if !is_space(s[from]) {
        from
    } else {
        ink_start(s, from + 1)
    }
}

/// Position after the last character that is no white space, or zero.
pub open spec fn ink_end(s: Seq<char>) -> int
    decreases s.len(),
{
    if s.len() == 0 {
        0
    } else if !is_space(s.last()) {
        s.len() as int
    } else {
        ink_end(s.drop_last())
    }
}

/// The text without the white space before its first and after its last character that
/// is none.
pub open spec fn trimmed(s: Seq<char>) -> Seq<char> {
    if ink_end(s) == 0 {
        Seq::empty()
    } else {
        s.subrange(ink_start(s, 0), ink_end(s))
    }
}

/// The first character that is no white space stands after a stretch of white space.
pub proof fn lemma_ink_start(s: Seq<char>, from: int, at: int)
    requires
        0 <= from <= at <= s.len(),
        forall|j: int| from <= j < at ==> is_space(s[j]),
        at < s.len() ==> !is_space(s[at]),
    ensures
        ink_start(s, from) == at,
    decreases at - from,
{
    if from < at {
        lemma_ink_start(s, from + 1, at);
    }
}

/// Whether a character is white space.
pub fn char_is_space(c: char) -> (space: bool)
    ensures
        space == is_space(c),
{
    let code = c as u32;
    (0x09 <= code && code <= 0x0d) || code == 0x20 || code == 0x85 || code == 0xa0 || code
        == 0x1680 || (0x2000 <= code && code <= 0x200a) || code == 0x2028 || code == 0x2029
        || code == 0x202f || code == 0x205f || code == 0x3000
}

/// Takes the white space off both ends of a text.
pub fn trim(text: &str) -> (inner: &str)
    ensures
        inner@ == trimmed(text@),
{
    let len = text.unicode_len();
    let mut start: usize = 0;
    let mut end: usize = 0;
    let mut at: usize = 0;
    assert(text@.take(0) =~= Seq::empty());
    for c in it: text.chars()
        invariant
            it.seq() == text@,
            len == text@.len(),
            at == it.index(),
            end <= at,
            end == ink_end(text@.take(at as int)),
            end == 0 ==> start == at && forall|j: int| 0 <= j < at ==> is_space(text@[j]),
            end > 0 ==> start < end && !is_space(text@[start as int]) && forall|j: int|
                0 <= j < start ==> is_space(text@[j]),
    {
        proof {
            let now = text@.take(at + 1);
            assert(now.drop_last() =~= text@.take(at as int));
            assert(now.last() == c);
        }
        if char_is_space(c) {
            if end == 0 {
                start = at + 1;
            }
        } else {
            if end == 0 {
                start = at;
            }
            end = at + 1;
        }
        at = at + 1;
    }
    proof {
        assert(text@.take(len as int) =~= text@);
        if end > 0 {
            lemma_ink_start(text@, 0, start as int);
        }
    }
    if end == 0 {
        text.substring_char(0, 0)
    } else {
        text.substring_char(start, end)
    }
}

} // verus!
