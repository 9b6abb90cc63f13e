use vstd::prelude::*;

verus! {

/// The Unicode white-space characters, the ones `str::trim` strips.
pub open spec fn is_space_char(c: char) -> bool {
    let u = c as u32;
    ||| (9 <= u && u <= 13)
    ||| u == 32
    ||| u == 0x85
    ||| u == 0xA0
    ||| u == 0x1680
    ||| (0x2000 <= u && u <= 0x200A)
    ||| u == 0x2028
    ||| u == 0x2029
    ||| u == 0x202F
    ||| u == 0x205F
    ||| u == 0x3000
}

/// A string is blank when it trims to nothing: every character is
/// white space (an empty string is blank).
pub open spec fn is_blank(s: Seq<char>) -> bool {
    forall|i: int| 0 <= i < s.len() ==> is_space_char(#[trigger] s[i])
}

fn space_char(c: char) -> (r: bool)
    ensures
        r == is_space_char(c),
{
    let u = c as u32;
    (9 <= u && u <= 13) || u == 32 || u == 0x85 || u == 0xA0 || u == 0x1680 || (0x2000 <= u
        && u <= 0x200A) || u == 0x2028 || u == 0x2029 || u == 0x202F || u == 0x205F || u == 0x3000
}

/// Decides blankness of a required text field.
pub fn check_blank(s: &str) -> (r: bool)
    ensures
        r == is_blank(s@),
{
    let n = s.unicode_len();
    let mut i: usize = 0;
    while i < n
        invariant
            n == s@.len(),
            i <= n,
            forall|j: int| 0 <= j < i ==> is_space_char(#[trigger] s@[j]),
        decreases n - i,
    {
        if !space_char(s.get_char(i)) {
            return false;
        }
        i += 1;
    }
    true
}

/// Relies on char::from_u32: Some exactly for the Unicode scalar values,
/// and the character then carries that code point.
#[verifier::external_body]
pub(crate) fn char_from_u32(u: u32) -> (r: Option<char>)
    ensures
        r is Some <==> (u < 0xD800 || (0xE000 <= u && u <= 0x10FFFF)),
        r matches Some(c) ==> c == ((u as int) as char) && (c as u32) == u,
{
    char::from_u32(u)
}

/// Relies on String::push appending one character.
#[verifier::external_body]
pub(crate) fn push_char(s: &mut String, c: char)
    ensures
        final(s)@ == old(s)@ + seq![c],
{
    s.push(c);
}

/// Lexicographic order on character sequences; agrees with the store's
/// byte-wise ordering of UTF-8 text, which preserves code-point order.
pub open spec fn str_le(a: Seq<char>, b: Seq<char>) -> bool
    decreases a.len(),
{
    if a.len() == 0 {
        true
    } else if b.len() == 0 {
        false
    } else if a[0] == b[0] {
        str_le(a.subrange(1, a.len() as int), b.subrange(1, b.len() as int))
    } else {
        (a[0] as u32) < (b[0] as u32)
    }
}

/// `needle` occurs in `hay` starting at position `i`.
pub open spec fn matches_at(hay: Seq<char>, needle: Seq<char>, i: int) -> bool {
    0 <= i && i + needle.len() <= hay.len() && hay.subrange(i, i + needle.len()) == needle
}

/// `needle` occurs somewhere in `hay`.
pub open spec fn contains_seq(hay: Seq<char>, needle: Seq<char>) -> bool {
    exists|i: int| matches_at(hay, needle, i)
}

/// Finds the first occurrence of `needle` in `hay`, by characters.
pub fn find_sub(hay: &str, needle: &str) -> (r: Option<usize>)
    ensures
        r matches Some(i) ==> matches_at(hay@, needle@, i as int) && (forall|j: int|
            0 <= j < i ==> !matches_at(hay@, needle@, j)),
        r is None ==> !contains_seq(hay@, needle@),
{
    let hlen = hay.unicode_len();
    let nlen = needle.unicode_len();
    if nlen > hlen {
        assert(forall|i: int| !matches_at(hay@, needle@, i));
        return None;
    }
    let mut i: usize = 0;
    while i <= hlen - nlen
        invariant
            hlen == hay@.len(),
            nlen == needle@.len(),
            nlen <= hlen,
            i <= hlen - nlen + 1,
            forall|j: int| 0 <= j < i ==> !matches_at(hay@, needle@, j),
        decreases hlen - nlen + 1 - i,
    {
        let mut j: usize = 0;
        let mut all_eq = true;
        while j < nlen
            invariant
                hlen == hay@.len(),
                nlen == needle@.len(),
                i + nlen <= hlen,
                j <= nlen,
                all_eq ==> (forall|k: int| 0 <= k < j ==> hay@[i + k] == #[trigger] needle@[k]),
                !all_eq ==> j == nlen && (exists|k: int|
                    0 <= k < nlen && hay@[i + k] != #[trigger] needle@[k]),
            decreases nlen - j,
        {
            let hc = hay.get_char(i + j);
            let nc = needle.get_char(j);
            if hc != nc {
                assert(hay@[i + j as int] != needle@[j as int]);
                all_eq = false;
                j = nlen;
            } else {
                assert(hay@[i + j as int] == needle@[j as int]);
                assert(forall|k: int| 0 <= k < j + 1 ==> hay@[i + k] == #[trigger] needle@[k]);
                j += 1;
            }
        }
        if all_eq {
            assert(hay@.subrange(i as int, i + nlen) =~= needle@);
            return Some(i);
        }
        assert(!matches_at(hay@, needle@, i as int)) by {
            assert(exists|k: int| 0 <= k < nlen && hay@[i + k] != #[trigger] needle@[k]);
            let k = choose|k: int| 0 <= k < nlen && hay@[i + k] != #[trigger] needle@[k];
            assert(hay@.subrange(i as int, i + nlen)[k] == hay@[i + k]);
        }
        i += 1;
    }
    assert forall|j: int| 0 <= j implies !matches_at(hay@, needle@, j) by {
        if j + nlen <= hlen {
            assert(j < i);
        }
    }
    None
}

} // verus!
