use vstd::prelude::*;

verus! {

// Tags are persisted as a JSON array of strings. The codec is the
// library's own: the encoder below writes the canonical form, and the
// decoder reads it back; text the decoder cannot parse counts as "no
// tags" (lenient decode), never as an error.

pub open spec fn hex_digit(n: int) -> char {
    if n == 0 {
        '0'
    } else if n == 1 {
        '1'
    } else if n == 2 {
        '2'
    } else if n == 3 {
        '3'
    } else if n == 4 {
        '4'
    } else if n == 5 {
        '5'
    } else if n == 6 {
        '6'
    } else if n == 7 {
        '7'
    } else if n == 8 {
        '8'
    } else if n == 9 {
        '9'
    } else if n == 10 {
        'a'
    } else if n == 11 {
        'b'
    } else if n == 12 {
        'c'
    } else if n == 13 {
        'd'
    } else if n == 14 {
        'e'
    } else {
        'f'
    }
}

pub open spec fn hex_val(c: char) -> Option<int> {
    let u = c as int;
    if 48 <= u && u <= 57 {
        Some(u - 48)
    } else if 97 <= u && u <= 102 {
        Some(u - 97 + 10)
    } else if 65 <= u && u <= 70 {
        Some(u - 65 + 10)
    } else {
        None
    }
}

/// How one character of a tag is written inside a JSON string.
pub open spec fn esc_char(c: char) -> Seq<char> {
    if c == '"' {
        seq!['\\', '"']
    } else if c == '\\' {
        seq!['\\', '\\']
    } else if c == '\n' {
        seq!['\\', 'n']
    } else if c == '\r' {
        seq!['\\', 'r']
    } else if c == '\t' {
        seq!['\\', 't']
    } else if 0 <= (c as int) && (c as int) < 32 {
        seq!['\\', 'u', '0', '0', hex_digit(c as int / 16), hex_digit(c as int % 16)]
    } else {
        seq![c]
    }
}

/// A whole tag, escaped character by character.
pub open spec fn enc_str(s: Seq<char>) -> Seq<char>
    decreases s.len(),
{
    if s.len() == 0 {
        Seq::empty()
    } else {
        esc_char(s[0]) + enc_str(s.subrange(1, s.len() as int))
    }
}

/// The items of the array from index `k` on, each quoted, joined by commas.
pub open spec fn enc_items(tags: Seq<Seq<char>>, k: int) -> Seq<char>
    decreases tags.len() - k,
{
    if k < 0 || k >= tags.len() {
        Seq::empty()
    } else if k == tags.len() - 1 {
        seq!['"'] + enc_str(tags[k]) + seq!['"']
    } else {
        seq!['"'] + enc_str(tags[k]) + seq!['"', ','] + enc_items(tags, k + 1)
    }
}

/// The canonical serialized form of a tag list.
pub open spec fn enc_tags(tags: Seq<Seq<char>>) -> Seq<char> {
    seq!['['] + enc_items(tags, 0) + seq![']']
}

/// The characters JSON allows between tokens.
pub open spec fn is_json_ws(c: char) -> bool {
    c == ' ' || c == '\t' || c == '\n' || c == '\r'
}

/// The first position at or after `i` that does not hold JSON white space.
pub open spec fn skip_ws(s: Seq<char>, i: int) -> int
    decreases s.len() - i,
{
    if 0 <= i && i < s.len() && is_json_ws(s[i]) {
        skip_ws(s, i + 1)
    } else {
        i
    }
}

/// Reads a JSON string body starting just after its opening quote;
/// yields the content and the index just after the closing quote.
pub open spec fn dec_str(s: Seq<char>, i: int) -> Option<(Seq<char>, int)>
    decreases s.len() - i,
{
    if i < 0 || i >= s.len() {
        None
    } else if s[i] == '"' {
        Some((Seq::empty(), i + 1))
    } else if s[i] == '\\' {
        if i + 2 > s.len() {
            None
        } else if s[i + 1] == 'u' {
            if i + 6 > s.len() {
                None
            } else if hex_val(s[i + 2]) is Some && hex_val(s[i + 3]) is Some && hex_val(
                s[i + 4],
            ) is Some && hex_val(s[i + 5]) is Some {
                let code = 4096 * hex_val(s[i + 2]).unwrap() + 256 * hex_val(s[i + 3]).unwrap()
                    + 16 * hex_val(s[i + 4]).unwrap() + hex_val(s[i + 5]).unwrap();
                if 0xD800 <= code && code < 0xE000 {
                    None
                } else {
                    match dec_str(s, i + 6) {
                        Some(p) => Some((seq![code as char] + p.0, p.1)),
                        None => None,
                    }
                }
            } else {
                None
            }
        } else {
            let e = s[i + 1];
            let u = if e == '"' {
                Some('"')
            } else if e == '\\' {
                Some('\\')
            } else if e == '/' {
                Some('/')
            } else if e == 'n' {
                Some('\n')
            } else if e == 'r' {
                Some('\r')
            } else if e == 't' {
                Some('\t')
            } else if e == 'b' {
                Some('\u{8}')
            } else if e == 'f' {
                Some('\u{c}')
            } else {
                None
            };
            match u {
                Some(c) => match dec_str(s, i + 2) {
                    Some(p) => Some((seq![c] + p.0, p.1)),
                    None => None,
                },
                None => None,
            }
        }
    } else {
        match dec_str(s, i + 1) {
            Some(p) => Some((seq![s[i]] + p.0, p.1)),
            None => None,
        }
    }
}

/// Reads the items of a non-empty array from index `i` (which must hold
/// an opening quote) up to and including the closing bracket, with JSON
/// white space allowed around the separators.
pub open spec fn dec_list(s: Seq<char>, i: int) -> Option<(Seq<Seq<char>>, int)>
    decreases s.len() - i,
{
    if i < 0 || i >= s.len() || s[i] != '"' {
        None
    } else {
        match dec_str(s, i + 1) {
            Some(p) => {
                let t = p.0;
                let j = skip_ws(s, p.1);
                if j < s.len() && s[j] == ']' {
                    Some((seq![t], j + 1))
                } else if j < s.len() && s[j] == ',' {
                    let n = skip_ws(s, j + 1);
                    if n <= i || n > s.len() {
                        None
                    } else {
                        match dec_list(s, n) {
                            Some(q) => Some((seq![t] + q.0, q.1)),
                            None => None,
                        }
                    }
                } else {
                    None
                }
            },
            None => None,
        }
    }
}

/// The tag list a stored text denotes, if the whole text parses as one
/// JSON array of strings (JSON white space allowed between tokens).
pub open spec fn dec_tags(s: Seq<char>) -> Option<Seq<Seq<char>>> {
    let a = skip_ws(s, 0);
    if a >= s.len() || s[a] != '[' {
        None
    } else {
        let b = skip_ws(s, a + 1);
        if b < s.len() && s[b] == ']' {
            if skip_ws(s, b + 1) == s.len() {
                Some(Seq::empty())
            } else {
                None
            }
        } else {
            match dec_list(s, b) {
                Some(p) => if skip_ws(s, p.1) == s.len() {
                    Some(p.0)
                } else {
                    None
                },
                None => None,
            }
        }
    }
}

/// The views of a tag vector's strings.
pub open spec fn tags_view(v: Vec<String>) -> Seq<Seq<char>> {
    v@.map_values(|x: String| x@)
}

pub proof fn lemma_enc_str_concat(a: Seq<char>, b: Seq<char>)
    ensures
        enc_str(a + b) == enc_str(a) + enc_str(b),
    decreases a.len(),
{
    if a.len() == 0 {
        assert(a + b =~= b);
        assert(enc_str(a) + enc_str(b) =~= enc_str(b));
    } else {
        let t = a.subrange(1, a.len() as int);
        lemma_enc_str_concat(t, b);
        assert((a + b).subrange(1, (a + b).len() as int) =~= t + b);
        assert((a + b)[0] == a[0]);
        assert(enc_str(a + b) =~= esc_char(a[0]) + (enc_str(t) + enc_str(b)));
        assert(esc_char(a[0]) + enc_str(t) + enc_str(b) =~= esc_char(a[0]) + (enc_str(t) + enc_str(
            b,
        )));
    }
}

pub proof fn lemma_enc_str_snoc(s: Seq<char>, k: int)
    requires
        0 <= k < s.len(),
    ensures
        enc_str(s.take(k + 1)) == enc_str(s.take(k)) + esc_char(s[k]),
{
    let one = seq![s[k]];
    assert(s.take(k + 1) =~= s.take(k) + one);
    lemma_enc_str_concat(s.take(k), one);
    assert(one.subrange(1, 1) =~= Seq::<char>::empty());
    assert(enc_str(Seq::<char>::empty()) =~= Seq::<char>::empty());
    assert(enc_str(one) =~= esc_char(s[k]) + enc_str(one.subrange(1, 1)));
    assert(enc_str(one) =~= esc_char(s[k]));
}

fn hex_digit_x(n: u32) -> (r: char)
    requires
        n < 16,
    ensures
        r == hex_digit(n as int),
{
    if n == 0 {
        '0'
    } else if n == 1 {
        '1'
    } else if n == 2 {
        '2'
    } else if n == 3 {
        '3'
    } else if n == 4 {
        '4'
    } else if n == 5 {
        '5'
    } else if n == 6 {
        '6'
    } else if n == 7 {
        '7'
    } else if n == 8 {
        '8'
    } else if n == 9 {
        '9'
    } else if n == 10 {
        'a'
    } else if n == 11 {
        'b'
    } else if n == 12 {
        'c'
    } else if n == 13 {
        'd'
    } else if n == 14 {
        'e'
    } else {
        'f'
    }
}

fn hex_val_x(c: char) -> (r: Option<u32>)
    ensures
        match r {
            Some(v) => hex_val(c) == Some(v as int),
            None => hex_val(c) is None,
        },
{
    let u = c as u32;
    if 48 <= u && u <= 57 {
        Some(u - 48)
    } else if 97 <= u && u <= 102 {
        Some(u - 97 + 10)
    } else if 65 <= u && u <= 70 {
        Some(u - 65 + 10)
    } else {
        None
    }
}

fn push_esc(out: &mut String, c: char)
    ensures
        final(out)@ == old(out)@ + esc_char(c),
{
    if c == '"' {
        crate::text::push_char(out, '\\');
        crate::text::push_char(out, '"');
        assert(final(out)@ =~= old(out)@ + esc_char(c));
    } else if c == '\\' {
        crate::text::push_char(out, '\\');
        crate::text::push_char(out, '\\');
        assert(final(out)@ =~= old(out)@ + esc_char(c));
    } else if c == '\n' {
        crate::text::push_char(out, '\\');
        crate::text::push_char(out, 'n');
        assert(final(out)@ =~= old(out)@ + esc_char(c));
    } else if c == '\r' {
        crate::text::push_char(out, '\\');
        crate::text::push_char(out, 'r');
        assert(final(out)@ =~= old(out)@ + esc_char(c));
    } else if c == '\t' {
        crate::text::push_char(out, '\\');
        crate::text::push_char(out, 't');
        assert(final(out)@ =~= old(out)@ + esc_char(c));
    } else if (c as u32) < 32 {
        let u = c as u32;
        crate::text::push_char(out, '\\');
        crate::text::push_char(out, 'u');
        crate::text::push_char(out, '0');
        crate::text::push_char(out, '0');
        crate::text::push_char(out, hex_digit_x(u / 16));
        crate::text::push_char(out, hex_digit_x(u % 16));
        assert(final(out)@ =~= old(out)@ + esc_char(c));
    } else {
        crate::text::push_char(out, c);
        assert(final(out)@ =~= old(out)@ + esc_char(c));
    }
}

fn push_esc_str(out: &mut String, s: &str)
    ensures
        final(out)@ == old(out)@ + enc_str(s@),
{
    let n = s.unicode_len();
    let mut k: usize = 0;
    while k < n
        invariant
            n == s@.len(),
            k <= n,
            out@ == old(out)@ + enc_str(s@.take(k as int)),
        decreases n - k,
    {
        push_esc(out, s.get_char(k));
        proof {
            lemma_enc_str_snoc(s@, k as int);
        }
        k += 1;
    }
    proof {
        assert(s@.take(n as int) =~= s@);
    }
}

/// Serializes a tag list into its canonical stored form.
pub fn encode_tags(tags: &Vec<String>) -> (r: String)
    ensures
        r@ == enc_tags(tags_view(*tags)),
{
    let ghost v = tags_view(*tags);
    let mut out = String::from_str("[");
    proof {
        reveal_strlit("[");
        assert(out@ =~= seq!['[']);
    }
    let n = tags.len();
    let mut k: usize = 0;
    while k < n
        invariant
            n == tags@.len(),
            k <= n,
            v == tags_view(*tags),
            out@ + enc_items(v, k as int) + seq![']'] == enc_tags(v),
        decreases n - k,
    {
        crate::text::push_char(&mut out, '"');
        push_esc_str(&mut out, tags[k].as_str());
        crate::text::push_char(&mut out, '"');
        proof {
            assert(v[k as int] == tags@[k as int]@);
        }
        if k + 1 < n {
            crate::text::push_char(&mut out, ',');
            proof {
                assert(out@ + enc_items(v, k + 1 as int) + seq![']'] =~= enc_tags(v));
            }
        } else {
            proof {
                assert(enc_items(v, k as int) =~= seq!['"'] + enc_str(v[k as int]) + seq!['"']);
                assert(out@ + enc_items(v, k + 1 as int) + seq![']'] =~= enc_tags(v));
            }
        }
        k += 1;
    }
    crate::text::push_char(&mut out, ']');
    proof {
        assert(enc_items(v, n as int).len() == 0);
        assert(out@ =~= enc_tags(v));
    }
    out
}

pub proof fn lemma_dec_str_bounds(s: Seq<char>, i: int)
    ensures
        dec_str(s, i) matches Some(p) ==> i < p.1 <= s.len(),
    decreases s.len() - i,
{
    if 0 <= i < s.len() {
        if s[i] == '"' {
        } else if s[i] == '\\' {
            if i + 2 <= s.len() {
                if s[i + 1] == 'u' {
                    if i + 6 <= s.len() {
                        lemma_dec_str_bounds(s, i + 6);
                    }
                } else {
                    lemma_dec_str_bounds(s, i + 2);
                }
            }
        } else {
            lemma_dec_str_bounds(s, i + 1);
        }
    }
}

fn dec_str_x(s: &str, start: usize) -> (r: Option<(String, usize)>)
    requires
        start <= s@.len(),
    ensures
        (match r {
            Some(p) => dec_str(s@, start as int) == Some((p.0@, p.1 as int)) && p.1 <= s@.len(),
            None => dec_str(s@, start as int) is None,
        }),
{
    let n = s.unicode_len();
    let mut acc = String::new();
    let mut cur = start;
    loop
        invariant
            n == s@.len(),
            cur <= n,
            (match dec_str(s@, cur as int) {
                Some(p) => dec_str(s@, start as int) == Some((acc@ + p.0, p.1)),
                None => dec_str(s@, start as int) is None,
            }),
        decreases n - cur,
    {
        if cur >= n {
            return None;
        }
        let c = s.get_char(cur);
        if c == '"' {
            proof {
                assert(acc@ + Seq::<char>::empty() =~= acc@);
                lemma_dec_str_bounds(s@, cur as int);
            }
            return Some((acc, cur + 1));
        }
        if c == '\\' {
            if n - cur < 2 {
                return None;
            }
            let e = s.get_char(cur + 1);
            if e == 'u' {
                if n - cur < 6 {
                    return None;
                }
                let h1 = hex_val_x(s.get_char(cur + 2));
                let h2 = hex_val_x(s.get_char(cur + 3));
                let h3 = hex_val_x(s.get_char(cur + 4));
                let h4 = hex_val_x(s.get_char(cur + 5));
                match (h1, h2, h3, h4) {
                    (Some(a), Some(b), Some(c3), Some(c4)) => {
                        let code: u32 = 4096 * a + 256 * b + 16 * c3 + c4;
                        match crate::text::char_from_u32(code) {
                            Some(ch) => {
                                proof {
                                    let p0 = dec_str(s@, cur + 6);
                                    if p0 is Some {
                                        assert(acc@ + (seq![ch] + p0.unwrap().0) =~= (acc@ + seq![
                                            ch,
                                        ]) + p0.unwrap().0);
                                    }
                                }
                                crate::text::push_char(&mut acc, ch);
                                cur = cur + 6;
                            },
                            None => {
                                return None;
                            },
                        }
                    },
                    _ => {
                        return None;
                    },
                }
            } else {
                let u = if e == '"' {
                    Some('"')
                } else if e == '\\' {
                    Some('\\')
                } else if e == '/' {
                    Some('/')
                } else if e == 'n' {
                    Some('\n')
                } else if e == 'r' {
                    Some('\r')
                } else if e == 't' {
                    Some('\t')
                } else if e == 'b' {
                    Some('\u{8}')
                } else if e == 'f' {
                    Some('\u{c}')
                } else {
                    None
                };
                match u {
                    Some(d) => {
                        proof {
                            let p0 = dec_str(s@, cur + 2);
                            if p0 is Some {
                                assert(acc@ + (seq![d] + p0.unwrap().0) =~= (acc@ + seq![d])
                                    + p0.unwrap().0);
                            }
                        }
                        crate::text::push_char(&mut acc, d);
                        cur = cur + 2;
                    },
                    None => {
                        return None;
                    },
                }
            }
        } else {
            proof {
                let p0 = dec_str(s@, cur + 1);
                if p0 is Some {
                    assert(acc@ + (seq![c] + p0.unwrap().0) =~= (acc@ + seq![c]) + p0.unwrap().0);
                }
            }
            crate::text::push_char(&mut acc, c);
            cur = cur + 1;
        }
    }
}

/// The views of a decoded tag vector.
pub open spec fn vs_view(v: Seq<String>) -> Seq<Seq<char>> {
    v.map_values(|x: String| x@)
}

fn json_ws(c: char) -> (r: bool)
    ensures
        r == is_json_ws(c),
{
    c == ' ' || c == '\t' || c == '\n' || c == '\r'
}

fn skip_ws_x(s: &str, start: usize) -> (r: usize)
    requires
        start <= s@.len(),
    ensures
        r as int == skip_ws(s@, start as int),
        start <= r <= s@.len(),
{
    let n = s.unicode_len();
    let mut cur = start;
    loop
        invariant
            n == s@.len(),
            start <= cur <= n,
            skip_ws(s@, start as int) == skip_ws(s@, cur as int),
        decreases n - cur,
    {
        if cur >= n {
            return cur;
        }
        if !json_ws(s.get_char(cur)) {
            return cur;
        }
        cur += 1;
    }
}

fn dec_list_x(s: &str, start: usize) -> (r: Option<(Vec<String>, usize)>)
    requires
        start <= s@.len(),
    ensures
        (match r {
            Some(p) => dec_list(s@, start as int) == Some((vs_view(p.0@), p.1 as int)) && p.1
                <= s@.len(),
            None => dec_list(s@, start as int) is None,
        }),
{
    let n = s.unicode_len();
    let mut acc: Vec<String> = Vec::new();
    let mut cur = start;
    loop
        invariant
            n == s@.len(),
            cur <= n,
            (match dec_list(s@, cur as int) {
                Some(p) => dec_list(s@, start as int) == Some((vs_view(acc@) + p.0, p.1)),
                None => dec_list(s@, start as int) is None,
            }),
        decreases n - cur,
    {
        if cur >= n {
            return None;
        }
        if s.get_char(cur) != '"' {
            return None;
        }
        match dec_str_x(s, cur + 1) {
            None => {
                return None;
            },
            Some((t, j)) => {
                proof {
                    lemma_dec_str_bounds(s@, cur + 1);
                }
                let j2 = skip_ws_x(s, j);
                if j2 < n && s.get_char(j2) == ']' {
                    let ghost tv = t@;
                    acc.push(t);
                    proof {
                        assert(vs_view(acc@) =~= vs_view(acc@.drop_last()) + seq![tv]);
                        assert(dec_list(s@, cur as int) == Some((seq![tv], j2 + 1 as int)));
                        assert(vs_view(acc@.drop_last()) + seq![tv] =~= vs_view(acc@));
                    }
                    return Some((acc, j2 + 1));
                } else if j2 < n && s.get_char(j2) == ',' {
                    let n2 = skip_ws_x(s, j2 + 1);
                    assert(n2 > cur);
                    let ghost tv = t@;
                    acc.push(t);
                    proof {
                        assert(vs_view(acc@) =~= vs_view(acc@.drop_last()) + seq![tv]);
                        let q = dec_list(s@, n2 as int);
                        if q is Some {
                            assert((vs_view(acc@.drop_last()) + seq![tv]) + q.unwrap().0 =~= vs_view(
                                acc@.drop_last(),
                            ) + (seq![tv] + q.unwrap().0));
                        }
                    }
                    cur = n2;
                } else {
                    return None;
                }
            },
        }
    }
}

/// Reads a stored tag text back into a tag list; text that does not parse
/// as a JSON array of strings yields None, which callers treat as "no
/// tags".
pub fn decode_tags(s: &str) -> (r: Option<Vec<String>>)
    ensures
        (match r {
            Some(v) => dec_tags(s@) == Some(vs_view(v@)),
            None => dec_tags(s@) is None,
        }),
{
    let n = s.unicode_len();
    let a = skip_ws_x(s, 0);
    if a >= n || s.get_char(a) != '[' {
        return None;
    }
    let b = skip_ws_x(s, a + 1);
    if b < n && s.get_char(b) == ']' {
        if skip_ws_x(s, b + 1) == n {
            let empty: Vec<String> = Vec::new();
            proof {
                assert(vs_view(Seq::<String>::empty()) =~= Seq::<Seq<char>>::empty());
            }
            return Some(empty);
        } else {
            return None;
        }
    }
    match dec_list_x(s, b) {
        Some((v, j)) => {
            if skip_ws_x(s, j) == n {
                Some(v)
            } else {
                None
            }
        },
        None => None,
    }
}

pub proof fn lemma_hex_roundtrip(d: int)
    requires
        0 <= d < 16,
    ensures
        hex_val(hex_digit(d)) == Some(d),
{
}

/// Decoding starts again wherever an encoded tag ends: the escaped body
/// followed by a closing quote reads back as exactly that tag.
pub proof fn lemma_dec_enc_str(t: Seq<char>, s: Seq<char>, i: int)
    requires
        0 <= i,
        i + enc_str(t).len() + 1 <= s.len(),
        s.subrange(i, i + enc_str(t).len()) == enc_str(t),
        s[i + enc_str(t).len()] == '"',
    ensures
        dec_str(s, i) == Some((t, i + enc_str(t).len() + 1)),
    decreases t.len(),
{
    let w = enc_str(t);
    if t.len() == 0 {
        assert(s[i] == '"');
    } else {
        let c = t[0];
        let rest = t.subrange(1, t.len() as int);
        let e = esc_char(c);
        assert(w == e + enc_str(rest));
        assert forall|k: int| 0 <= k < w.len() implies s[i + k] == w[k] by {
            assert(s.subrange(i, i + w.len())[k] == s[i + k]);
        }
        let i2 = i + e.len();
        assert forall|k: int| 0 <= k < enc_str(rest).len() implies s.subrange(
            i2,
            i2 + enc_str(rest).len(),
        )[k] == enc_str(rest)[k] by {
            assert(s[i2 + k] == w[e.len() + k]);
        }
        assert(s.subrange(i2, i2 + enc_str(rest).len()) =~= enc_str(rest));
        assert(s[i2 + enc_str(rest).len()] == '"');
        lemma_dec_enc_str(rest, s, i2);
        assert(seq![c] + rest =~= t);
        if c == '"' || c == '\\' || c == '\n' || c == '\r' || c == '\t' {
            assert(e.len() == 2);
            assert(s[i + 0] == w[0] && s[i + 1] == w[1]);
            assert(w[0] == e[0] && w[1] == e[1]);
            assert(i + 2 <= s.len());
            if c == '"' {
                assert(s[i] == '\\' && s[i + 1] == '"');
            } else if c == '\\' {
                assert(s[i] == '\\' && s[i + 1] == '\\');
            } else if c == '\n' {
                assert(s[i] == '\\' && s[i + 1] == 'n');
            } else if c == '\r' {
                assert(s[i] == '\\' && s[i + 1] == 'r');
            } else {
                assert(s[i] == '\\' && s[i + 1] == 't');
            }
            assert(dec_str(s, i) == Some((t, i + w.len() + 1)));
        } else if 0 <= (c as int) && (c as int) < 32 {
            assert(e.len() == 6);
            assert(s[i + 0] == w[0] && s[i + 1] == w[1] && s[i + 2] == w[2] && s[i + 3] == w[3]
                && s[i + 4] == w[4] && s[i + 5] == w[5]);
            assert(w[0] == e[0] && w[1] == e[1] && w[2] == e[2] && w[3] == e[3] && w[4] == e[4]
                && w[5] == e[5]);
            assert(s[i] == '\\' && s[i + 1] == 'u' && s[i + 2] == '0' && s[i + 3] == '0');
            assert(s[i + 4] == hex_digit(c as int / 16));
            assert(s[i + 5] == hex_digit(c as int % 16));
            lemma_hex_roundtrip(c as int / 16);
            lemma_hex_roundtrip(c as int % 16);
            assert(hex_val('0') == Some(0int));
            let code = 4096 * hex_val(s[i + 2]).unwrap() + 256 * hex_val(s[i + 3]).unwrap() + 16
                * hex_val(s[i + 4]).unwrap() + hex_val(s[i + 5]).unwrap();
            assert(code == c as int);
            assert(!(0xD800 <= code && code < 0xE000));
            assert((code as char) == c);
            assert(dec_str(s, i) == Some((t, i + w.len() + 1)));
        } else {
            assert(e.len() == 1 && e[0] == c);
            assert(s[i + 0] == w[0] && w[0] == e[0]);
            assert(s[i] == c && c != '"' && c != '\\');
            assert(dec_str(s, i) == Some((t, i + w.len() + 1)));
        }
    }
}

/// The encoded items from position `k` on, followed by the closing
/// bracket, read back as exactly those tags.
pub proof fn lemma_dec_enc_list(tags: Seq<Seq<char>>, k: int, s: Seq<char>, i: int)
    requires
        0 <= k < tags.len(),
        0 <= i,
        i + enc_items(tags, k).len() + 1 == s.len(),
        s.subrange(i, i + enc_items(tags, k).len()) == enc_items(tags, k),
        s[s.len() - 1] == ']',
    ensures
        dec_list(s, i) == Some((tags.skip(k), s.len() as int)),
    decreases tags.len() - k,
{
    let w = enc_items(tags, k);
    let body = enc_str(tags[k]);
    assert forall|x: int| 0 <= x < w.len() implies s[i + x] == w[x] by {
        assert(s.subrange(i, i + w.len())[x] == s[i + x]);
    }
    assert(s[i + 0] == w[0]);
    let i1 = i + 1;
    if k == tags.len() - 1 {
        assert(w =~= seq!['"'] + body + seq!['"']);
        assert(w[0] == '"');
        assert(s[i] == '"');
        assert forall|x: int| 0 <= x < body.len() implies s.subrange(i1, i1 + body.len())[x]
            == body[x] by {
            assert(s[i1 + x] == w[1 + x]);
        }
        assert(s.subrange(i1, i1 + body.len()) =~= body);
        assert(s[i1 + body.len()] == w[1 + body.len() as int]);
        assert(s[i1 + body.len()] == '"');
        lemma_dec_enc_str(tags[k], s, i1);
        let j = i1 + body.len() + 1;
        assert(j == s.len() - 1);
        assert(s[j] == ']');
        assert(!is_json_ws(s[j]));
        assert(skip_ws(s, j) == j);
        assert(tags.skip(k) =~= seq![tags[k]]);
        assert(dec_list(s, i) == Some((tags.skip(k), s.len() as int)));
    } else {
        let tail = enc_items(tags, k + 1);
        assert(w =~= seq!['"'] + body + seq!['"', ','] + tail);
        assert(w[0] == '"');
        assert(s[i] == '"');
        assert forall|x: int| 0 <= x < body.len() implies s.subrange(i1, i1 + body.len())[x]
            == body[x] by {
            assert(s[i1 + x] == w[1 + x]);
        }
        assert(s.subrange(i1, i1 + body.len()) =~= body);
        assert(s[i1 + body.len()] == w[1 + body.len() as int]);
        assert(s[i1 + body.len()] == '"');
        lemma_dec_enc_str(tags[k], s, i1);
        let j = i1 + body.len() + 1;
        assert(s[j] == w[j - i]);
        assert(s[j] == ',');
        assert(!is_json_ws(s[j]));
        assert(skip_ws(s, j) == j);
        let i3 = j + 1;
        assert forall|x: int| 0 <= x < tail.len() implies s.subrange(i3, i3 + tail.len())[x]
            == tail[x] by {
            assert(s[i3 + x] == w[(i3 - i) + x]);
        }
        assert(s.subrange(i3, i3 + tail.len()) =~= tail);
        assert(i3 + tail.len() + 1 == s.len());
        assert(tail[0] == '"');
        assert(s[i3 + 0] == tail[0]);
        assert(!is_json_ws(s[i3]));
        assert(skip_ws(s, i3) == i3);
        lemma_dec_enc_list(tags, k + 1, s, i3);
        assert(seq![tags[k]] + tags.skip(k + 1) =~= tags.skip(k));
        assert(dec_list(s, i) == Some((tags.skip(k), s.len() as int)));
    }
}

/// Round trip: decoding the canonical serialized form of any tag list
/// yields exactly that list.
pub proof fn lemma_tags_roundtrip(tags: Seq<Seq<char>>)
    ensures
        dec_tags(enc_tags(tags)) == Some(tags),
{
    let s = enc_tags(tags);
    let w = enc_items(tags, 0);
    assert forall|x: int| 0 <= x < w.len() implies s[1 + x] == w[x] by {
        assert(s[1 + x] == (seq!['['] + w + seq![']'])[1 + x]);
    }
    assert(s[0] == '[');
    assert(!is_json_ws(s[0]));
    assert(skip_ws(s, 0) == 0);
    if tags.len() == 0 {
        assert(w.len() == 0);
        assert(s.len() == 2 && s[0] == '[' && s[1] == ']');
        assert(!is_json_ws(s[1]));
        assert(skip_ws(s, 1) == 1);
        assert(skip_ws(s, 2) == 2);
    } else {
        assert(w[0] == '"');
        assert(w.len() >= 2);
        assert(s.len() > 2);
        assert(s[1] == '"');
        assert(!is_json_ws(s[1]));
        assert(skip_ws(s, 1) == 1);
        assert(s[s.len() - 1] == ']');
        assert(s.subrange(1, 1 + w.len() as int) =~= w);
        lemma_dec_enc_list(tags, 0, s, 1);
        assert(skip_ws(s, s.len() as int) == s.len());
        assert(tags.skip(0) =~= tags);
    }
}

} // verus!
