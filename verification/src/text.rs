//! Text as sequences of characters: the small vocabulary the rest of the
//! crate uses to build and take apart paths, file names and configuration
//! lines.

use vstd::prelude::*;
use vstd::string::*;
use vstd::utf8::{decode_utf8, valid_utf8};

verus! {

/// Appends one character to a string.
///
/// Trusted: `String::push` adds `c` at the end and leaves the rest as it was.
#[verifier::external_body]
pub(crate) fn push_char(s: &mut String, c: char)
    ensures
        final(s)@ == old(s)@.push(c),
{
    s.push(c);
}

/// Reads bytes as UTF-8 text.
///
/// Trusted: `std::str::from_utf8` accepts exactly the well-formed UTF-8
/// sequences and yields the characters that they encode.
#[verifier::external_body]
pub(crate) fn utf8_text(bytes: &[u8]) -> (r: Option<String>)
    ensures
        r is Some <==> valid_utf8(bytes@),
        r is Some ==> r->0@ == decode_utf8(bytes@),
{
    match std::str::from_utf8(bytes) {
        Ok(s) => Some(s.to_string()),
        Err(_) => None,
    }
}

/// The characters of `s`, in order.
pub fn chars_of(s: &str) -> (out: Vec<char>)
    ensures
        out@ == s@,
{
    let mut out: Vec<char> = Vec::new();
    for c in it: s.chars()
        invariant
            out@ == it.seq().take(it.index()),
    {
        out.push(c);
    }
    out
}

/// The string made of `chars[from..to]`.
pub fn string_of(chars: &Vec<char>, from: usize, to: usize) -> (out: String)
    requires
        from <= to <= chars.len(),
    ensures
        out@ == chars@.subrange(from as int, to as int),
{
    let mut out = String::new();
    let mut i: usize = from;
    while i < to
        invariant
            from <= i <= to <= chars.len(),
            out@ == chars@.subrange(from as int, i as int),
        decreases to - i,
    {
        push_char(&mut out, chars[i]);
        i += 1;
        assert(chars@.subrange(from as int, i as int) == chars@.subrange(
            from as int,
            i as int - 1,
        ).push(chars@[i as int - 1]));
    }
    out
}

/// An owned copy of `s`.
pub fn owned(s: &str) -> (out: String)
    ensures
        out@ == s@,
{
    String::from_str(s)
}

/// Whether two strings hold the same characters.
pub fn same_text(a: &str, b: &str) -> (r: bool)
    ensures
        r == (a@ == b@),
{
    let x = chars_of(a);
    let y = chars_of(b);
    if x.len() != y.len() {
        return false;
    }
    let mut i: usize = 0;
    while i < x.len()
        invariant
            x@ == a@,
            y@ == b@,
            x.len() == y.len(),
            i <= x.len(),
            forall|k: int| 0 <= k < i ==> x@[k] == y@[k],
        decreases x.len() - i,
    {
        if x[i] != y[i] {
            return false;
        }
        i += 1;
    }
    assert(x@ =~= y@);
    true
}

/// Whether `s` begins with `prefix`.
pub fn starts_with(s: &str, prefix: &str) -> (r: bool)
    ensures
        r == prefix@.is_prefix_of(s@),
{
    let x = chars_of(s);
    let p = chars_of(prefix);
    if p.len() > x.len() {
        return false;
    }
    let mut i: usize = 0;
    while i < p.len()
        invariant
            x@ == s@,
            p@ == prefix@,
            p.len() <= x.len(),
            i <= p.len(),
            forall|k: int| 0 <= k < i ==> x@[k] == p@[k],
        decreases p.len() - i,
    {
        if x[i] != p[i] {
            assert(x@.subrange(0, p@.len() as int)[i as int] == x@[i as int]);
            return false;
        }
        i += 1;
    }
    assert(p@ =~= x@.subrange(0, p@.len() as int));
    true
}

/// Whether `s` ends with `suffix`.
pub fn ends_with(s: &str, suffix: &str) -> (r: bool)
    ensures
        r == suffix@.is_suffix_of(s@),
{
    let x = chars_of(s);
    let p = chars_of(suffix);
    if p.len() > x.len() {
        return false;
    }
    let off: usize = x.len() - p.len();
    let mut i: usize = 0;
    while i < p.len()
        invariant
            x@ == s@,
            p@ == suffix@,
            p.len() <= x.len(),
            off == x.len() - p.len(),
            i <= p.len(),
            forall|k: int| 0 <= k < i ==> x@[off + k] == p@[k],
        decreases p.len() - i,
    {
        if x[off + i] != p[i] {
            assert(x@.subrange(off as int, x@.len() as int)[i as int] == x@[off + i]);
            return false;
        }
        i += 1;
    }
    assert(p@ =~= x@.subrange(x@.len() - p@.len(), x@.len() as int));
    true
}

/// `s` without its first `n` characters.
pub fn skip_chars(s: &str, n: usize) -> (out: String)
    requires
        n <= s@.len(),
    ensures
        out@ == s@.skip(n as int),
{
    let x = chars_of(s);
    string_of(&x, n, x.len())
}

/// `s` cut down to its first `n` characters.
pub fn take_chars(s: &str, n: usize) -> (out: String)
    requires
        n <= s@.len(),
    ensures
        out@ == s@.take(n as int),
{
    let x = chars_of(s);
    string_of(&x, 0, n)
}

/// The number of characters in `s`.
pub fn char_count(s: &str) -> (n: usize)
    ensures
        n == s@.len(),
{
    s.unicode_len()
}

/// `s` with every `from` turned into `to`.
pub open spec fn replace_char_spec(s: Seq<char>, from: char, to: char) -> Seq<char> {
    Seq::new(
        s.len(),
        |i: int|
            if s[i] == from {
                to
            } else {
                s[i]
            },
    )
}

/// Replaces every occurrence of one character by another.
pub fn replace_char(s: &str, from: char, to: char) -> (out: String)
    ensures
        out@ == replace_char_spec(s@, from, to),
{
    let x = chars_of(s);
    let mut out = String::new();
    let mut i: usize = 0;
    while i < x.len()
        invariant
            i <= x.len(),
            out@ == replace_char_spec(x@, from, to).take(i as int),
        decreases x.len() - i,
    {
        let c = x[i];
        push_char(
            &mut out,
            if c == from {
                to
            } else {
                c
            },
        );
        i += 1;
        assert(replace_char_spec(x@, from, to).take(i as int) == replace_char_spec(
            x@,
            from,
            to,
        ).take(i as int - 1).push(replace_char_spec(x@, from, to)[i as int - 1]));
    }
    assert(replace_char_spec(x@, from, to).take(x@.len() as int) == replace_char_spec(
        x@,
        from,
        to,
    ));
    out
}

/// `a` followed by `b`.
pub fn concat2(a: &str, b: &str) -> (out: String)
    ensures
        out@ == a@ + b@,
{
    let mut out = String::from_str(a);
    out.append(b);
    out
}

/// `a`, `b` and `c` one after the other.
pub fn concat3(a: &str, b: &str, c: &str) -> (out: String)
    ensures
        out@ == a@ + b@ + c@,
{
    let mut out = String::from_str(a);
    out.append(b);
    out.append(c);
    out
}

/// What is left of `s` once `prefix` is taken from its front; `None` where
/// `s` does not begin with it.
pub fn strip_prefix(s: &str, prefix: &str) -> (r: Option<String>)
    ensures
        r.deep_view() == if prefix@.is_prefix_of(s@) {
            Some(s@.skip(prefix@.len() as int))
        } else {
            None
        },
{
    if starts_with(s, prefix) {
        let n = char_count(prefix);
        Some(skip_chars(s, n))
    } else {
        None
    }
}

/// The pieces of `s` between occurrences of `sep`. A text without `sep` is
/// one piece; the empty text is one empty piece.
pub open spec fn split_spec(s: Seq<char>, sep: char) -> Seq<Seq<char>>
    decreases s.len(),
{
    if s.len() == 0 {
        seq![Seq::<char>::empty()]
    } else {
        let before = split_spec(s.drop_last(), sep);
        if s.last() == sep {
            before.push(Seq::<char>::empty())
        } else {
            before.drop_last().push(before.last().push(s.last()))
        }
    }
}

/// Cuts `s` at every `sep`.
pub fn split(s: &str, sep: char) -> (out: Vec<String>)
    ensures
        out.deep_view() == split_spec(s@, sep),
{
    let x = chars_of(s);
    let mut out: Vec<String> = Vec::new();
    let mut cur = String::new();
    let mut i: usize = 0;
    assert(x@.take(0) =~= Seq::<char>::empty());
    assert(out.deep_view().push(cur@) =~= seq![Seq::<char>::empty()]);
    while i < x.len()
        invariant
            i <= x.len(),
            x@ == s@,
            out.deep_view().push(cur@) == split_spec(x@.take(i as int), sep),
        decreases x.len() - i,
    {
        let ghost before = out.deep_view().push(cur@);
        let ghost done = out.deep_view();
        let ghost piece = cur@;
        let c = x[i];
        proof {
            assert(x@.take(i as int + 1).drop_last() =~= x@.take(i as int));
            assert(x@.take(i as int + 1).last() == c);
            assert(before.drop_last() =~= done);
            assert(before.last() == piece);
        }
        if c == sep {
            out.push(cur);
            cur = String::new();
            assert(out.deep_view() =~= before);
        } else {
            push_char(&mut cur, c);
            assert(out.deep_view() =~= done);
        }
        i += 1;
    }
    assert(x@.take(x@.len() as int) =~= x@);
    let ghost done = out.deep_view();
    let ghost piece = cur@;
    out.push(cur);
    assert(out.deep_view() =~= done.push(piece));
    out
}

/// The `parts` written one after the other with `sep` between neighbours.
pub open spec fn join_spec(parts: Seq<Seq<char>>, sep: Seq<char>) -> Seq<char>
    decreases parts.len(),
{
    if parts.len() == 0 {
        Seq::<char>::empty()
    } else if parts.len() == 1 {
        parts[0]
    } else {
        join_spec(parts.drop_last(), sep) + sep + parts.last()
    }
}

/// Joins `parts` with `sep` between neighbours.
pub fn join(parts: &Vec<String>, sep: &str) -> (out: String)
    ensures
        out@ == join_spec(parts.deep_view(), sep@),
{
    let mut out = String::new();
    let mut i: usize = 0;
    assert(parts.deep_view().take(0) =~= Seq::<Seq<char>>::empty());
    while i < parts.len()
        invariant
            i <= parts.len(),
            out@ == join_spec(parts.deep_view().take(i as int), sep@),
        decreases parts.len() - i,
    {
        let ghost prev = parts.deep_view().take(i as int);
        let ghost next = parts.deep_view().take(i as int + 1);
        proof {
            assert(next.drop_last() =~= prev);
            assert(next.last() == parts@[i as int]@);
        }
        if i > 0 {
            out.append(sep);
        }
        out.append(parts[i].as_str());
        proof {
            if i == 0 {
                assert(out@ =~= next[0]);
            }
        }
        i += 1;
    }
    assert(parts.deep_view().take(parts.len() as int) =~= parts.deep_view());
    out
}

/// Whether `c` is white space, as Unicode defines it.
pub open spec fn is_space(c: char) -> bool {
    ||| ('\u{9}' <= c && c <= '\u{d}')
    ||| c == ' '
    ||| c == '\u{85}'
    ||| c == '\u{a0}'
    ||| c == '\u{1680}'
    ||| ('\u{2000}' <= c && c <= '\u{200a}')
    ||| c == '\u{2028}'
    ||| c == '\u{2029}'
    ||| c == '\u{202f}'
    ||| c == '\u{205f}'
    ||| c == '\u{3000}'
}

fn space(c: char) -> (r: bool)
    ensures
        r == is_space(c),
{
    (c >= '\u{9}' && c <= '\u{d}') || c == ' ' || c == '\u{85}' || c == '\u{a0}' || c
        == '\u{1680}' || (c >= '\u{2000}' && c <= '\u{200a}') || c == '\u{2028}' || c
        == '\u{2029}' || c == '\u{202f}' || c == '\u{205f}' || c == '\u{3000}'
}

/// `s` without the white space at its front.
pub open spec fn trim_start_spec(s: Seq<char>) -> Seq<char>
    decreases s.len(),
{
    if s.len() > 0 && is_space(s[0]) {
        trim_start_spec(s.drop_first())
    } else {
        s
    }
}

/// `s` without the white space at its end.
pub open spec fn trim_end_spec(s: Seq<char>) -> Seq<char>
    decreases s.len(),
{
    if s.len() > 0 && is_space(s.last()) {
        trim_end_spec(s.drop_last())
    } else {
        s
    }
}

/// `s` without the white space at either end.
pub open spec fn trim_spec(s: Seq<char>) -> Seq<char> {
    trim_end_spec(trim_start_spec(s))
}

/// Removes the white space at both ends of `s`.
pub fn trim(s: &str) -> (out: String)
    ensures
        out@ == trim_spec(s@),
{
    let x = chars_of(s);
    let mut a: usize = 0;
    assert(x@.skip(0) =~= x@);
    while a < x.len() && space(x[a])
        invariant
            a <= x.len(),
            trim_start_spec(x@) == trim_start_spec(x@.skip(a as int)),
        decreases x.len() - a,
    {
        assert(x@.skip(a as int).drop_first() =~= x@.skip(a as int + 1));
        a += 1;
    }
    assert(trim_start_spec(x@) == x@.skip(a as int));
    let mut b: usize = x.len();
    assert(x@.subrange(a as int, b as int) =~= x@.skip(a as int));
    while b > a && space(x[b - 1])
        invariant
            a <= b <= x.len(),
            trim_end_spec(x@.skip(a as int)) == trim_end_spec(x@.subrange(a as int, b as int)),
        decreases b,
    {
        assert(x@.subrange(a as int, b as int).drop_last() =~= x@.subrange(
            a as int,
            b as int - 1,
        ));
        b -= 1;
    }
    string_of(&x, a, b)
}

/// `rel` seen from the directory `base`: `rel` itself where it starts at the
/// root or `base` is empty, else `base`, one separator, and `rel`.
pub open spec fn join_path_spec(base: Seq<char>, rel: Seq<char>) -> Seq<char> {
    if rel.len() > 0 && rel[0] == '/' {
        rel
    } else if base.len() == 0 {
        rel
    } else if base.last() == '/' {
        base + rel
    } else {
        base.push('/') + rel
    }
}

/// Joins a directory and a path below it.
pub fn join_path(base: &str, rel: &str) -> (out: String)
    ensures
        out@ == join_path_spec(base@, rel@),
{
    let b = chars_of(base);
    let r = chars_of(rel);
    if r.len() > 0 && r[0] == '/' {
        owned(rel)
    } else if b.len() == 0 {
        owned(rel)
    } else if b[b.len() - 1] == '/' {
        concat2(base, rel)
    } else {
        let mut out = owned(base);
        push_char(&mut out, '/');
        out.append(rel);
        out
    }
}

/// An independent copy of a list of strings.
pub fn clone_strings(v: &Vec<String>) -> (out: Vec<String>)
    ensures
        out.deep_view() == v.deep_view(),
{
    let mut out: Vec<String> = Vec::new();
    let mut i: usize = 0;
    while i < v.len()
        invariant
            i <= v.len(),
            out.deep_view() == v.deep_view().take(i as int),
        decreases v.len() - i,
    {
        let ghost before = out.deep_view();
        let c = v[i].clone();
        assert(c@ == v@[i as int]@);
        out.push(c);
        i += 1;
        assert(out.deep_view() =~= before.push(v@[i as int - 1]@));
        assert(out.deep_view() =~= v.deep_view().take(i as int));
    }
    assert(v.deep_view().take(v.len() as int) =~= v.deep_view());
    out
}

/// An independent copy of an optional string.
pub fn clone_opt_string(v: &Option<String>) -> (out: Option<String>)
    ensures
        out.deep_view() == v.deep_view(),
{
    match v {
        Some(s) => Some(s.clone()),
        None => None,
    }
}

/// Whether `needle` occurs among `hay`.
pub fn contains_text(hay: &Vec<String>, needle: &str) -> (r: bool)
    ensures
        r == hay.deep_view().contains(needle@),
{
    let mut i: usize = 0;
    while i < hay.len()
        invariant
            i <= hay.len(),
            forall|k: int| 0 <= k < i ==> hay.deep_view()[k] != needle@,
        decreases hay.len() - i,
    {
        if same_text(hay[i].as_str(), needle) {
            assert(hay.deep_view()[i as int] == needle@);
            return true;
        }
        i += 1;
    }
    false
}

} // verus!
