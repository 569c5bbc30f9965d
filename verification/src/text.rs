//! Character-level text model shared by the parsers.
//!
//! A `str` is viewed as its sequence of Unicode scalar values; byte offsets,
//! as used by Rust's slicing and `len`, are recovered from the UTF-8 width of
//! each character.
use vstd::prelude::*;
use vstd::string::*;

verus! {

/// `char::is_whitespace`: the Unicode `White_Space` property.
pub open spec fn is_ws(c: char) -> bool {
    let u = c as u32;
    ||| 0x09 <= u <= 0x0d
    ||| u == 0x20
    ||| u == 0x85
    ||| u == 0xa0
    ||| u == 0x1680
    ||| 0x2000 <= u <= 0x200a
    ||| u == 0x2028
    ||| u == 0x2029
    ||| u == 0x202f
    ||| u == 0x205f
    ||| u == 0x3000
}

/// `char::is_ascii_digit`.
pub open spec fn is_digit(c: char) -> bool {
    0x30 <= (c as u32) <= 0x39
}

/// The numeric value of an ASCII digit.
pub open spec fn digit_value(c: char) -> int {
    (c as u32) - 0x30
}

/// Number of bytes in the UTF-8 encoding of `c` (`char::len_utf8`).
pub open spec fn utf8_width(c: char) -> nat {
    let u = c as u32;
    if u < 0x80 {
        1
    } else if u < 0x800 {
        2
    } else if u < 0x10000 {
        3
    } else {
        4
    }
}

/// Length in bytes of the UTF-8 encoding of `s` (`str::len`).
pub open spec fn byte_len(s: Seq<char>) -> nat
    decreases s.len(),
{
    if s.len() == 0 {
        0
    } else {
        byte_len(s.drop_last()) + utf8_width(s.last())
    }
}

/// Byte offset `k` falls on a character boundary of `s`, at character index `j`.
pub open spec fn boundary_at(s: Seq<char>, k: int, j: int) -> bool {
    0 <= j <= s.len() && byte_len(s.take(j)) == k
}

/// Byte offset `k` is a character boundary of `s` (`str::is_char_boundary`).
pub open spec fn is_boundary(s: Seq<char>, k: int) -> bool {
    exists|j: int| boundary_at(s, k, j)
}

/// The character index of a boundary byte offset.
pub open spec fn char_index(s: Seq<char>, k: int) -> int {
    choose|j: int| boundary_at(s, k, j)
}

/// `&s[from..to]` is defined (does not panic).
pub open spec fn slice_ok(s: Seq<char>, from: int, to: int) -> bool {
    from <= to && is_boundary(s, from) && is_boundary(s, to)
}

/// The characters of `&s[from..to]`.
pub open spec fn byte_slice(s: Seq<char>, from: int, to: int) -> Seq<char> {
    s.subrange(char_index(s, from), char_index(s, to))
}

/// `&s[from..]` is defined.
pub open spec fn tail_ok(s: Seq<char>, from: int) -> bool {
    slice_ok(s, from, byte_len(s) as int)
}

/// The characters of `&s[from..]`.
pub open spec fn byte_tail(s: Seq<char>, from: int) -> Seq<char> {
    byte_slice(s, from, byte_len(s) as int)
}

/// One more character adds its UTF-8 width, at least one byte, to the prefix.
pub proof fn lemma_byte_len_take_step(s: Seq<char>, j: int)
    requires
        0 <= j < s.len(),
    ensures
        byte_len(s.take(j + 1)) == byte_len(s.take(j)) + utf8_width(s[j]),
        utf8_width(s[j]) >= 1,
{
    assert(s.take(j + 1).drop_last() =~= s.take(j));
}

/// Byte lengths of prefixes grow strictly with the prefix.
pub proof fn lemma_byte_len_take_mono(s: Seq<char>, i: int, j: int)
    requires
        0 <= i <= j <= s.len(),
    ensures
        byte_len(s.take(i)) + (j - i) <= byte_len(s.take(j)),
    decreases j - i,
{
    if i < j {
        lemma_byte_len_take_step(s, j - 1);
        lemma_byte_len_take_mono(s, i, j - 1);
    }
}

/// A boundary byte offset has exactly one character index.
pub proof fn lemma_boundary_unique(s: Seq<char>, k: int, j: int)
    requires
        boundary_at(s, k, j),
    ensures
        is_boundary(s, k),
        char_index(s, k) == j,
{
    let c = char_index(s, k);
    assert(boundary_at(s, k, c));
    if c < j {
        lemma_byte_len_take_mono(s, c, j);
    } else if j < c {
        lemma_byte_len_take_mono(s, j, c);
    }
}

/// The end of a text is a boundary, at the character index of its length.
pub proof fn lemma_byte_len_full(s: Seq<char>)
    ensures
        boundary_at(s, byte_len(s) as int, s.len() as int),
        is_boundary(s, byte_len(s) as int),
        char_index(s, byte_len(s) as int) == s.len(),
        byte_tail(s, byte_len(s) as int) =~= Seq::<char>::empty(),
{
    assert(s.take(s.len() as int) =~= s);
    lemma_boundary_unique(s, byte_len(s) as int, s.len() as int);
}

pub fn is_ws_char(c: char) -> (b: bool)
    ensures
        b == is_ws(c),
{
    let u = c as u32;
    (0x09 <= u && u <= 0x0d) || u == 0x20 || u == 0x85 || u == 0xa0 || u == 0x1680 || (0x2000 <= u
        && u <= 0x200a) || u == 0x2028 || u == 0x2029 || u == 0x202f || u == 0x205f || u == 0x3000
}

pub fn is_digit_char(c: char) -> (b: bool)
    ensures
        b == is_digit(c),
{
    let u = c as u32;
    0x30 <= u && u <= 0x39
}

pub fn utf8_width_of(c: char) -> (w: usize)
    ensures
        w == utf8_width(c),
{
    let u = c as u32;
    if u < 0x80 {
        1
    } else if u < 0x800 {
        2
    } else if u < 0x10000 {
        3
    } else {
        4
    }
}

/// The characters of `s`, in order.
pub fn chars_of(s: &str) -> (v: Vec<char>)
    ensures
        v@ == s@,
{
    let n = s.unicode_len();
    let mut v: Vec<char> = Vec::new();
    let mut i: usize = 0;
    while i < n
        invariant
            n == s@.len(),
            i <= n,
            v@ == s@.take(i as int),
        decreases n - i,
    {
        let c = s.get_char(i);
        v.push(c);
        i = i + 1;
        assert(v@ =~= s@.take(i as int));
    }
    assert(v@ =~= s@);
    v
}

/// `String::push`: appends the character `c` to `s`. Taken on trust: the
/// contract claims that the characters of `s` afterwards are those before,
/// followed by `c`, as std documents.
#[verifier::external_body]
pub(crate) fn push_char(s: &mut String, c: char)
    ensures
        final(s)@ == old(s)@.push(c),
{
    s.push(c);
}

/// A `String` holding the characters `v`.
pub fn string_of(v: &Vec<char>) -> (s: String)
    ensures
        s@ == v@,
{
    let mut s = String::new();
    let mut i: usize = 0;
    while i < v.len()
        invariant
            i <= v.len(),
            s@ == v@.take(i as int),
        decreases v.len() - i,
    {
        push_char(&mut s, v[i]);
        i = i + 1;
        assert(s@ =~= v@.take(i as int));
    }
    assert(v@.take(v.len() as int) =~= v@);
    s
}

/// Byte length of the characters `v` (`str::len` of the same text), capped
/// at `usize::MAX`.
pub fn byte_len_of(v: &Vec<char>) -> (n: usize)
    ensures
        byte_len(v@) <= usize::MAX ==> n == byte_len(v@),
        byte_len(v@) > usize::MAX ==> n == usize::MAX,
{
    let mut n: usize = 0;
    let mut i: usize = 0;
    while i < v.len()
        invariant
            i <= v.len(),
            n == byte_len(v@.take(i as int)),
        decreases v.len() - i,
    {
        proof {
            lemma_byte_len_take_step(v@, i as int);
            lemma_byte_len_take_mono(v@, i + 1, v.len() as int);
            assert(v@.take(v.len() as int) =~= v@);
        }
        let w = utf8_width_of(v[i]);
        if w > usize::MAX - n {
            return usize::MAX;
        }
        n = n + w;
        i = i + 1;
    }
    assert(v@.take(v.len() as int) =~= v@);
    n
}

/// The character index of byte offset `k` if it is a boundary.
pub fn boundary_index(v: &Vec<char>, k: usize) -> (r: Option<usize>)
    ensures
        r matches Some(j) ==> boundary_at(v@, k as int, j as int) && char_index(v@, k as int) == j,
        r is None ==> !is_boundary(v@, k as int),
{
    let mut n: usize = 0;
    let mut i: usize = 0;
    while i < v.len() && n < k
        invariant
            i <= v.len(),
            n == byte_len(v@.take(i as int)),
            n <= k,
            forall|j: int| 0 <= j < i ==> byte_len(#[trigger] v@.take(j)) < k,
        decreases v.len() - i,
    {
        proof {
            lemma_byte_len_take_step(v@, i as int);
        }
        let w = utf8_width_of(v[i]);
        if w > k - n {
            proof {
                assert forall|j: int| boundary_at(v@, k as int, j) implies false by {
                    if j <= i {
                        if j < i {
                        } else {
                        }
                    } else {
                        lemma_byte_len_take_mono(v@, i + 1, j);
                    }
                }
            }
            return None;
        }
        n = n + w;
        i = i + 1;
    }
    if n == k {
        proof {
            lemma_boundary_unique(v@, k as int, i as int);
        }
        Some(i)
    } else {
        proof {
            assert forall|j: int| boundary_at(v@, k as int, j) implies false by {
                if j > i {
                    lemma_byte_len_take_mono(v@, i as int, j);
                }
            }
        }
        None
    }
}

/// The characters of `&s[from..to]`, or `None` where that slice would panic.
pub fn slice_chars(v: &Vec<char>, from: usize, to: usize) -> (r: Option<Vec<char>>)
    ensures
        r is Some <==> slice_ok(v@, from as int, to as int),
        r matches Some(w) ==> w@ == byte_slice(v@, from as int, to as int),
{
    if from > to {
        return None;
    }
    let a = boundary_index(v, from);
    let b = boundary_index(v, to);
    match (a, b) {
        (Some(i), Some(j)) => {
            proof {
                if i > j {
                    lemma_byte_len_take_mono(v@, j as int, i as int);
                }
            }
            let mut w: Vec<char> = Vec::new();
            let mut p = i;
            while p < j
                invariant
                    i <= p <= j <= v.len(),
                    w@ == v@.subrange(i as int, p as int),
                decreases j - p,
            {
                w.push(v[p]);
                p = p + 1;
                assert(w@ =~= v@.subrange(i as int, p as int));
            }
            Some(w)
        },
        _ => None,
    }
}

/// `p` occurs in `s` starting at character index `i`.
pub open spec fn occurs_at(s: Seq<char>, p: Seq<char>, i: int) -> bool {
    0 <= i && i + p.len() <= s.len() && s.subrange(i, i + p.len()) == p
}

/// `s.contains(p)`.
pub open spec fn contains_seq(s: Seq<char>, p: Seq<char>) -> bool {
    exists|i: int| occurs_at(s, p, i)
}

/// `i` is the first occurrence of `p` in `s` (`str::find`, as a character index).
pub open spec fn first_occurrence(s: Seq<char>, p: Seq<char>, i: int) -> bool {
    occurs_at(s, p, i) && forall|j: int| 0 <= j < i ==> !occurs_at(s, p, j)
}

pub fn occurs_at_exec(s: &Vec<char>, p: &Vec<char>, i: usize) -> (b: bool)
    requires
        i + p.len() <= s.len(),
    ensures
        b == occurs_at(s@, p@, i as int),
{
    let mut k: usize = 0;
    while k < p.len()
        invariant
            k <= p.len(),
            i + p.len() <= s.len(),
            forall|m: int| 0 <= m < k ==> s@[i + m] == p@[m],
        decreases p.len() - k,
    {
        if s[i + k] != p[k] {
            assert(s@.subrange(i as int, i + p.len())[k as int] != p@[k as int]);
            return false;
        }
        k = k + 1;
    }
    assert(s@.subrange(i as int, i + p.len()) =~= p@);
    true
}

/// The character index of the first occurrence of `p` in `s`.
pub fn find_chars(s: &Vec<char>, p: &Vec<char>) -> (r: Option<usize>)
    ensures
        r matches Some(i) ==> first_occurrence(s@, p@, i as int),
        r is None ==> !contains_seq(s@, p@),
{
    if p.len() > s.len() {
        return None;
    }
    let mut i: usize = 0;
    let last = s.len() - p.len();
    while i <= last
        invariant
            p.len() <= s.len(),
            last == s.len() - p.len(),
            i <= last + 1,
            forall|j: int| 0 <= j < i ==> !occurs_at(s@, p@, j),
        decreases last + 1 - i,
    {
        if occurs_at_exec(s, p, i) {
            return Some(i);
        }
        if i == last {
            return None;
        }
        i = i + 1;
    }
    None
}

/// The byte length of a concatenation is the sum of the byte lengths.
pub proof fn lemma_byte_len_concat(a: Seq<char>, b: Seq<char>)
    ensures
        byte_len(a + b) == byte_len(a) + byte_len(b),
    decreases b.len(),
{
    if b.len() > 0 {
        assert((a + b).drop_last() =~= a + b.drop_last());
        lemma_byte_len_concat(a, b.drop_last());
    } else {
        assert(a + b =~= a);
    }
}

/// A text has no more characters than bytes.
pub proof fn lemma_chars_le_bytes(t: Seq<char>)
    ensures
        t.len() <= byte_len(t),
    decreases t.len(),
{
    if t.len() > 0 {
        lemma_chars_le_bytes(t.drop_last());
    }
}

/// A boundary never lies past the end of the text.
pub proof fn lemma_boundary_le_len(s: Seq<char>, k: int)
    requires
        is_boundary(s, k),
    ensures
        0 <= k <= byte_len(s),
        0 <= char_index(s, k) <= s.len(),
{
    let j = char_index(s, k);
    assert(boundary_at(s, k, j));
    lemma_byte_len_take_mono(s, j, s.len() as int);
    assert(s.take(s.len() as int) =~= s);
}

/// The bytes of `&s[from..to]` number `to - from`.
pub proof fn lemma_byte_slice_len(s: Seq<char>, from: int, to: int)
    requires
        slice_ok(s, from, to),
    ensures
        byte_len(byte_slice(s, from, to)) == to - from,
        char_index(s, from) <= char_index(s, to),
{
    let i = char_index(s, from);
    let j = char_index(s, to);
    assert(boundary_at(s, from, i));
    assert(boundary_at(s, to, j));
    if j < i {
        lemma_byte_len_take_mono(s, j, i);
    }
    assert(s.take(j) =~= s.take(i) + s.subrange(i, j));
    lemma_byte_len_concat(s.take(i), s.subrange(i, j));
}

/// Appends the characters `v` to `s`.
pub fn append_chars(s: &mut String, v: &Vec<char>)
    ensures
        final(s)@ == old(s)@ + v@,
{
    let ghost start = s@;
    let mut i: usize = 0;
    while i < v.len()
        invariant
            i <= v.len(),
            s@ == start + v@.take(i as int),
        decreases v.len() - i,
    {
        push_char(s, v[i]);
        i = i + 1;
        assert(s@ =~= start + v@.take(i as int));
    }
    assert(v@.take(v.len() as int) =~= v@);
}

/// The characters of `&s[from..]`, or `None` where that slice would panic.
pub fn tail_chars(v: &Vec<char>, from: usize) -> (r: Option<Vec<char>>)
    ensures
        r is Some <==> tail_ok(v@, from as int),
        r matches Some(w) ==> w@ == byte_tail(v@, from as int),
{
    proof {
        lemma_byte_len_full(v@);
    }
    match boundary_index(v, from) {
        Some(i) => {
            proof {
                lemma_boundary_le_len(v@, from as int);
            }
            let mut w: Vec<char> = Vec::new();
            let mut p = i;
            while p < v.len()
                invariant
                    i <= p <= v.len(),
                    w@ == v@.subrange(i as int, p as int),
                decreases v.len() - p,
            {
                w.push(v[p]);
                p = p + 1;
                assert(w@ =~= v@.subrange(i as int, p as int));
            }
            Some(w)
        },
        None => None,
    }
}

/// Two texts whose prefixes have the same byte lengths have the same
/// boundaries, at the same character indices.
pub proof fn lemma_same_boundaries(a: Seq<char>, b: Seq<char>, k: int)
    requires
        a.len() == b.len(),
        forall|j: int| 0 <= j <= a.len() ==> byte_len(#[trigger] a.take(j)) == byte_len(b.take(j)),
    ensures
        is_boundary(a, k) == is_boundary(b, k),
        is_boundary(a, k) ==> char_index(a, k) == char_index(b, k),
{
    if is_boundary(a, k) {
        let j = char_index(a, k);
        assert(boundary_at(a, k, j));
        assert(byte_len(a.take(j)) == byte_len(b.take(j)));
        assert(boundary_at(b, k, j));
        lemma_boundary_unique(b, k, j);
    }
    if is_boundary(b, k) {
        let j = char_index(b, k);
        assert(boundary_at(b, k, j));
        assert(byte_len(a.take(j)) == byte_len(b.take(j)));
        assert(boundary_at(a, k, j));
        lemma_boundary_unique(a, k, j);
    }
}

/// Over a run of one-byte characters, byte offsets and character indices agree.
pub proof fn lemma_ascii_prefix(s: Seq<char>, m: int, j: int)
    requires
        0 <= j <= m <= s.len(),
        forall|i: int| 0 <= i < m ==> (#[trigger] s[i] as u32) < 0x80,
    ensures
        byte_len(s.take(j)) == j,
    decreases j,
{
    if j > 0 {
        lemma_ascii_prefix(s, m, j - 1);
        lemma_byte_len_take_step(s, j - 1);
    }
}

/// `a == b` on string slices.
pub fn str_eq(a: &str, b: &str) -> (r: bool)
    ensures
        r == (a@ == b@),
{
    let n = a.unicode_len();
    let m = b.unicode_len();
    if n != m {
        return false;
    }
    let mut i: usize = 0;
    while i < n
        invariant
            n == a@.len(),
            m == b@.len(),
            n == m,
            i <= n,
            forall|k: int| 0 <= k < i ==> a@[k] == b@[k],
        decreases n - i,
    {
        if a.get_char(i) != b.get_char(i) {
            return false;
        }
        i = i + 1;
    }
    assert(a@ =~= b@);
    true
}

/// `s.replace(from, to)` for single characters.
pub open spec fn replace_char(s: Seq<char>, from: char, to: char) -> Seq<char> {
    s.map_values(|c: char| if c == from { to } else { c })
}

pub fn replace_char_exec(v: &Vec<char>, from: char, to: char) -> (w: Vec<char>)
    ensures
        w@ == replace_char(v@, from, to),
{
    let mut w: Vec<char> = Vec::new();
    let mut i: usize = 0;
    while i < v.len()
        invariant
            i <= v.len(),
            w@ == replace_char(v@.take(i as int), from, to),
        decreases v.len() - i,
    {
        let c = v[i];
        if c == from {
            w.push(to);
        } else {
            w.push(c);
        }
        i = i + 1;
        assert(w@ =~= replace_char(v@.take(i as int), from, to));
    }
    assert(v@.take(v.len() as int) =~= v@);
    w
}

/// `str::trim_end`: without trailing whitespace.
pub open spec fn trim_end(s: Seq<char>) -> Seq<char>
    decreases s.len(),
{
    if s.len() > 0 && is_ws(s.last()) {
        trim_end(s.drop_last())
    } else {
        s
    }
}

/// `str::trim_start`: without leading whitespace.
pub open spec fn trim_start(s: Seq<char>) -> Seq<char>
    decreases s.len(),
{
    if s.len() > 0 && is_ws(s[0]) {
        trim_start(s.skip(1))
    } else {
        s
    }
}

/// `str::trim`.
pub open spec fn trim(s: Seq<char>) -> Seq<char> {
    trim_start(trim_end(s))
}

pub fn trim_end_chars(v: &Vec<char>) -> (w: Vec<char>)
    ensures
        w@ == trim_end(v@),
{
    let mut n = v.len();
    assert(v@.take(n as int) =~= v@);
    while n > 0 && is_ws_char(v[n - 1])
        invariant
            n <= v.len(),
            trim_end(v@) == trim_end(v@.take(n as int)),
        decreases n,
    {
        assert(v@.take(n as int).drop_last() =~= v@.take(n - 1));
        n = n - 1;
    }
    let mut w: Vec<char> = Vec::new();
    let mut i: usize = 0;
    while i < n
        invariant
            i <= n <= v.len(),
            w@ == v@.take(i as int),
        decreases n - i,
    {
        w.push(v[i]);
        i = i + 1;
        assert(w@ =~= v@.take(i as int));
    }
    w
}

pub fn trim_chars(v: &Vec<char>) -> (w: Vec<char>)
    ensures
        w@ == trim(v@),
{
    let e = trim_end_chars(v);
    let mut i: usize = 0;
    assert(e@.skip(0) =~= e@);
    while i < e.len() && is_ws_char(e[i])
        invariant
            i <= e.len(),
            trim_start(e@) == trim_start(e@.skip(i as int)),
        decreases e.len() - i,
    {
        assert(e@.skip(i as int).skip(1) =~= e@.skip(i + 1));
        i = i + 1;
    }
    let mut w: Vec<char> = Vec::new();
    let mut k = i;
    while k < e.len()
        invariant
            i <= k <= e.len(),
            w@ == e@.subrange(i as int, k as int),
        decreases e.len() - k,
    {
        w.push(e[k]);
        k = k + 1;
        assert(w@ =~= e@.subrange(i as int, k as int));
    }
    assert(w@ =~= e@.skip(i as int));
    w
}

/// The words of `s` (`str::split_whitespace`): maximal runs of
/// non-whitespace characters, in order.
pub open spec fn words(s: Seq<char>) -> Seq<Seq<char>>
    decreases s.len(),
{
    if s.len() == 0 {
        Seq::empty()
    } else if is_ws(s.last()) {
        words(s.drop_last())
    } else if s.len() == 1 || is_ws(s[s.len() - 2]) {
        words(s.drop_last()).push(seq![s.last()])
    } else {
        let w = words(s.drop_last());
        w.update(w.len() - 1, w.last().push(s.last()))
    }
}

/// A text that ends in a non-space character has a last word, and it is not empty.
pub proof fn lemma_words_nonempty(s: Seq<char>)
    requires
        s.len() > 0,
        !is_ws(s.last()),
    ensures
        words(s).len() > 0,
        words(s).last().len() > 0,
    decreases s.len(),
{
    if s.len() > 1 && !is_ws(s[s.len() - 2]) {
        assert(s.drop_last().last() == s[s.len() - 2]);
        lemma_words_nonempty(s.drop_last());
    }
}

/// The character sequences held by a vector of character vectors.
pub open spec fn views(ws: Seq<Vec<char>>) -> Seq<Seq<char>> {
    ws.map_values(|w: Vec<char>| w@)
}

/// The words of `v`.
pub fn words_of(v: &Vec<char>) -> (ws: Vec<Vec<char>>)
    ensures
        views(ws@) == words(v@),
{
    let mut ws: Vec<Vec<char>> = Vec::new();
    let mut i: usize = 0;
    while i < v.len()
        invariant
            i <= v.len(),
            views(ws@) == words(v@.take(i as int)),
        decreases v.len() - i,
    {
        let c = v[i];
        let ghost pre = v@.take(i as int);
        proof {
            assert(v@.take(i + 1).drop_last() =~= pre);
            assert(v@.take(i + 1).last() == c);
            if i > 0 {
                assert(v@.take(i + 1)[i - 1] == pre.last());
            }
        }
        if is_ws_char(c) {
        } else if i == 0 || is_ws_char(v[i - 1]) {
            let mut w = Vec::new();
            w.push(c);
            ws.push(w);
            proof {
                assert(views(ws@) =~= words(pre).push(seq![c]));
            }
        } else {
            proof {
                lemma_words_nonempty(pre);
            }
            let last = ws.len() - 1;
            let mut w = ws.remove(last);
            w.push(c);
            ws.push(w);
            proof {
                let old_w = words(pre);
                assert(views(ws@) =~= old_w.update(old_w.len() - 1, old_w.last().push(c)));
            }
        }
        i = i + 1;
    }
    assert(v@.take(v.len() as int) =~= v@);
    ws
}

/// `s.split(c)`: the pieces between occurrences of `c`, empty pieces
/// included.
pub open spec fn split_on(s: Seq<char>, c: char) -> Seq<Seq<char>>
    decreases s.len(),
{
    if s.len() == 0 {
        seq![Seq::empty()]
    } else if s.last() == c {
        split_on(s.drop_last(), c).push(Seq::empty())
    } else {
        let p = split_on(s.drop_last(), c);
        p.update(p.len() - 1, p.last().push(s.last()))
    }
}

/// Splitting always yields at least one part.
pub proof fn lemma_split_on_nonempty(s: Seq<char>, c: char)
    ensures
        split_on(s, c).len() >= 1,
    decreases s.len(),
{
    if s.len() > 0 {
        lemma_split_on_nonempty(s.drop_last(), c);
    }
}

/// The pieces of `v` split at `c`.
pub fn split_on_exec(v: &Vec<char>, c: char) -> (ps: Vec<Vec<char>>)
    ensures
        views(ps@) == split_on(v@, c),
{
    let mut ps: Vec<Vec<char>> = Vec::new();
    ps.push(Vec::new());
    assert(views(ps@) =~= split_on(v@.take(0), c));
    let mut i: usize = 0;
    while i < v.len()
        invariant
            i <= v.len(),
            views(ps@) == split_on(v@.take(i as int), c),
            ps@.len() >= 1,
        decreases v.len() - i,
    {
        let x = v[i];
        let ghost pre = v@.take(i as int);
        proof {
            assert(v@.take(i + 1).drop_last() =~= pre);
            assert(v@.take(i + 1).last() == x);
            lemma_split_on_nonempty(pre, c);
        }
        if x == c {
            ps.push(Vec::new());
            assert(views(ps@) =~= split_on(pre, c).push(Seq::empty()));
        } else {
            let last = ps.len() - 1;
            let mut w = ps.remove(last);
            w.push(x);
            ps.push(w);
            proof {
                let p = split_on(pre, c);
                assert(views(ps@) =~= p.update(p.len() - 1, p.last().push(x)));
            }
        }
        i = i + 1;
    }
    assert(v@.take(v.len() as int) =~= v@);
    ps
}

/// A line without the carriage return of a `\r\n` ending.
pub open spec fn strip_cr(l: Seq<char>) -> Seq<char> {
    if l.len() > 0 && l.last() == '\r' {
        l.drop_last()
    } else {
        l
    }
}

/// Each line without the carriage return of its ending.
pub open spec fn strip_crs(p: Seq<Seq<char>>) -> Seq<Seq<char>> {
    p.map_values(|l: Seq<char>| strip_cr(l))
}

/// `str::lines`: the text split at `\n` and at `\r\n`, without a final
/// empty line after a last line ending.
pub open spec fn lines(s: Seq<char>) -> Seq<Seq<char>> {
    let p = split_on(s, '\n');
    let ended = strip_crs(p.drop_last());
    if p.last().len() == 0 {
        ended
    } else {
        ended.push(p.last())
    }
}

/// The lines of `v`.
pub fn lines_exec(v: &Vec<char>) -> (ls: Vec<Vec<char>>)
    ensures
        views(ls@) == lines(v@),
{
    let ps = split_on_exec(v, '\n');
    proof {
        lemma_split_on_nonempty(v@, '\n');
    }
    let n = ps.len();
    let mut ls: Vec<Vec<char>> = Vec::new();
    let mut i: usize = 0;
    while i + 1 < n
        invariant
            n == ps.len(),
            n >= 1,
            i + 1 <= n,
            views(ls@) == strip_crs(views(ps@).take(i as int)),
        decreases n - i,
    {
        let p = &ps[i];
        let mut q: Vec<char> = Vec::new();
        let mut k: usize = 0;
        let stop = if p.len() > 0 && p[p.len() - 1] == '\r' {
            p.len() - 1
        } else {
            p.len()
        };
        while k < stop
            invariant
                stop <= p.len(),
                k <= stop,
                q@ == p@.take(k as int),
            decreases stop - k,
        {
            q.push(p[k]);
            k = k + 1;
            assert(q@ =~= p@.take(k as int));
        }
        proof {
            assert(views(ps@)[i as int] == p@);
            assert(q@ =~= strip_cr(p@));
        }
        let ghost old_ls = views(ls@);
        ls.push(q);
        proof {
            assert(views(ls@) =~= old_ls.push(strip_cr(p@)));
            assert(views(ps@).take(i + 1) =~= views(ps@).take(i as int).push(p@));
            assert(strip_crs(views(ps@).take(i + 1)) =~= strip_crs(views(ps@).take(i as int)).push(
                strip_cr(p@),
            ));
        }
        i = i + 1;
    }
    assert(views(ps@).take(i as int) =~= views(ps@).drop_last());
    let last = &ps[n - 1];
    proof {
        assert(views(ps@).last() == last@);
    }
    if last.len() > 0 {
        let mut q: Vec<char> = Vec::new();
        let mut k: usize = 0;
        while k < last.len()
            invariant
                k <= last.len(),
                q@ == last@.take(k as int),
            decreases last.len() - k,
        {
            q.push(last[k]);
            k = k + 1;
            assert(q@ =~= last@.take(k as int));
        }
        assert(q@ =~= last@);
        ls.push(q);
        assert(views(ls@) =~= lines(v@));
    } else {
        assert(views(ls@) =~= lines(v@));
    }
    ls
}

} // verus!
