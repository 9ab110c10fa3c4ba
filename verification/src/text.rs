//! Small verified string routines: substring search, splitting, byte-range
//! slicing and decimal number parsing, each stated over the characters of
//! the string.
use vstd::prelude::*;
use vstd::string::*;
use vstd::utf8::*;

verus! {

// ---------------------------------------------------------------------------
// Specifications
// ---------------------------------------------------------------------------

/// `needle` occurs in `hay` starting at character index `i`.
pub open spec fn occurs_at(hay: Seq<char>, needle: Seq<char>, i: int) -> bool {
    &&& 0 <= i
    &&& i + needle.len() <= hay.len()
    &&& hay.subrange(i, i + needle.len()) == needle
}

/// `needle` occurs somewhere in `hay`.
pub open spec fn contains_seq(hay: Seq<char>, needle: Seq<char>) -> bool {
    exists|i: int| occurs_at(hay, needle, i)
}

/// `hay` begins with `prefix`.
pub open spec fn starts_with_seq(hay: Seq<char>, prefix: Seq<char>) -> bool {
    occurs_at(hay, prefix, 0)
}

/// The pieces of `s` between the occurrences of `sep`: `n` separators give
/// `n + 1` pieces, empty ones included.
pub open spec fn split_seq(s: Seq<char>, sep: char) -> Seq<Seq<char>>
    decreases s.len(),
{
    if s.len() == 0 {
        seq![Seq::<char>::empty()]
    } else {
        let pieces = split_seq(s.drop_last(), sep);
        if s.last() == sep {
            pieces.push(Seq::<char>::empty())
        } else {
            pieces.update(pieces.len() - 1, pieces.last().push(s.last()))
        }
    }
}

/// How many times `c` occurs in `s`.
pub open spec fn count_seq(s: Seq<char>, c: char) -> nat
    decreases s.len(),
{
    if s.len() == 0 {
        0
    } else {
        count_seq(s.drop_last(), c) + if s.last() == c { 1nat } else { 0nat }
    }
}

/// The bytes `from..to` of the UTF-8 encoding of `s` form a whole piece of
/// `s`: in range, and both ends on character boundaries.
pub open spec fn byte_range_ok(s: Seq<char>, from: int, to: int) -> bool {
    let b = encode_utf8(s);
    &&& 0 <= from <= to <= b.len()
    &&& is_char_boundary(b, from)
    &&& is_char_boundary(b, to)
}

/// The characters that the bytes `from..to` of the encoding of `s` encode.
pub open spec fn byte_range(s: Seq<char>, from: int, to: int) -> Seq<char> {
    decode_utf8(encode_utf8(s).subrange(from, to))
}

pub open spec fn is_digit(c: char) -> bool {
    '0' <= c && c <= '9'
}

pub open spec fn all_digits(s: Seq<char>) -> bool {
    forall|i: int| 0 <= i < s.len() ==> is_digit(#[trigger] s[i])
}

/// The number that a string of decimal digits denotes.
pub open spec fn digits_value(s: Seq<char>) -> nat
    decreases s.len(),
{
    if s.len() == 0 {
        0
    } else {
        digits_value(s.drop_last()) * 10 + (s.last() as nat - '0' as nat) as nat
    }
}

/// The digits of an unsigned number after an optional `+`.
pub open spec fn unsigned_digits(s: Seq<char>) -> Seq<char> {
    if s.len() > 0 && s[0] == '+' {
        s.drop_first()
    } else {
        s
    }
}

/// What `str::parse::<u64>` gives: an optional `+`, then one or more ASCII
/// digits whose value fits in a `u64`.
pub open spec fn spec_parse_u64(s: Seq<char>) -> Option<u64> {
    let d = unsigned_digits(s);
    if d.len() > 0 && all_digits(d) && digits_value(d) <= u64::MAX {
        Some(digits_value(d) as u64)
    } else {
        None
    }
}

/// What `str::parse::<i64>` gives: an optional `+` or `-`, then one or more
/// ASCII digits whose signed value fits in an `i64`.
pub open spec fn spec_parse_i64(s: Seq<char>) -> Option<i64> {
    if s.len() > 0 && s[0] == '-' {
        let d = s.drop_first();
        if d.len() > 0 && all_digits(d) && digits_value(d) <= 0x8000_0000_0000_0000 {
            Some((0 - digits_value(d)) as i64)
        } else {
            None
        }
    } else {
        let d = unsigned_digits(s);
        if d.len() > 0 && all_digits(d) && digits_value(d) <= i64::MAX {
            Some(digits_value(d) as i64)
        } else {
            None
        }
    }
}

// ---------------------------------------------------------------------------
// Lemmas
// ---------------------------------------------------------------------------

/// The value of a digit string is at least the value of any of its prefixes.
pub proof fn lemma_digits_value_prefix(s: Seq<char>, k: int)
    requires
        all_digits(s),
        0 <= k <= s.len(),
    ensures
        digits_value(s.take(k)) <= digits_value(s),
    decreases s.len(),
{
    if k < s.len() {
        let p = s.drop_last();
        assert(all_digits(p)) by {
            assert forall|i: int| 0 <= i < p.len() implies is_digit(#[trigger] p[i]) by {
                assert(p[i] == s[i]);
            }
        }
        lemma_digits_value_prefix(p, k);
        assert(p.take(k) =~= s.take(k));
    } else {
        assert(s.take(k) =~= s);
    }
}

/// Occurrence of a needle survives appending text on either side.
pub proof fn lemma_contains_concat(a: Seq<char>, b: Seq<char>, n: Seq<char>)
    ensures
        contains_seq(a, n) ==> contains_seq(a + b, n),
        contains_seq(b, n) ==> contains_seq(a + b, n),
{
    if contains_seq(a, n) {
        let i = choose|i: int| occurs_at(a, n, i);
        assert((a + b).subrange(i, i + n.len()) =~= a.subrange(i, i + n.len()));
        assert(occurs_at(a + b, n, i));
    }
    if contains_seq(b, n) {
        let i = choose|i: int| occurs_at(b, n, i);
        let j = i + a.len();
        assert((a + b).subrange(j, j + n.len()) =~= b.subrange(i, i + n.len()));
        assert(occurs_at(a + b, n, j));
    }
}

/// The pieces joined back together, with `sep` between each two.
pub open spec fn join_seq(pieces: Seq<Seq<char>>, sep: char) -> Seq<char>
    decreases pieces.len(),
{
    if pieces.len() == 0 {
        Seq::<char>::empty()
    } else if pieces.len() == 1 {
        pieces[0]
    } else {
        join_seq(pieces.drop_last(), sep).push(sep) + pieces.last()
    }
}

proof fn lemma_join_extend_last(pieces: Seq<Seq<char>>, sep: char, c: char)
    requires
        pieces.len() >= 1,
    ensures
        join_seq(pieces.update(pieces.len() - 1, pieces.last().push(c)), sep) == join_seq(
            pieces,
            sep,
        ).push(c),
{
    let q = pieces.update(pieces.len() - 1, pieces.last().push(c));
    if pieces.len() > 1 {
        assert(q.drop_last() =~= pieces.drop_last());
        assert(join_seq(pieces.drop_last(), sep).push(sep) + pieces.last().push(c) =~= (join_seq(
            pieces.drop_last(),
            sep,
        ).push(sep) + pieces.last()).push(c));
    }
}

/// Splitting gives at least one piece.
pub proof fn lemma_split_len(s: Seq<char>, sep: char)
    ensures
        split_seq(s, sep).len() >= 1,
    decreases s.len(),
{
    if s.len() > 0 {
        lemma_split_len(s.drop_last(), sep);
    }
}

/// Splitting at a separator loses nothing: the pieces hold no separator,
/// and joined back with it they give the text again.
pub proof fn lemma_split_join(s: Seq<char>, sep: char)
    ensures
        join_seq(split_seq(s, sep), sep) == s,
        forall|i: int, j: int|
            0 <= i < split_seq(s, sep).len() && 0 <= j < split_seq(s, sep)[i].len() ==> #[trigger] split_seq(
                s,
                sep,
            )[i][j] != sep,
    decreases s.len(),
{
    if s.len() == 0 {
        assert(join_seq(seq![Seq::<char>::empty()], sep) =~= s);
    } else {
        let p = s.drop_last();
        lemma_split_join(p, sep);
        lemma_split_len(p, sep);
        let pieces = split_seq(p, sep);
        if s.last() == sep {
            let q = pieces.push(Seq::<char>::empty());
            assert(q.drop_last() =~= pieces);
            assert(join_seq(pieces, sep).push(sep) + Seq::<char>::empty() =~= s);
            assert forall|i: int, j: int| 0 <= i < q.len() && 0 <= j < q[i].len() implies #[trigger] q[i][j] != sep by {
                assert(q[i] == pieces[i]);
            }
        } else {
            lemma_join_extend_last(pieces, sep, s.last());
            assert(join_seq(pieces, sep).push(s.last()) =~= s);
            let q = pieces.update(pieces.len() - 1, pieces.last().push(s.last()));
            assert forall|i: int, j: int| 0 <= i < q.len() && 0 <= j < q[i].len() implies #[trigger] q[i][j] != sep by {
                if i < pieces.len() - 1 {
                    assert(q[i] == pieces[i]);
                } else if j < pieces.last().len() {
                    assert(q[i][j] == pieces.last()[j]);
                }
            }
        }
    }
}

/// A string that starts with a needle contains it.
pub proof fn lemma_starts_with_contains(hay: Seq<char>, prefix: Seq<char>)
    requires
        starts_with_seq(hay, prefix),
    ensures
        contains_seq(hay, prefix),
{
    assert(occurs_at(hay, prefix, 0));
}

// ---------------------------------------------------------------------------
// Executable routines
// ---------------------------------------------------------------------------

/// The characters of `s`, in order.
pub fn to_chars(s: &str) -> (res: Vec<char>)
    ensures
        res@ == s@,
{
    let mut res: Vec<char> = Vec::new();
    for c in it: s.chars()
        invariant
            res@ == it.seq().take(it.index() as int),
    {
        res.push(c);
    }
    res
}

/// Does `needle` occur in `hay` at character index `i`?
fn occurs_at_exec(hay: &Vec<char>, needle: &Vec<char>, i: usize) -> (res: bool)
    requires
        i + needle@.len() <= hay@.len(),
    ensures
        res == occurs_at(hay@, needle@, i as int),
{
    let n = needle.len();
    let hl = hay.len();
    let mut j: usize = 0;
    while j < n
        invariant
            j <= n,
            n == needle@.len(),
            hl == hay@.len(),
            i + n <= hl,
            forall|k: int| 0 <= k < j ==> hay@[i + k] == needle@[k],
        decreases n - j,
    {
        if hay[i + j] != needle[j] {
            assert(hay@.subrange(i as int, i + n)[j as int] != needle@[j as int]);
            return false;
        }
        j = j + 1;
    }
    assert(hay@.subrange(i as int, i + n) =~= needle@);
    true
}

/// Does `needle` occur anywhere in `hay`? (`str::contains` with a string
/// pattern.)
pub fn str_contains(hay: &str, needle: &str) -> (res: bool)
    ensures
        res == contains_seq(hay@, needle@),
{
    let h = to_chars(hay);
    let n = to_chars(needle);
    if n.len() > h.len() {
        return false;
    }
    let last = h.len() - n.len();
    let mut i: usize = 0;
    while i < last
        invariant
            i <= last,
            last + n@.len() == h@.len(),
            h@ == hay@,
            n@ == needle@,
            forall|k: int| 0 <= k < i ==> !occurs_at(hay@, needle@, k),
        decreases last - i,
    {
        if occurs_at_exec(&h, &n, i) {
            return true;
        }
        i = i + 1;
    }
    occurs_at_exec(&h, &n, last)
}

/// Does `hay` begin with `prefix`?
pub fn str_starts_with(hay: &str, prefix: &str) -> (res: bool)
    ensures
        res == starts_with_seq(hay@, prefix@),
{
    let h = to_chars(hay);
    let p = to_chars(prefix);
    if p.len() > h.len() {
        return false;
    }
    occurs_at_exec(&h, &p, 0)
}

/// Equality of two strings, character by character.
pub fn str_eq(a: &str, b: &str) -> (res: bool)
    ensures
        res == (a@ == b@),
{
    let x = a.to_owned();
    let y = b.to_owned();
    x == y
}

/// How many times `c` occurs in `s`.
pub fn count_char(s: &str, c: char) -> (res: usize)
    ensures
        res == count_seq(s@, c),
{
    let v = to_chars(s);
    let mut n: usize = 0;
    let mut i: usize = 0;
    while i < v.len()
        invariant
            i <= v@.len(),
            v@ == s@,
            n == count_seq(v@.take(i as int), c),
            n <= i,
        decreases v@.len() - i,
    {
        assert(v@.take(i + 1).drop_last() =~= v@.take(i as int));
        if v[i] == c {
            n = n + 1;
        }
        i = i + 1;
    }
    assert(v@.take(v@.len() as int) =~= v@);
    n
}

/// The pieces of `s` between the occurrences of `sep` (`str::split` with a
/// character pattern, collected).
pub fn split_on<'a>(s: &'a str, sep: char) -> (res: Vec<&'a str>)
    ensures
        res@.len() == split_seq(s@, sep).len(),
        forall|i: int| 0 <= i < res@.len() ==> (#[trigger] res@[i])@ == split_seq(s@, sep)[i],
{
    let v = to_chars(s);
    let mut res: Vec<&'a str> = Vec::new();
    let mut start: usize = 0;
    let mut i: usize = 0;
    while i < v.len()
        invariant
            v@ == s@,
            start <= i <= v@.len(),
            ({
                let pieces = split_seq(v@.take(i as int), sep);
                &&& res@.len() + 1 == pieces.len()
                &&& forall|k: int| 0 <= k < res@.len() ==> (#[trigger] res@[k])@ == pieces[k]
                &&& pieces.last() == v@.subrange(start as int, i as int)
            }),
        decreases v@.len() - i,
    {
        let ghost prev = v@.take(i as int);
        assert(v@.take(i + 1).drop_last() =~= prev);
        assert(v@.take(i + 1).last() == v@[i as int]);
        if v[i] == sep {
            let piece = s.substring_char(start, i);
            res.push(piece);
            start = i + 1;
            assert(v@.subrange(start as int, (i + 1) as int) =~= Seq::<char>::empty());
        } else {
            assert(v@.subrange(start as int, (i + 1) as int) =~= v@.subrange(
                start as int,
                i as int,
            ).push(v@[i as int]));
        }
        i = i + 1;
    }
    assert(v@.take(v@.len() as int) =~= v@);
    let piece = s.substring_char(start, v.len());
    res.push(piece);
    res
}

/// `s[from..to]` on byte offsets, or `None` where that indexing panics.
pub fn byte_slice<'a>(s: &'a str, from: usize, to: usize) -> (res: Option<&'a str>)
    ensures
        res is Some <==> byte_range_ok(s@, from as int, to as int),
        res matches Some(r) ==> r@ == byte_range(s@, from as int, to as int),
{
    proof {
        encode_utf8_valid_utf8(s@);
        is_char_boundary_start_end_of_seq(s.spec_bytes());
    }
    let len = s.as_bytes().len();
    if from > to || to > len {
        return None;
    }
    if !s.is_char_boundary(from) || !s.is_char_boundary(to) {
        return None;
    }
    let (head, _) = s.split_at(to);
    proof {
        let b = s.spec_bytes();
        let h = head.spec_bytes();
        assert(h =~= b.subrange(0, to as int));
        valid_utf8_split(b, to as int);
        assert(valid_utf8(h));
        is_char_boundary_start_end_of_seq(h);
        if 0 < from && from < to {
            is_char_boundary_iff_not_is_continuation_byte(b, from as int);
            is_char_boundary_iff_not_is_continuation_byte(h, from as int);
            assert(h[from as int] == b[from as int]);
        }
        assert(is_char_boundary(h, from as int));
    }
    let (_, piece) = head.split_at(from);
    proof {
        assert(piece.spec_bytes() =~= s.spec_bytes().subrange(from as int, to as int));
        encode_utf8_decode_utf8(piece@);
    }
    Some(piece)
}

/// Parses the digits `chars[start..]`; `None` if one is not a digit or the
/// value does not fit in a `u64`.
fn parse_digits(chars: &Vec<char>, start: usize) -> (res: Option<u64>)
    requires
        start <= chars@.len(),
    ensures
        ({
            let d = chars@.subrange(start as int, chars@.len() as int);
            res == if all_digits(d) && digits_value(d) <= u64::MAX {
                Some(digits_value(d) as u64)
            } else {
                None::<u64>
            }
        }),
{
    let ghost d = chars@.subrange(start as int, chars@.len() as int);
    let mut value: u64 = 0;
    let mut i: usize = start;
    while i < chars.len()
        invariant
            start <= i <= chars@.len(),
            d == chars@.subrange(start as int, chars@.len() as int),
            all_digits(d.take(i - start)),
            value == digits_value(d.take(i - start)),
        decreases chars@.len() - i,
    {
        let c = chars[i];
        let ghost k: int = i - start;
        assert(d.take(k + 1).drop_last() =~= d.take(k));
        assert(d.take(k + 1).last() == c);
        if c < '0' || c > '9' {
            assert(!all_digits(d)) by {
                assert(d[k] == c);
            }
            return None;
        }
        let digit: u64 = (c as u32 - '0' as u32) as u64;
        assert(all_digits(d.take(k + 1))) by {
            assert forall|j: int| 0 <= j < k + 1 implies is_digit(#[trigger] d.take(k + 1)[j]) by {
                if j < k {
                    assert(d.take(k + 1)[j] == d.take(k)[j]);
                }
            }
        }
        if value > (u64::MAX - digit) / 10 {
            proof {
                assert(value * 10 + digit > u64::MAX) by (nonlinear_arith)
                    requires
                        value > (u64::MAX - digit) / 10,
                        digit <= 9,
                ;
                if all_digits(d) {
                    lemma_digits_value_prefix(d, k + 1);
                }
            }
            return None;
        }
        assert(value * 10 + digit <= u64::MAX) by (nonlinear_arith)
            requires
                value <= (u64::MAX - digit) / 10,
                digit <= 9,
        ;
        value = value * 10 + digit;
        i = i + 1;
    }
    assert(d.take(i - start) =~= d);
    Some(value)
}

/// `s.parse::<u64>()`, as an `Option`.
pub fn parse_u64(s: &str) -> (res: Option<u64>)
    ensures
        res == spec_parse_u64(s@),
{
    let v = to_chars(s);
    let start: usize = if v.len() > 0 && v[0] == '+' {
        1
    } else {
        0
    };
    assert(v@.subrange(start as int, v@.len() as int) =~= unsigned_digits(s@));
    if v.len() == start {
        return None;
    }
    parse_digits(&v, start)
}

/// `s.parse::<i64>()`, as an `Option`.
pub fn parse_i64(s: &str) -> (res: Option<i64>)
    ensures
        res == spec_parse_i64(s@),
{
    let v = to_chars(s);
    if v.len() > 0 && v[0] == '-' {
        assert(v@.subrange(1, v@.len() as int) =~= s@.drop_first());
        if v.len() == 1 {
            return None;
        }
        match parse_digits(&v, 1) {
            None => None,
            Some(m) => {
                if m > 0x8000_0000_0000_0000u64 {
                    None
                } else if m == 0x8000_0000_0000_0000u64 {
                    Some(i64::MIN)
                } else {
                    Some(0 - (m as i64))
                }
            },
        }
    } else {
        let start: usize = if v.len() > 0 && v[0] == '+' {
            1
        } else {
            0
        };
        assert(v@.subrange(start as int, v@.len() as int) =~= unsigned_digits(s@));
        if v.len() == start {
            return None;
        }
        match parse_digits(&v, start) {
            None => None,
            Some(m) => {
                if m > i64::MAX as u64 {
                    None
                } else {
                    Some(m as i64)
                }
            },
        }
    }
}

} // verus!
