//! Byte-offset arithmetic on UTF-8 text.
//!
//! Positions inside a line are byte offsets into its UTF-8 encoding. The
//! functions here relate such offsets to the `Seq<char>` view that strings
//! have in contracts.

use vstd::prelude::*;
use vstd::string::*;
use vstd::utf8::*;

verus! {

/// The UTF-8 encoding of `t`.
pub open spec fn utf8(t: Seq<char>) -> Seq<u8> {
    encode_utf8(t)
}

/// `i` is a byte offset at which a character of `t` starts, or the byte length of `t`.
pub open spec fn is_boundary(t: Seq<char>, i: int) -> bool {
    0 <= i <= utf8(t).len() && is_char_boundary(utf8(t), i)
}

/// The characters of `t` encoded by the bytes `[from, to)`.
pub open spec fn text_range(t: Seq<char>, from: int, to: int) -> Seq<char> {
    decode_utf8(utf8(t).subrange(from, to))
}

/// The encoding of two texts, one behind the other, is the encoding of
/// the first followed by the encoding of the second.
pub proof fn lemma_utf8_concat(a: Seq<char>, b: Seq<char>)
    ensures
        utf8(a + b) == utf8(a) + utf8(b),
    decreases a.len(),
{
    if a.len() == 0 {
        assert(a + b =~= b);
        assert(utf8(a) + utf8(b) =~= utf8(b));
    } else {
        lemma_utf8_concat(a.drop_first(), b);
        assert((a + b).drop_first() =~= a.drop_first() + b);
        assert((a + b)[0] == a[0]);
        assert(utf8(a + b) =~= utf8(a) + utf8(b));
    }
}

/// Two texts with the same encoding are the same text.
pub proof fn lemma_utf8_injective(a: Seq<char>, b: Seq<char>)
    requires
        utf8(a) == utf8(b),
    ensures
        a == b,
{
    encode_utf8_decode_utf8(a);
    encode_utf8_decode_utf8(b);
}

/// A boundary of a text is a boundary of each piece cut at another boundary.
pub proof fn lemma_boundary_of_pieces(bytes: Seq<u8>, cut: int, i: int)
    requires
        valid_utf8(bytes),
        0 <= cut <= bytes.len(),
        is_char_boundary(bytes, cut),
        0 <= i <= bytes.len(),
    ensures
        i <= cut ==> (is_char_boundary(bytes, i) <==> is_char_boundary(bytes.subrange(0, cut), i)),
        cut <= i ==> (is_char_boundary(bytes, i) <==> is_char_boundary(
            bytes.subrange(cut, bytes.len() as int),
            i - cut,
        )),
{
    valid_utf8_split(bytes, cut);
    let head = bytes.subrange(0, cut);
    let tail = bytes.subrange(cut, bytes.len() as int);
    is_char_boundary_start_end_of_seq(bytes);
    is_char_boundary_start_end_of_seq(head);
    is_char_boundary_start_end_of_seq(tail);
    if i < cut {
        is_char_boundary_iff_not_is_continuation_byte(bytes, i);
        is_char_boundary_iff_not_is_continuation_byte(head, i);
    }
    if cut <= i && i < bytes.len() {
        is_char_boundary_iff_not_is_continuation_byte(bytes, i);
        is_char_boundary_iff_not_is_continuation_byte(tail, i - cut);
    }
}

/// Cutting a text at a boundary loses nothing.
pub proof fn lemma_text_range_split(t: Seq<char>, cut: int)
    requires
        is_boundary(t, cut),
    ensures
        text_range(t, 0, cut) + text_range(t, cut, utf8(t).len() as int) == t,
        utf8(text_range(t, 0, cut)) == utf8(t).subrange(0, cut),
        utf8(text_range(t, cut, utf8(t).len() as int)) == utf8(t).subrange(
            cut,
            utf8(t).len() as int,
        ),
{
    let bytes = utf8(t);
    encode_utf8_valid_utf8(t);
    valid_utf8_split(bytes, cut);
    decode_utf8_split(bytes, cut);
    encode_utf8_decode_utf8(t);
    decode_utf8_encode_utf8(bytes.subrange(0, cut));
    decode_utf8_encode_utf8(bytes.subrange(cut, bytes.len() as int));
}

/// Two pieces of a text that meet at a boundary make up the piece that spans both.
pub proof fn lemma_text_range_concat(t: Seq<char>, from: int, mid: int, to: int)
    requires
        from <= mid <= to,
        is_boundary(t, from),
        is_boundary(t, mid),
        is_boundary(t, to),
    ensures
        text_range(t, from, mid) + text_range(t, mid, to) == text_range(t, from, to),
{
    let bytes = utf8(t);
    encode_utf8_valid_utf8(t);
    lemma_boundary_of_pieces(bytes, to, from);
    lemma_boundary_of_pieces(bytes, to, mid);
    valid_utf8_split(bytes, to);
    let head = bytes.subrange(0, to);
    lemma_boundary_of_pieces(head, from, mid);
    valid_utf8_split(head, from);
    let piece = head.subrange(from, to);
    assert(piece =~= bytes.subrange(from, to));
    decode_utf8_split(piece, mid - from);
    assert(piece.subrange(0, mid - from) =~= bytes.subrange(from, mid));
    assert(piece.subrange(mid - from, piece.len() as int) =~= bytes.subrange(mid, to));
}

/// The bytes of a piece of a text between two boundaries are those bytes of the text.
pub proof fn lemma_text_range_bytes(t: Seq<char>, from: int, to: int)
    requires
        from <= to,
        is_boundary(t, from),
        is_boundary(t, to),
    ensures
        utf8(text_range(t, from, to)) == utf8(t).subrange(from, to),
{
    let bytes = utf8(t);
    encode_utf8_valid_utf8(t);
    lemma_boundary_of_pieces(bytes, to, from);
    valid_utf8_split(bytes, to);
    let head = bytes.subrange(0, to);
    valid_utf8_split(head, from);
    assert(head.subrange(from, head.len() as int) =~= bytes.subrange(from, to));
    decode_utf8_encode_utf8(bytes.subrange(from, to));
}

/// A boundary of a text that lies in a piece between two boundaries is a
/// boundary of the piece, counted from the start of the piece.
pub proof fn lemma_boundary_in_range(t: Seq<char>, from: int, to: int, i: int)
    requires
        from <= i <= to,
        is_boundary(t, from),
        is_boundary(t, to),
        is_boundary(t, i),
    ensures
        is_boundary(text_range(t, from, to), i - from),
{
    let bytes = utf8(t);
    encode_utf8_valid_utf8(t);
    lemma_text_range_bytes(t, from, to);
    lemma_boundary_of_pieces(bytes, to, from);
    lemma_boundary_of_pieces(bytes, to, i);
    valid_utf8_split(bytes, to);
    let head = bytes.subrange(0, to);
    lemma_boundary_of_pieces(head, from, i);
    assert(head.subrange(from, head.len() as int) =~= bytes.subrange(from, to));
}

/// The boundaries of two texts are boundaries of the text that holds
/// one behind the other: those of the first where they are, those of the
/// second moved by the byte length of the first.
pub proof fn lemma_boundary_in_concat(a: Seq<char>, b: Seq<char>, i: int)
    ensures
        is_boundary(a, i) ==> is_boundary(a + b, i),
        is_boundary(b, i) ==> is_boundary(a + b, utf8(a).len() + i),
{
    let x = utf8(a);
    let y = utf8(b);
    lemma_utf8_concat(a, b);
    encode_utf8_valid_utf8(a);
    encode_utf8_valid_utf8(b);
    encode_utf8_valid_utf8(a + b);
    let all = x + y;
    let cut = x.len() as int;
    is_char_boundary_start_end_of_seq(all);
    is_char_boundary_start_end_of_seq(y);
    assert(is_char_boundary(all, cut)) by {
        if y.len() > 0 {
            is_char_boundary_iff_not_is_continuation_byte(y, 0);
            is_char_boundary_iff_not_is_continuation_byte(all, cut);
        }
    }
    assert(all.subrange(0, cut) =~= x);
    assert(all.subrange(cut, all.len() as int) =~= y);
    if is_boundary(a, i) {
        lemma_boundary_of_pieces(all, cut, i);
    }
    if is_boundary(b, i) {
        lemma_boundary_of_pieces(all, cut, cut + i);
    }
}

/// A well-formed encoding that another begins with ends at a boundary of the other.
pub proof fn lemma_prefix_ends_at_boundary(t: Seq<u8>, n: Seq<u8>)
    requires
        valid_utf8(t),
        valid_utf8(n),
        n.len() <= t.len(),
        t.subrange(0, n.len() as int) == n,
    ensures
        is_char_boundary(t, n.len() as int),
    decreases n.len(),
{
    if n.len() > 0 {
        let l = length_of_first_scalar(n);
        assert(t[0] == t.subrange(0, n.len() as int)[0]);
        assert(length_of_first_scalar(t) == l);
        let t2 = pop_first_scalar(t);
        let n2 = pop_first_scalar(n);
        assert(t2.subrange(0, n2.len() as int) =~= n2) by {
            assert forall|k: int| 0 <= k < n2.len() implies t2.subrange(0, n2.len() as int)[k]
                == n2[k] by {
                assert(t.subrange(0, n.len() as int)[l + k] == n[l + k]);
            }
        }
        lemma_prefix_ends_at_boundary(t2, n2);
    }
}

/// Where a non-empty text occurs in another, it begins and ends at
/// character boundaries of the other.
pub proof fn lemma_occurrence_bounds(hay: Seq<char>, needle: Seq<char>, p: int)
    requires
        utf8(needle).len() > 0,
        occurs_at(utf8(hay), utf8(needle), p),
    ensures
        is_boundary(hay, p),
        is_boundary(hay, p + utf8(needle).len()),
{
    let h = utf8(hay);
    let n = utf8(needle);
    encode_utf8_valid_utf8(hay);
    encode_utf8_valid_utf8(needle);
    is_char_boundary_start_end_of_seq(n);
    is_char_boundary_iff_not_is_continuation_byte(n, 0);
    assert(h[p] == h.subrange(p, p + n.len())[0]);
    is_char_boundary_iff_not_is_continuation_byte(h, p);
    valid_utf8_split(h, p);
    let tail = h.subrange(p, h.len() as int);
    assert(tail.subrange(0, n.len() as int) =~= n);
    lemma_prefix_ends_at_boundary(tail, n);
    lemma_boundary_of_pieces(h, p, p + n.len());
}

/// Every character of `t` is a printable ASCII character, from the space to the tilde.
pub open spec fn printable_ascii(t: Seq<char>) -> bool {
    forall|i: int| 0 <= i < t.len() ==> ' ' <= #[trigger] t[i] <= '~'
}

/// A text of printable ASCII characters takes one byte for each, and its
/// piece between two bytes is the piece between the same two characters.
pub proof fn lemma_ascii_range(t: Seq<char>, from: int, to: int)
    requires
        printable_ascii(t),
        0 <= from <= to <= t.len(),
    ensures
        utf8(t).len() == t.len(),
        text_range(t, from, to) == t.subrange(from, to),
        printable_ascii(t.subrange(from, to)),
{
    let part = t.subrange(from, to);
    assert(is_ascii_chars(t));
    assert(is_ascii_chars(part));
    is_ascii_chars_encode_utf8(t);
    is_ascii_chars_encode_utf8(part);
    assert(utf8(t).subrange(from, to) =~= utf8(part)) by {
        assert forall|k: int| 0 <= k < part.len() implies utf8(t).subrange(from, to)[k] == utf8(
            part,
        )[k] by {
            assert(utf8(t)[from + k] == t[from + k] as u8);
            assert(utf8(part)[k] == part[k] as u8);
        }
    }
    encode_utf8_decode_utf8(part);
}

/// A text of one ASCII character takes one byte.
pub proof fn lemma_utf8_of_ascii(c: char)
    requires
        c <= '\u{7f}',
    ensures
        utf8(seq![c]).len() == 1,
{
    assert(is_ascii_chars(seq![c]));
    is_ascii_chars_encode_utf8(seq![c]);
}

/// Length of `s` in bytes.
pub fn byte_len(s: &str) -> (n: usize)
    ensures
        n == utf8(s@).len(),
{
    s.as_bytes().len()
}

/// The part of `s` between two byte offsets that are character boundaries.
pub fn substring<'a>(s: &'a str, from: usize, to: usize) -> (r: &'a str)
    requires
        from <= to,
        is_boundary(s@, from as int),
        is_boundary(s@, to as int),
    ensures
        r@ == text_range(s@, from as int, to as int),
        utf8(r@) == utf8(s@).subrange(from as int, to as int),
{
    proof {
        encode_utf8_valid_utf8(s@);
        lemma_boundary_of_pieces(utf8(s@), to as int, from as int);
    }
    let (head, _) = s.split_at(to);
    let (_, r) = head.split_at(from);
    proof {
        assert(utf8(r@) =~= utf8(s@).subrange(from as int, to as int));
        encode_utf8_decode_utf8(r@);
    }
    r
}

/// `t` with the bytes `[from, to)` replaced by `mid`.
pub open spec fn spliced(t: Seq<char>, from: int, to: int, mid: Seq<char>) -> Seq<char> {
    text_range(t, 0, from) + mid + text_range(t, to, utf8(t).len() as int)
}

/// Calls `String::push`. Trusted: it appends the character to the end of the string.
#[verifier::external_body]
pub(crate) fn push_char(s: &mut String, c: char)
    ensures
        final(s)@ == old(s)@.push(c),
{
    s.push(c);
}

/// A copy of `s` in which `mid` stands in place of the bytes `[from, to)`.
pub fn splice(s: &str, from: usize, to: usize, mid: &str) -> (r: String)
    requires
        from <= to,
        is_boundary(s@, from as int),
        is_boundary(s@, to as int),
    ensures
        r@ == spliced(s@, from as int, to as int, mid@),
{
    proof {
        encode_utf8_valid_utf8(s@);
        is_char_boundary_start_end_of_seq(utf8(s@));
    }
    let n: usize = byte_len(s);
    let mut r = String::from_str(substring(s, 0, from));
    r.append(mid);
    r.append(substring(s, to, n));
    r
}

/// Index of the first line feed of `t` at or after `i`; the length of `t` where there is none.
pub open spec fn line_end(t: Seq<char>, i: int) -> int
    decreases t.len() - i,
{
    if i < 0 || i >= t.len() {
        t.len() as int
    } else if t[i] == '\n' {
        i
    } else {
        line_end(t, i + 1)
    }
}

/// `t` without the carriage return that it ends with, if it ends with one.
pub open spec fn without_cr(t: Seq<char>) -> Seq<char> {
    if t.len() > 0 && t.last() == '\r' {
        t.drop_last()
    } else {
        t
    }
}

/// The lines of `t`. A line ends with a line feed, or with a carriage
/// return and a line feed, neither of which belongs to the line; the last
/// line may also end with the text, and then keeps a carriage return that
/// it ends with.
pub open spec fn text_lines(t: Seq<char>) -> Seq<Seq<char>>
    decreases t.len(),
{
    if t.len() == 0 {
        seq![]
    } else {
        let n = line_end(t, 0);
        if n < 0 || n >= t.len() {
            seq![t]
        } else {
            seq![without_cr(t.subrange(0, n))] + text_lines(t.subrange(n + 1, t.len() as int))
        }
    }
}

/// Calls `str::lines`. Trusted: the lines are the parts of `s` that end
/// with a line feed or with a carriage return and a line feed, without that
/// ending, and the rest of `s` behind the last line feed where there is any.
#[verifier::external_body]
pub(crate) fn split_lines(s: &str) -> (r: Vec<String>)
    ensures
        r@.len() == text_lines(s@).len(),
        forall|i: int| 0 <= i < r@.len() ==> (#[trigger] r@[i])@ == text_lines(s@)[i],
{
    s.lines().map(String::from).collect()
}

/// The parts of `text` between runs of whitespace, in order.
pub uninterp spec fn whitespace_words(text: Seq<char>) -> Seq<Seq<char>>;

/// Calls `str::split_whitespace`. Trusted: the result holds the parts of
/// `s` that whitespace separates, in order.
#[verifier::external_body]
pub(crate) fn split_words(s: &str) -> (r: Vec<String>)
    ensures
        r@.len() == whitespace_words(s@).len(),
        forall|i: int| 0 <= i < r@.len() ==> (#[trigger] r@[i])@ == whitespace_words(s@)[i],
{
    s.split_whitespace().map(String::from).collect()
}

/// The decimal digit of the number `d`, which is less than ten.
pub open spec fn digit(d: nat) -> char {
    if d == 0 {
        '0'
    } else if d == 1 {
        '1'
    } else if d == 2 {
        '2'
    } else if d == 3 {
        '3'
    } else if d == 4 {
        '4'
    } else if d == 5 {
        '5'
    } else if d == 6 {
        '6'
    } else if d == 7 {
        '7'
    } else if d == 8 {
        '8'
    } else {
        '9'
    }
}

/// The number `n` written in decimal digits.
pub open spec fn decimal(n: nat) -> Seq<char>
    decreases n,
{
    if n < 10 {
        seq![digit(n)]
    } else {
        decimal(n / 10).push(digit(n % 10))
    }
}

/// `n` spaces.
pub open spec fn spaces(n: nat) -> Seq<char> {
    Seq::new(n, |i: int| ' ')
}

/// The decimal digit of the number `d`.
pub fn digit_char(d: usize) -> (r: char)
    requires
        d < 10,
    ensures
        r == digit(d as nat),
{
    match d {
        0 => '0',
        1 => '1',
        2 => '2',
        3 => '3',
        4 => '4',
        5 => '5',
        6 => '6',
        7 => '7',
        8 => '8',
        _ => '9',
    }
}

/// The number `n` written in decimal digits.
pub fn usize_to_string(n: usize) -> (r: String)
    ensures
        r@ == decimal(n as nat),
    decreases n,
{
    if n < 10 {
        let mut s = String::new();
        push_char(&mut s, digit_char(n));
        assert(s@ =~= seq![digit(n as nat)]);
        s
    } else {
        let mut s = usize_to_string(n / 10);
        push_char(&mut s, digit_char(n % 10));
        s
    }
}

/// A string of `n` spaces.
pub fn spaces_string(n: usize) -> (r: String)
    ensures
        r@ == spaces(n as nat),
{
    let mut s = String::new();
    let mut i: usize = 0;
    while i < n
        invariant
            i <= n,
            s@ == spaces(i as nat),
        decreases n - i,
    {
        push_char(&mut s, ' ');
        proof {
            assert(s@ =~= spaces((i + 1) as nat));
        }
        i += 1;
    }
    proof {
        assert(s@ =~= spaces(n as nat));
    }
    s
}

/// Whether two strings hold the same text.
pub fn str_eq(a: &str, b: &str) -> (r: bool)
    ensures
        r == (a@ == b@),
{
    let x = a.as_bytes();
    let y = b.as_bytes();
    let r = x.len() == y.len() && matches_at(x, y, 0);
    proof {
        if r {
            assert(x@.subrange(0, x@.len() as int) =~= x@);
            lemma_utf8_injective(a@, b@);
        }
        if a@ == b@ {
            assert(x@.subrange(0, x@.len() as int) =~= x@);
        }
    }
    r
}

/// `needle` stands in `hay` at offset `p`.
pub open spec fn occurs_at(hay: Seq<u8>, needle: Seq<u8>, p: int) -> bool {
    &&& 0 <= p
    &&& p + needle.len() <= hay.len()
    &&& hay.subrange(p, p + needle.len()) == needle
}

/// The least offset at or after `from` at which `needle` stands in `hay`.
pub open spec fn first_occurrence(hay: Seq<u8>, needle: Seq<u8>, from: int) -> Option<int>
    decreases hay.len() as int + 1 - from,
{
    if from < 0 || from + needle.len() > hay.len() {
        None
    } else if occurs_at(hay, needle, from) {
        Some(from)
    } else {
        first_occurrence(hay, needle, from + 1)
    }
}

/// `first_occurrence` finds an occurrence, and no occurrence lies between
/// `from` and what it finds.
pub proof fn lemma_first_occurrence(hay: Seq<u8>, needle: Seq<u8>, from: int)
    requires
        0 <= from,
    ensures
        match first_occurrence(hay, needle, from) {
            Some(p) => from <= p && occurs_at(hay, needle, p) && forall|q: int|
                from <= q < p ==> !occurs_at(hay, needle, q),
            None => forall|q: int| from <= q ==> !occurs_at(hay, needle, q),
        },
    decreases hay.len() as int + 1 - from,
{
    if from + needle.len() > hay.len() {
    } else if occurs_at(hay, needle, from) {
    } else {
        lemma_first_occurrence(hay, needle, from + 1);
    }
}

/// The occurrences of a non-empty `needle` in `hay` from offset `from` on,
/// each as the pair of its first byte and the byte after its last, found
/// from left to right so that none overlaps the one before.
pub open spec fn occurrences(hay: Seq<u8>, needle: Seq<u8>, from: int) -> Seq<(usize, usize)>
    decreases hay.len() as int + 1 - from,
{
    if needle.len() == 0 || from < 0 || from + needle.len() > hay.len() {
        seq![]
    } else if occurs_at(hay, needle, from) {
        seq![(from as usize, (from + needle.len()) as usize)] + occurrences(
            hay,
            needle,
            from + needle.len(),
        )
    } else {
        occurrences(hay, needle, from + 1)
    }
}

/// Every occurrence that `occurrences` lists begins and ends at a
/// character boundary of the text, and is not empty.
pub proof fn lemma_occurrences_bounds(hay: Seq<char>, needle: Seq<char>, from: int)
    requires
        0 <= from,
        utf8(hay).len() <= usize::MAX,
    ensures
        forall|k: int|
            0 <= k < occurrences(utf8(hay), utf8(needle), from).len() ==> {
                let found = #[trigger] occurrences(utf8(hay), utf8(needle), from)[k];
                &&& is_boundary(hay, found.0 as int)
                &&& is_boundary(hay, found.1 as int)
                &&& found.0 < found.1
            },
    decreases utf8(hay).len() as int + 1 - from,
{
    let h = utf8(hay);
    let n = utf8(needle);
    if n.len() == 0 || from + n.len() > h.len() {
        assert(occurrences(h, n, from) =~= seq![]);
    } else if occurs_at(h, n, from) {
        lemma_occurrence_bounds(hay, needle, from);
        lemma_occurrences_bounds(hay, needle, from + n.len());
        let rest = occurrences(h, n, from + n.len());
        let all = occurrences(h, n, from);
        assert forall|k: int| 0 <= k < all.len() implies {
            let found = #[trigger] all[k];
            &&& is_boundary(hay, found.0 as int)
            &&& is_boundary(hay, found.1 as int)
            &&& found.0 < found.1
        } by {
            if k > 0 {
                assert(all[k] == rest[k - 1]);
            }
        }
    } else {
        lemma_occurrences_bounds(hay, needle, from + 1);
        assert(occurrences(h, n, from) == occurrences(h, n, from + 1));
    }
}

/// Whether `needle` stands in `hay` at offset `p`.
pub fn matches_at(hay: &[u8], needle: &[u8], p: usize) -> (r: bool)
    requires
        p + needle@.len() <= hay@.len(),
    ensures
        r == occurs_at(hay@, needle@, p as int),
{
    let n: usize = hay.len();
    let m: usize = needle.len();
    let mut k: usize = 0;
    while k < m
        invariant
            k <= m,
            m == needle@.len(),
            n == hay@.len(),
            p + m <= hay@.len(),
            forall|j: int| 0 <= j < k ==> hay@[p + j] == needle@[j],
        decreases m - k,
    {
        if hay[p + k] != needle[k] {
            proof {
                assert(hay@.subrange(p as int, p + m)[k as int] == hay@[p + k]);
            }
            return false;
        }
        k += 1;
    }
    proof {
        assert(hay@.subrange(p as int, p + m) =~= needle@);
    }
    true
}

/// The least offset at or after `from` at which `needle` stands in `hay`.
pub fn find_bytes(hay: &[u8], needle: &[u8], from: usize) -> (r: Option<usize>)
    ensures
        match r {
            Some(p) => first_occurrence(hay@, needle@, from as int) == Some(p as int),
            None => first_occurrence(hay@, needle@, from as int) is None,
        },
{
    let n: usize = hay.len();
    let m: usize = needle.len();
    if m > n || from > n - m {
        return None;
    }
    let last: usize = n - m;
    let mut p: usize = from;
    loop
        invariant
            m <= n,
            n == hay@.len(),
            m == needle@.len(),
            last == n - m,
            from <= p <= last,
            first_occurrence(hay@, needle@, from as int) == first_occurrence(
                hay@,
                needle@,
                p as int,
            ),
        decreases last - p,
    {
        if matches_at(hay, needle, p) {
            return Some(p);
        }
        if p == last {
            return None;
        }
        p += 1;
    }
}

/// All occurrences of a non-empty `needle` in `hay`, none overlapping another.
pub fn find_all_bytes(hay: &[u8], needle: &[u8]) -> (r: Vec<(usize, usize)>)
    ensures
        r@ == occurrences(hay@, needle@, 0),
{
    let n: usize = hay.len();
    let m: usize = needle.len();
    let mut found: Vec<(usize, usize)> = Vec::new();
    if m == 0 || m > n {
        return found;
    }
    let last: usize = n - m;
    let mut p: usize = 0;
    while p <= last
        invariant
            0 < m <= n,
            n == hay@.len(),
            m == needle@.len(),
            last == n - m,
            p <= n,
            occurrences(hay@, needle@, 0) == found@ + occurrences(hay@, needle@, p as int),
        decreases n - p,
    {
        if matches_at(hay, needle, p) {
            found.push((p, p + m));
            proof {
                assert(occurrences(hay@, needle@, 0) =~= found@ + occurrences(
                    hay@,
                    needle@,
                    p + m,
                ));
            }
            p += m;
        } else {
            p += 1;
        }
    }
    proof {
        assert(occurrences(hay@, needle@, 0) =~= found@);
    }
    found
}

} // verus!
