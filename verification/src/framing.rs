//! Message framing on a byte stream: each message is preceded by a header
//! block that gives its length, `Content-Length: N`, and ends with an empty
//! line.

use vstd::prelude::*;
use vstd::string::StringSliceAdditionalSpecFns;

verus! {

/// The digit byte that writes the digit `d`.
pub open spec fn digit_byte(d: nat) -> u8 {
    (48 + d) as u8
}

/// Whether the byte `b` is a decimal digit.
pub open spec fn is_digit_byte(b: u8) -> bool {
    48 <= b <= 57
}

/// The decimal text of `n`, most significant digit first, without leading zeros.
pub open spec fn decimal_bytes(n: nat) -> Seq<u8>
    decreases n,
{
    if n < 10 {
        seq![digit_byte(n)]
    } else {
        decimal_bytes(n / 10).push(digit_byte(n % 10))
    }
}

/// The number that the decimal digits `s` write.
pub open spec fn decimal_value(s: Seq<u8>) -> nat
    decreases s.len(),
{
    if s.len() == 0 {
        0
    } else {
        decimal_value(s.drop_last()) * 10 + (s.last() - 48) as nat
    }
}

/// Every byte of `s` is a decimal digit.
pub open spec fn all_digits(s: Seq<u8>) -> bool {
    forall|i: int| 0 <= i < s.len() ==> is_digit_byte(#[trigger] s[i])
}

/// The digits of a number read back give the number.
pub proof fn lemma_decimal_roundtrip(n: nat)
    ensures
        decimal_bytes(n).len() > 0,
        all_digits(decimal_bytes(n)),
        decimal_value(decimal_bytes(n)) == n,
    decreases n,
{
    if n < 10 {
        let s = decimal_bytes(n);
        assert(s.drop_last() =~= Seq::<u8>::empty());
        assert(s.last() == digit_byte(n));
        assert(decimal_value(s) == decimal_value(s.drop_last()) * 10 + (s.last() - 48) as nat);
    } else {
        lemma_decimal_roundtrip(n / 10);
        let s = decimal_bytes(n);
        assert(s.drop_last() =~= decimal_bytes(n / 10));
        assert(s.last() == digit_byte(n % 10));
        assert(decimal_value(s) == decimal_value(s.drop_last()) * 10 + (s.last() - 48) as nat);
        assert forall|i: int| 0 <= i < s.len() implies is_digit_byte(#[trigger] s[i]) by {
            if i < s.len() - 1 {
                assert(s[i] == decimal_bytes(n / 10)[i]);
            }
        }
    }
}

/// The bytes of the header name, colon included: `Content-Length:`.
pub open spec fn length_name() -> Seq<u8> {
    seq![67u8, 111, 110, 116, 101, 110, 116, 45, 76, 101, 110, 103, 116, 104, 58]
}

/// Carriage return, line feed.
pub open spec fn crlf() -> Seq<u8> {
    seq![13u8, 10]
}

/// The header block written before a message of `n` bytes:
/// `Content-Length: n`, then an empty line, each line ending in CR LF.
pub open spec fn length_header(n: nat) -> Seq<u8> {
    length_name() + seq![32u8] + decimal_bytes(n) + crlf() + crlf()
}

/// The header block written before a message of `len` bytes.
pub fn length_header_bytes(len: usize) -> (h: Vec<u8>)
    ensures
        h@ == length_header(len as nat),
{
    let mut h: Vec<u8> = Vec::new();
    let name: [u8; 15] = [67, 111, 110, 116, 101, 110, 116, 45, 76, 101, 110, 103, 116, 104, 58];
    let mut i: usize = 0;
    while i < 15
        invariant
            i <= 15,
            name@ == length_name(),
            h@ == length_name().subrange(0, i as int),
        decreases 15 - i,
    {
        h.push(name[i]);
        i = i + 1;
        proof {
            assert(h@ =~= length_name().subrange(0, i as int));
        }
    }
    h.push(32u8);
    let digits = decimal_of(len);
    let mut j: usize = 0;
    let ghost base = h@;
    while j < digits.len()
        invariant
            j <= digits@.len(),
            h@ == base + digits@.subrange(0, j as int),
        decreases digits@.len() - j,
    {
        h.push(digits[j]);
        j = j + 1;
        proof {
            assert(h@ =~= base + digits@.subrange(0, j as int));
        }
    }
    h.push(13u8);
    h.push(10u8);
    h.push(13u8);
    h.push(10u8);
    proof {
        assert(digits@.subrange(0, digits@.len() as int) =~= digits@);
        assert(h@ =~= length_header(len as nat));
    }
    h
}

/// The decimal text of `n`.
fn decimal_of(n: usize) -> (d: Vec<u8>)
    ensures
        d@ == decimal_bytes(n as nat),
    decreases n,
{
    if n < 10 {
        let mut d: Vec<u8> = Vec::new();
        d.push((48 + n) as u8);
        proof {
            assert(d@ =~= decimal_bytes(n as nat));
        }
        d
    } else {
        let mut d = decimal_of(n / 10);
        d.push((48 + n % 10) as u8);
        d
    }
}

/// What one line of a header block says.
#[derive(Debug, Clone, Copy, PartialEq, Eq)]
pub enum HeaderLine {
    /// The empty line that ends the block.
    End,
    /// The length of the message that follows the block.
    ContentLength(usize),
    /// Another header, which is skipped.
    Other,
    /// A length header whose value is not a length.
    Malformed,
}

/// The line `l` without its line ending: a final LF, then a final CR, are dropped.
pub open spec fn line_text(l: Seq<u8>) -> Seq<u8> {
    let a = if l.len() > 0 && l.last() == 10 { l.drop_last() } else { l };
    if a.len() > 0 && a.last() == 13 { a.drop_last() } else { a }
}

/// Whether `b` is a space or a tab.
pub open spec fn is_blank(b: u8) -> bool {
    b == 32 || b == 9
}

/// The index of the first byte of `s` at or after `i` that is not blank,
/// or the length of `s`.
pub open spec fn skip_blank(s: Seq<u8>, i: int) -> int
    decreases s.len() - i,
{
    if i < 0 || i >= s.len() || !is_blank(s[i]) {
        i
    } else {
        skip_blank(s, i + 1)
    }
}

/// The index just past the last byte of `s` before `j` that is not blank,
/// going no lower than `lo`.
pub open spec fn back_blank(s: Seq<u8>, j: int, lo: int) -> int
    decreases j,
{
    if j <= lo || j <= 0 || j > s.len() || !is_blank(s[j - 1]) {
        j
    } else {
        back_blank(s, j - 1, lo)
    }
}

/// `s` without the blanks at its start and end.
pub open spec fn trim_blanks(s: Seq<u8>) -> Seq<u8> {
    let a = skip_blank(s, 0);
    s.subrange(a, back_blank(s, s.len() as int, a))
}

/// What the header line `l` says.
pub open spec fn header_line(l: Seq<u8>) -> HeaderLine {
    let t = line_text(l);
    if t.len() == 0 {
        HeaderLine::End
    } else if t.len() >= length_name().len() && t.subrange(0, length_name().len() as int) == length_name() {
        let v = trim_blanks(t.subrange(length_name().len() as int, t.len() as int));
        if v.len() > 0 && all_digits(v) && decimal_value(v) <= usize::MAX {
            HeaderLine::ContentLength(decimal_value(v) as usize)
        } else {
            HeaderLine::Malformed
        }
    } else {
        HeaderLine::Other
    }
}

proof fn lemma_skip_blank_bounds(s: Seq<u8>, i: int)
    requires
        0 <= i <= s.len(),
    ensures
        i <= skip_blank(s, i) <= s.len(),
    decreases s.len() - i,
{
    if i < s.len() && is_blank(s[i]) {
        lemma_skip_blank_bounds(s, i + 1);
    }
}

proof fn lemma_back_blank_bounds(s: Seq<u8>, j: int, lo: int)
    requires
        0 <= lo <= j <= s.len(),
    ensures
        lo <= back_blank(s, j, lo) <= j,
    decreases j,
{
    if j > lo && j > 0 && is_blank(s[j - 1]) {
        lemma_back_blank_bounds(s, j - 1, lo);
    }
}

/// Reads the number written by the digits `s[from..to]`, if it fits in a `usize`.
fn parse_decimal(s: &[u8], from: usize, to: usize) -> (r: Option<usize>)
    requires
        from <= to <= s@.len(),
    ensures
        match r {
            Some(n) => all_digits(s@.subrange(from as int, to as int))
                && decimal_value(s@.subrange(from as int, to as int)) == n,
            None => !all_digits(s@.subrange(from as int, to as int))
                || decimal_value(s@.subrange(from as int, to as int)) > usize::MAX,
        },
{
    let mut acc: usize = 0;
    let mut i: usize = from;
    while i < to
        invariant
            from <= i <= to <= s@.len(),
            all_digits(s@.subrange(from as int, i as int)),
            decimal_value(s@.subrange(from as int, i as int)) == acc,
        decreases to - i,
    {
        let b = s[i];
        proof {
            assert(s@.subrange(from as int, i + 1).drop_last() =~= s@.subrange(from as int, i as int));
        }
        if b < 48 || b > 57 {
            proof {
                assert(!is_digit_byte(s@.subrange(from as int, to as int)[i - from]));
            }
            return None;
        }
        let d = (b - 48) as usize;
        if acc > (usize::MAX - d) / 10 {
            proof {
                let whole = s@.subrange(from as int, to as int);
                let k = (i - from + 1) as int;
                assert(whole.subrange(0, k) =~= s@.subrange(from as int, i + 1));
                assert(acc * 10 + d > usize::MAX) by (nonlinear_arith)
                    requires acc > (usize::MAX - d) / 10, d <= 9;
                if all_digits(whole) {
                    lemma_value_grows(whole, k);
                }
            }
            return None;
        }
        proof {
            assert(acc * 10 + d <= usize::MAX) by (nonlinear_arith)
                requires acc <= (usize::MAX - d) / 10, d <= 9;
        }
        acc = acc * 10 + d;
        i = i + 1;
        proof {
            let t = s@.subrange(from as int, i as int);
            assert forall|k: int| 0 <= k < t.len() implies is_digit_byte(#[trigger] t[k]) by {
                if k < t.len() - 1 {
                    assert(t[k] == s@.subrange(from as int, i - 1)[k]);
                }
            }
        }
    }
    Some(acc)
}

/// The value of a prefix of digits is no more than the value of the digits.
proof fn lemma_value_grows(s: Seq<u8>, k: int)
    requires
        0 <= k <= s.len(),
        all_digits(s),
    ensures
        decimal_value(s.subrange(0, k)) <= decimal_value(s),
    decreases s.len(),
{
    if k < s.len() {
        assert(s.drop_last().subrange(0, k) =~= s.subrange(0, k));
        assert forall|i: int| 0 <= i < s.drop_last().len() implies is_digit_byte(#[trigger] s.drop_last()[i]) by {
            assert(s.drop_last()[i] == s[i]);
        }
        lemma_value_grows(s.drop_last(), k);
        assert(s.last() >= 48) by {
            assert(is_digit_byte(s[s.len() - 1]));
        }
        assert(decimal_value(s.drop_last()) <= decimal_value(s.drop_last()) * 10) by (nonlinear_arith);
    } else {
        assert(s.subrange(0, k) =~= s);
    }
}

/// What the header line `line` (with or without its line ending) says.
pub fn parse_header_line(line: &[u8]) -> (h: HeaderLine)
    ensures
        h == header_line(line@),
{
    let ghost l = line@;
    let mut end: usize = line.len();
    if end > 0 && line[end - 1] == 10 {
        end = end - 1;
    }
    if end > 0 && line[end - 1] == 13 {
        end = end - 1;
    }
    let ghost t = line_text(l);
    proof {
        let a = if l.len() > 0 && l.last() == 10 { l.drop_last() } else { l };
        assert(a =~= l.subrange(0, if l.len() > 0 && l.last() == 10 { l.len() - 1 } else { l.len() as int }));
        assert(t =~= l.subrange(0, end as int));
    }
    if end == 0 {
        return HeaderLine::End;
    }
    let name: [u8; 15] = [67, 111, 110, 116, 101, 110, 116, 45, 76, 101, 110, 103, 116, 104, 58];
    if end < 15 {
        return HeaderLine::Other;
    }
    let mut i: usize = 0;
    while i < 15
        invariant
            i <= 15 <= end <= line@.len(),
            name@ == length_name(),
            t == line@.subrange(0, end as int),
            forall|k: int| 0 <= k < i ==> line@[k] == length_name()[k],
        decreases 15 - i,
    {
        if line[i] != name[i] {
            proof {
                assert(t.subrange(0, 15)[i as int] != length_name()[i as int]);
            }
            return HeaderLine::Other;
        }
        i = i + 1;
    }
    proof {
        assert(t.subrange(0, 15) =~= length_name());
    }
    let mut a: usize = 15;
    let ghost v0 = t.subrange(15, t.len() as int);
    while a < end && (line[a] == 32 || line[a] == 9)
        invariant
            15 <= a <= end <= line@.len(),
            t == line@.subrange(0, end as int),
            v0 == t.subrange(15, t.len() as int),
            skip_blank(v0, a - 15) == skip_blank(v0, 0),
        decreases end - a,
    {
        proof {
            assert(v0[a - 15] == line@[a as int]);
        }
        a = a + 1;
    }
    proof {
        if a < end {
            assert(v0[a - 15] == line@[a as int]);
        }
        lemma_skip_blank_bounds(v0, 0);
    }
    let mut b: usize = end;
    while b > a && (line[b - 1] == 32 || line[b - 1] == 9)
        invariant
            15 <= a <= b <= end <= line@.len(),
            t == line@.subrange(0, end as int),
            v0 == t.subrange(15, t.len() as int),
            a - 15 == skip_blank(v0, 0),
            back_blank(v0, b - 15, a - 15) == back_blank(v0, v0.len() as int, a - 15),
        decreases b,
    {
        proof {
            assert(v0[b - 15 - 1] == line@[b - 1]);
        }
        b = b - 1;
    }
    proof {
        if b > a {
            assert(v0[b - 15 - 1] == line@[b - 1]);
        }
        assert(trim_blanks(v0) =~= line@.subrange(a as int, b as int));
    }
    if a == b {
        return HeaderLine::Malformed;
    }
    match parse_decimal(line, a, b) {
        Some(n) => HeaderLine::ContentLength(n),
        None => HeaderLine::Malformed,
    }
}


/// Where reading a header block stands after a line.
#[derive(Debug, Clone, Copy, PartialEq, Eq)]
pub enum HeaderStep {
    /// The block goes on; read the next line.
    More,
    /// The block ended; a message of this many bytes follows.
    Body(usize),
    /// The block ended without giving a length.
    MissingLength,
    /// A length header did not hold a length.
    BadLength,
}

/// A header block being read, line by line: the length it gave so far.
pub struct HeaderBlock {
    length: Option<usize>,
}

impl HeaderBlock {
    /// The length given by the lines read so far (the last length line wins).
    pub closed spec fn spec_length(&self) -> Option<usize> {
        self.length
    }

    /// A block of which no line was read.
    pub fn new() -> (b: Self)
        ensures
            b.spec_length() is None,
    {
        HeaderBlock { length: None }
    }

    /// Reads the next line of the block.
    pub fn feed(&mut self, line: &[u8]) -> (step: HeaderStep)
        ensures
            match header_line(line@) {
                HeaderLine::End => final(self).spec_length() == old(self).spec_length() && step == match old(self).spec_length() {
                    Some(n) => HeaderStep::Body(n),
                    None => HeaderStep::MissingLength,
                },
                HeaderLine::ContentLength(n) => final(self).spec_length() == Some(n) && step == HeaderStep::More,
                HeaderLine::Other => final(self).spec_length() == old(self).spec_length() && step == HeaderStep::More,
                HeaderLine::Malformed => final(self).spec_length() == old(self).spec_length() && step == HeaderStep::BadLength,
            },
    {
        match parse_header_line(line) {
            HeaderLine::End => match self.length {
                Some(n) => HeaderStep::Body(n),
                None => HeaderStep::MissingLength,
            },
            HeaderLine::ContentLength(n) => {
                self.length = Some(n);
                HeaderStep::More
            },
            HeaderLine::Other => HeaderStep::More,
            HeaderLine::Malformed => HeaderStep::BadLength,
        }
    }
}

/// The bytes written for the message `body`: its header block, then the body.
pub fn frame_message(body: &str) -> (f: Vec<u8>)
    ensures
        f@ == length_header(body.spec_bytes().len() as nat) + body.spec_bytes(),
{
    let bytes = body.as_bytes();
    let mut f = length_header_bytes(bytes.len());
    let ghost head = f@;
    let mut i: usize = 0;
    while i < bytes.len()
        invariant
            i <= bytes@.len(),
            bytes@ == body.spec_bytes(),
            f@ == head + bytes@.subrange(0, i as int),
        decreases bytes@.len() - i,
    {
        f.push(bytes[i]);
        i = i + 1;
        proof {
            assert(f@ =~= head + bytes@.subrange(0, i as int));
        }
    }
    proof {
        assert(bytes@.subrange(0, bytes@.len() as int) =~= bytes@);
    }
    f
}

/// The first line of `s`: its bytes up to and including the first line feed,
/// or all of `s` when it holds none.
pub open spec fn first_line(s: Seq<u8>) -> Seq<u8>
    decreases s.len(),
{
    if s.len() == 0 {
        s
    } else if s[0] == 10 {
        seq![10u8]
    } else {
        seq![s[0]] + first_line(s.drop_first())
    }
}

/// The first line of a non-empty `s` is a non-empty prefix of it.
pub proof fn lemma_first_line_prefix(s: Seq<u8>)
    requires
        s.len() > 0,
    ensures
        1 <= first_line(s).len() <= s.len(),
        first_line(s) == s.subrange(0, first_line(s).len() as int),
    decreases s.len(),
{
    if s[0] != 10 && s.len() > 1 {
        lemma_first_line_prefix(s.drop_first());
        assert(first_line(s) =~= s.subrange(0, first_line(s).len() as int));
    } else if s[0] != 10 {
        assert(s.drop_first() =~= Seq::<u8>::empty());
        assert(first_line(s.drop_first()).len() == 0);
        assert(first_line(s) =~= s.subrange(0, 1));
    } else {
        assert(first_line(s) =~= s.subrange(0, 1));
    }
}

/// A line `a` that ends in its only line feed is the first line of whatever
/// starts with it.
proof fn lemma_first_line_of(a: Seq<u8>, rest: Seq<u8>)
    requires
        a.len() > 0,
        a.last() == 10,
        forall|i: int| 0 <= i < a.len() - 1 ==> a[i] != 10,
    ensures
        first_line(a + rest) == a,
    decreases a.len(),
{
    let s = a + rest;
    if a.len() == 1 {
        assert(s[0] == 10);
        assert(first_line(s) =~= a);
    } else {
        assert(s[0] == a[0]);
        let a1 = a.drop_first();
        assert forall|i: int| 0 <= i < a1.len() - 1 implies a1[i] != 10 by {
            assert(a1[i] == a[i + 1]);
        }
        lemma_first_line_of(a1, rest);
        assert(s.drop_first() =~= a1 + rest);
        assert(first_line(s) =~= a);
    }
}

/// What a reader of the byte stream `s` gets, the header lines read so far
/// having given the length `len`: it reads `s` line by line through the
/// header block, then the message of the length the block gave. The result
/// is the message and the bytes that follow it, or nothing when the stream
/// ends first or the block gives no valid length.
pub open spec fn read_frame(s: Seq<u8>, len: Option<usize>) -> Option<(Seq<u8>, Seq<u8>)>
    decreases s.len(),
{
    if s.len() == 0 {
        None
    } else {
        let l = first_line(s);
        proof {
            lemma_first_line_prefix(s);
        }
        let rest = s.subrange(l.len() as int, s.len() as int);
        match header_line(l) {
            HeaderLine::End => match len {
                Some(n) => if n <= rest.len() {
                    Some((rest.subrange(0, n as int), rest.subrange(n as int, rest.len() as int)))
                } else {
                    None
                },
                None => None,
            },
            HeaderLine::ContentLength(n) => read_frame(rest, Some(n)),
            HeaderLine::Other => read_frame(rest, len),
            HeaderLine::Malformed => None,
        }
    }
}

/// A framed message reads back: a reader of a stream that starts with the
/// header block of a message of `body.len()` bytes, then `body`, gets `body`,
/// and the stream goes on with what followed it (the next message).
#[verifier::rlimit(50)]
pub proof fn law_frame_read_back(body: Seq<u8>, more: Seq<u8>)
    requires
        body.len() <= usize::MAX,
    ensures
        read_frame(length_header(body.len()) + body + more, None) == Some((body, more)),
{
    let n = body.len() as usize;
    law_length_header_read_back(n);
    lemma_decimal_roundtrip(n as nat);
    let d = decimal_bytes(n as nat);
    let line = length_name() + seq![32u8] + d + crlf();
    let s = length_header(body.len()) + body + more;
    let after1 = crlf() + body + more;
    assert forall|i: int| 0 <= i < line.len() - 1 implies line[i] != 10 by {
        if 16 <= i < 16 + d.len() {
            assert(line[i] == d[i - 16]);
            assert(is_digit_byte(d[i - 16]));
        }
    }
    assert(s =~= line + after1);
    lemma_first_line_of(line, after1);
    lemma_first_line_prefix(s);
    assert(s.subrange(line.len() as int, s.len() as int) =~= after1);
    let after2 = body + more;
    assert(after1 =~= crlf() + after2);
    assert forall|i: int| 0 <= i < crlf().len() - 1 implies crlf()[i] != 10 by {}
    lemma_first_line_of(crlf(), after2);
    lemma_first_line_prefix(after1);
    assert(after1.subrange(2, after1.len() as int) =~= after2);
    assert(after2.subrange(0, n as int) =~= body);
    assert(after2.subrange(n as int, after2.len() as int) =~= more);
    assert(header_line(crlf()) == HeaderLine::End);
    assert(read_frame(after1, Some(n)) == Some((body, more)));
    assert(header_line(line) == HeaderLine::ContentLength(n));
    assert(read_frame(s, None) == read_frame(after1, Some(n)));
}

/// Reading a header block back gives the length that was written: the
/// length line of `length_header(n)` says `n`, and the empty line after it
/// ends the block.
#[verifier::rlimit(50)]
pub proof fn law_length_header_read_back(n: usize)
    ensures
        header_line(length_name() + seq![32u8] + decimal_bytes(n as nat) + crlf()) == HeaderLine::ContentLength(n),
        header_line(crlf()) == HeaderLine::End,
        length_header(n as nat) == (length_name() + seq![32u8] + decimal_bytes(n as nat) + crlf()) + crlf(),
{
    lemma_decimal_roundtrip(n as nat);
    let d = decimal_bytes(n as nat);
    let line = length_name() + seq![32u8] + d + crlf();
    let t = line_text(line);
    assert(t =~= length_name() + seq![32u8] + d);
    assert(t.subrange(0, 15) =~= length_name());
    let v0 = t.subrange(15, t.len() as int);
    assert(v0 =~= seq![32u8] + d);
    assert(skip_blank(v0, 1) == 1) by {
        assert(is_digit_byte(d[0]));
    }
    assert(skip_blank(v0, 0) == 1);
    assert(back_blank(v0, v0.len() as int, 1) == v0.len()) by {
        assert(is_digit_byte(d[d.len() - 1]));
        assert(v0[v0.len() - 1] == d[d.len() - 1]);
    }
    assert(trim_blanks(v0) =~= d);
    assert(line_text(crlf()) =~= Seq::<u8>::empty());
    assert(length_header(n as nat) =~= (length_name() + seq![32u8] + decimal_bytes(n as nat) + crlf()) + crlf());
}

} // verus!
