//! Length-prefixed framing of protocol messages on a byte stream.
//!
//! A frame is one or more header lines, each ended by CR LF, then an empty
//! line, then exactly as many payload bytes as the `Content-Length` header
//! declares. Headers other than `Content-Length` are read and ignored.
use vstd::prelude::*;

verus! {

/// Why a byte stream could not be read as a frame.
#[derive(Debug, Clone, Copy, PartialEq, Eq, Structural)]
pub enum FrameError {
    /// A header line has no `:`, or `Content-Length` has no decimal value
    /// that fits in a `usize`.
    MalformedHeader,
    /// The header section ended without a `Content-Length` header.
    MissingLength,
    /// The stream closed before the frame was complete.
    Truncated,
    /// The payload is not the document it should hold; found by whoever
    /// decodes payloads, never by [`decode_frame`].
    MalformedPayload,
}

/// The outcome of reading one frame from the front of a buffer.
#[derive(Debug, PartialEq)]
pub enum Decoded {
    /// A whole frame: its payload, and how many bytes of the buffer it took.
    Frame { payload: Vec<u8>, consumed: usize },
    /// The buffer holds the start of a frame; more bytes may complete it.
    NeedMore,
    /// The stream closed cleanly between frames.
    EndOfStream,
    /// The stream cannot be read as frames.
    Failed(FrameError),
}

/// The mathematical value of a [`Decoded`].
pub ghost enum DecodedValue {
    Frame { payload: Seq<u8>, consumed: nat },
    NeedMore,
    EndOfStream,
    Failed(FrameError),
}

impl View for Decoded {
    type V = DecodedValue;

    open spec fn view(&self) -> DecodedValue {
        match self {
            Decoded::Frame { payload, consumed } => DecodedValue::Frame {
                payload: payload@,
                consumed: *consumed as nat,
            },
            Decoded::NeedMore => DecodedValue::NeedMore,
            Decoded::EndOfStream => DecodedValue::EndOfStream,
            Decoded::Failed(e) => DecodedValue::Failed(*e),
        }
    }
}

pub open spec fn is_digit(b: u8) -> bool {
    48 <= b <= 57
}

pub open spec fn is_blank(b: u8) -> bool {
    b == 32 || b == 9
}

pub open spec fn all_digits(s: Seq<u8>) -> bool {
    forall|i: int| 0 <= i < s.len() ==> is_digit(#[trigger] s[i])
}

/// The number that a string of ASCII decimal digits denotes.
pub open spec fn digits_value(s: Seq<u8>) -> nat
    decreases s.len(),
{
    if s.len() == 0 {
        0
    } else {
        digits_value(s.drop_last()) * 10 + (s.last() - 48) as nat
    }
}

/// The ASCII decimal digits of `n`, without leading zeros.
pub open spec fn decimal(n: nat) -> Seq<u8>
    decreases n,
{
    if n < 10 {
        seq![(48 + n) as u8]
    } else {
        decimal(n / 10).push((48 + n % 10) as u8)
    }
}

/// The header name `Content-Length`.
pub open spec fn length_key() -> Seq<u8> {
    seq![67u8, 111, 110, 116, 101, 110, 116, 45, 76, 101, 110, 103, 116, 104]
}

pub open spec fn crlf() -> Seq<u8> {
    seq![13u8, 10]
}

/// The header section written before a payload of `n` bytes.
pub open spec fn header_of(n: nat) -> Seq<u8> {
    length_key() + seq![58u8, 32] + decimal(n) + crlf() + crlf()
}

/// The frame that carries `payload`.
pub open spec fn frame_of(payload: Seq<u8>) -> Seq<u8> {
    header_of(payload.len()) + payload
}

pub open spec fn trim_start(s: Seq<u8>) -> Seq<u8>
    decreases s.len(),
{
    if s.len() > 0 && is_blank(s[0]) {
        trim_start(s.drop_first())
    } else {
        s
    }
}

pub open spec fn trim_end(s: Seq<u8>) -> Seq<u8>
    decreases s.len(),
{
    if s.len() > 0 && is_blank(s.last()) {
        trim_end(s.drop_last())
    } else {
        s
    }
}

/// The index of the first `:` in `s` at or after `i`.
pub open spec fn colon_from(s: Seq<u8>, i: int) -> Option<int>
    decreases s.len() - i,
{
    if i < 0 || i >= s.len() {
        None
    } else if s[i] == 58 {
        Some(i)
    } else {
        colon_from(s, i + 1)
    }
}

/// What one non-empty header line (without its CR LF) says: `None` when it
/// is malformed, `Some(None)` for a header that is ignored, and
/// `Some(Some(n))` for `Content-Length: n`.
pub open spec fn header_line(line: Seq<u8>) -> Option<Option<nat>> {
    match colon_from(line, 0) {
        None => None,
        Some(k) => if line.subrange(0, k) == length_key() {
            let v = trim_end(trim_start(line.subrange(k + 1, line.len() as int)));
            if v.len() > 0 && all_digits(v) && digits_value(v) <= usize::MAX {
                Some(Some(digits_value(v)))
            } else {
                None
            }
        } else {
            Some(None)
        },
    }
}

/// How the header section of a buffer ends.
pub ghost enum HeaderSection {
    /// An empty line ends it; the payload starts at `body_start`.
    Complete { body_start: nat, length: Option<nat> },
    /// The buffer ends inside the header section.
    Incomplete,
    /// A header line is malformed.
    Malformed,
}

/// Reads header lines of `s`, the current one starting at `line_start`,
/// looking for its end from `i` on; `length` is the last `Content-Length`
/// seen so far.
pub open spec fn scan_headers(s: Seq<u8>, line_start: int, i: int, length: Option<nat>) -> HeaderSection
    decreases s.len() - i,
{
    if i < 0 || i + 1 >= s.len() {
        HeaderSection::Incomplete
    } else if s[i] == 13 && s[i + 1] == 10 {
        if i == line_start {
            HeaderSection::Complete { body_start: (i + 2) as nat, length }
        } else {
            match header_line(s.subrange(line_start, i)) {
                None => HeaderSection::Malformed,
                Some(None) => scan_headers(s, i + 2, i + 2, length),
                Some(Some(n)) => scan_headers(s, i + 2, i + 2, Some(n)),
            }
        }
    } else {
        scan_headers(s, line_start, i + 1, length)
    }
}

/// What reading one frame from the front of `s` gives; `closed` tells that
/// no bytes will follow `s`.
pub open spec fn decode_spec(s: Seq<u8>, closed: bool) -> DecodedValue {
    if s.len() == 0 {
        if closed {
            DecodedValue::EndOfStream
        } else {
            DecodedValue::NeedMore
        }
    } else {
        match scan_headers(s, 0, 0, None) {
            HeaderSection::Incomplete => if closed {
                DecodedValue::Failed(FrameError::Truncated)
            } else {
                DecodedValue::NeedMore
            },
            HeaderSection::Malformed => DecodedValue::Failed(FrameError::MalformedHeader),
            HeaderSection::Complete { body_start, length } => match length {
                None => DecodedValue::Failed(FrameError::MissingLength),
                Some(n) => if body_start + n <= s.len() {
                    DecodedValue::Frame {
                        payload: s.subrange(body_start as int, (body_start + n) as int),
                        consumed: body_start + n,
                    }
                } else if closed {
                    DecodedValue::Failed(FrameError::Truncated)
                } else {
                    DecodedValue::NeedMore
                },
            },
        }
    }
}

/// A frame whose header section declares more payload bytes than follow it
/// before the stream closes is refused as truncated: no partial payload is
/// ever handed out.
pub proof fn lemma_short_payload_is_truncated(s: Seq<u8>, body_start: nat, n: nat)
    requires
        scan_headers(s, 0, 0, None) == (HeaderSection::Complete { body_start, length: Some(n) }),
        body_start + n > s.len(),
    ensures
        decode_spec(s, true) == DecodedValue::Failed(FrameError::Truncated),
{
}

/// The decimal digits of a number are a non-empty run of digits that
/// denotes it.
proof fn lemma_decimal(n: nat)
    ensures
        decimal(n).len() > 0,
        all_digits(decimal(n)),
        digits_value(decimal(n)) == n,
    decreases n,
{
    if n >= 10 {
        lemma_decimal(n / 10);
        let d = decimal(n / 10);
        let e = d.push((48 + n % 10) as u8);
        assert(e.drop_last() =~= d);
        assert(all_digits(e)) by {
            assert forall|i: int| 0 <= i < e.len() implies is_digit(#[trigger] e[i]) by {
                if i < d.len() {
                    assert(e[i] == d[i]);
                }
            }
        }
        assert(n == (n / 10) * 10 + n % 10) by (nonlinear_arith);
        assert(n % 10 < 10);
        assert(e.last() == (48 + n % 10) as u8);
        assert((e.last() - 48) as nat == n % 10);
        assert(decimal(n) == e);
        assert(digits_value(e) == digits_value(d) * 10 + (e.last() - 48) as nat);
    } else {
        assert(decimal(n).drop_last() =~= Seq::<u8>::empty());
        assert(decimal(n).last() == (48 + n) as u8);
        assert(digits_value(decimal(n)) == digits_value(Seq::<u8>::empty()) * 10 + (decimal(n).last() - 48) as nat);
    }
}

/// Reading header bytes that hold no CR moves on without ending the line.
proof fn lemma_scan_skip(s: Seq<u8>, line_start: int, i: int, j: int, length: Option<nat>)
    requires
        0 <= i <= j,
        j + 1 < s.len(),
        forall|k: int| i <= k < j ==> s[k] != 13,
    ensures
        scan_headers(s, line_start, i, length) == scan_headers(s, line_start, j, length),
    decreases j - i,
{
    if i < j {
        lemma_scan_skip(s, line_start, i + 1, j, length);
    }
}

/// Looking for a colon past bytes that hold none finds what looking from
/// after them does.
proof fn lemma_colon_skip(s: Seq<u8>, i: int, j: int)
    requires
        0 <= i <= j <= s.len(),
        forall|k: int| i <= k < j ==> s[k] != 58,
    ensures
        colon_from(s, i) == colon_from(s, j),
    decreases j - i,
{
    if i < j {
        lemma_colon_skip(s, i + 1, j);
    }
}

/// The header that introduces a payload of `n` bytes reads as
/// `Content-Length: n`.
proof fn lemma_length_line(n: nat)
    requires
        n <= usize::MAX,
    ensures
        header_line(length_key() + seq![58u8, 32] + decimal(n)) == Some(Some(n)),
{
    let d = decimal(n);
    lemma_decimal(n);
    let line = length_key() + seq![58u8, 32] + d;
    assert forall|k: int| 0 <= k < 14 implies line[k] != 58 by {
        assert(line[k] == length_key()[k]);
    }
    lemma_colon_skip(line, 0, 14);
    assert(line[14] == 58);
    assert(colon_from(line, 0) == Some(14int));
    assert(line.subrange(0, 14) =~= length_key());
    let rest = line.subrange(15, line.len() as int);
    assert(rest =~= seq![32u8] + d);
    assert(rest.drop_first() =~= d);
    assert(is_digit(d[0]));
    assert(trim_start(rest) == trim_start(d));
    assert(trim_start(d) == d);
    assert(is_digit(d.last()));
    assert(trim_end(d) == d);
}

/// A frame that this library writes, followed by anything, reads back as
/// its payload, taking exactly the frame's bytes.
pub proof fn lemma_frame_round_trip(payload: Seq<u8>, rest: Seq<u8>, closed: bool)
    requires
        payload.len() <= usize::MAX,
    ensures
        decode_spec(frame_of(payload) + rest, closed) == (DecodedValue::Frame {
            payload,
            consumed: frame_of(payload).len(),
        }),
{
    let n = payload.len();
    let d = decimal(n);
    lemma_decimal(n);
    lemma_length_line(n);
    let line = length_key() + seq![58u8, 32] + d;
    let s = frame_of(payload) + rest;
    let e = line.len() as int;
    assert(s =~= line + crlf() + crlf() + payload + rest);
    assert forall|k: int| 0 <= k < e implies s[k] != 13 by {
        assert(s[k] == line[k]);
        if k < 14 {
            assert(line[k] == length_key()[k]);
        } else if k >= 16 {
            assert(line[k] == d[k - 16]);
            assert(is_digit(d[k - 16]));
        }
    }
    lemma_scan_skip(s, 0, 0, e, None);
    assert(s.subrange(0, e) =~= line);
    assert(s[e] == 13 && s[e + 1] == 10);
    assert(s[e + 2] == 13 && s[e + 3] == 10);
    assert(scan_headers(s, e + 2, e + 2, Some(n)) == (HeaderSection::Complete {
        body_start: (e + 4) as nat,
        length: Some(n),
    }));
    assert(scan_headers(s, 0, 0, None) == scan_headers(s, 0, e, None));
    assert(s.subrange(e + 4, e + 4 + n) =~= payload);
}

/// A prefix of a digit string denotes no more than the whole string.
proof fn lemma_digits_prefix_le(s: Seq<u8>, j: int)
    requires
        all_digits(s),
        0 <= j <= s.len(),
    ensures
        digits_value(s.subrange(0, j)) <= digits_value(s),
    decreases s.len(),
{
    if j == s.len() {
        assert(s.subrange(0, j) =~= s);
    } else {
        let t = s.drop_last();
        assert(all_digits(t)) by {
            assert forall|i: int| 0 <= i < t.len() implies is_digit(#[trigger] t[i]) by {
                assert(t[i] == s[i]);
            }
        }
        lemma_digits_prefix_le(t, j);
        assert(t.subrange(0, j) =~= s.subrange(0, j));
    }
}

/// Appends the ASCII decimal digits of `n` to `out`.
fn push_decimal(out: &mut Vec<u8>, n: usize)
    ensures
        final(out)@ == old(out)@ + decimal(n as nat),
    decreases n,
{
    if n < 10 {
        out.push((48 + n) as u8);
        assert(final(out)@ =~= old(out)@ + decimal(n as nat));
    } else {
        push_decimal(out, n / 10);
        out.push((48 + n % 10) as u8);
        assert(decimal(n as nat) == decimal((n / 10) as nat).push((48 + n % 10) as u8));
        assert(final(out)@ =~= old(out)@ + decimal(n as nat));
    }
}

/// The frame that carries `payload`: a `Content-Length` header giving the
/// payload's exact byte length, an empty line, then the payload.
pub fn encode_frame(payload: &[u8]) -> (r: Vec<u8>)
    ensures
        r@ == frame_of(payload@),
{
    let mut out: Vec<u8> = Vec::new();
    out.push(67);
    out.push(111);
    out.push(110);
    out.push(116);
    out.push(101);
    out.push(110);
    out.push(116);
    out.push(45);
    out.push(76);
    out.push(101);
    out.push(110);
    out.push(103);
    out.push(116);
    out.push(104);
    out.push(58);
    out.push(32);
    assert(out@ =~= length_key() + seq![58u8, 32]);
    push_decimal(&mut out, payload.len());
    out.push(13);
    out.push(10);
    out.push(13);
    out.push(10);
    assert(out@ =~= header_of(payload@.len()));
    let ghost head = out@;
    let mut i: usize = 0;
    while i < payload.len()
        invariant
            i <= payload@.len(),
            out@ == head + payload@.subrange(0, i as int),
        decreases payload@.len() - i,
    {
        out.push(payload[i]);
        i = i + 1;
        assert(out@ =~= head + payload@.subrange(0, i as int));
    }
    assert(payload@.subrange(0, i as int) =~= payload@);
    out
}

/// Whether `buf[a..k]` is the header name `Content-Length`.
fn is_length_key(buf: &[u8], a: usize, k: usize) -> (r: bool)
    requires
        a <= k <= buf@.len(),
    ensures
        r == (buf@.subrange(a as int, k as int) == length_key()),
{
    let r = k - a == 14 && buf[a] == 67 && buf[a + 1] == 111 && buf[a + 2] == 110 && buf[a + 3]
        == 116 && buf[a + 4] == 101 && buf[a + 5] == 110 && buf[a + 6] == 116 && buf[a + 7] == 45
        && buf[a + 8] == 76 && buf[a + 9] == 101 && buf[a + 10] == 110 && buf[a + 11] == 103
        && buf[a + 12] == 116 && buf[a + 13] == 104;
    proof {
        let name = buf@.subrange(a as int, k as int);
        if r {
            assert(name =~= length_key());
        } else if name.len() == 14 {
            assert(name != length_key()) by {
                if name == length_key() {
                    assert(name[0] == buf@[a as int]);
                    assert(name[1] == buf@[a + 1]);
                    assert(name[2] == buf@[a + 2]);
                    assert(name[3] == buf@[a + 3]);
                    assert(name[4] == buf@[a + 4]);
                    assert(name[5] == buf@[a + 5]);
                    assert(name[6] == buf@[a + 6]);
                    assert(name[7] == buf@[a + 7]);
                    assert(name[8] == buf@[a + 8]);
                    assert(name[9] == buf@[a + 9]);
                    assert(name[10] == buf@[a + 10]);
                    assert(name[11] == buf@[a + 11]);
                    assert(name[12] == buf@[a + 12]);
                    assert(name[13] == buf@[a + 13]);
                }
            }
        }
    }
    r
}

/// The decimal value of `buf[a..b]`, if it is a non-empty run of digits
/// whose value fits in a `usize`.
fn parse_decimal(buf: &[u8], a: usize, b: usize) -> (r: Option<usize>)
    requires
        a <= b <= buf@.len(),
    ensures
        ({
            let v = buf@.subrange(a as int, b as int);
            match r {
                Some(n) => v.len() > 0 && all_digits(v) && digits_value(v) == n,
                None => !(v.len() > 0 && all_digits(v) && digits_value(v) <= usize::MAX),
            }
        }),
{
    let ghost v = buf@.subrange(a as int, b as int);
    if a == b {
        return None;
    }
    let mut acc: usize = 0;
    let mut j: usize = a;
    while j < b
        invariant
            a <= j <= b <= buf@.len(),
            v == buf@.subrange(a as int, b as int),
            all_digits(buf@.subrange(a as int, j as int)),
            acc == digits_value(buf@.subrange(a as int, j as int)),
        decreases b - j,
    {
        let d = buf[j];
        let ghost pre = buf@.subrange(a as int, j as int);
        let ghost next = buf@.subrange(a as int, j + 1);
        assert(next.drop_last() =~= pre);
        if d < 48 || d > 57 {
            assert(!is_digit(v[j - a]));
            return None;
        }
        let dv: usize = (d - 48) as usize;
        assert(all_digits(next)) by {
            assert forall|i: int| 0 <= i < next.len() implies is_digit(#[trigger] next[i]) by {
                if i < pre.len() {
                    assert(next[i] == pre[i]);
                }
            }
        }
        if acc > (usize::MAX - dv) / 10 {
            proof {
                assert(acc * 10 + dv > usize::MAX) by (nonlinear_arith)
                    requires
                        acc > (usize::MAX - dv) / 10,
                        dv <= 9,
                ;
                if all_digits(v) {
                    lemma_digits_prefix_le(v, j + 1 - a);
                    assert(v.subrange(0, j + 1 - a) =~= next);
                }
            }
            return None;
        }
        assert(acc * 10 + dv <= usize::MAX) by (nonlinear_arith)
            requires
                acc <= (usize::MAX - dv) / 10,
                dv <= 9,
        ;
        acc = acc * 10 + dv;
        j = j + 1;
    }
    Some(acc)
}

/// Reads the header line `buf[a..b]` as [`header_line`] does.
fn parse_header_line(buf: &[u8], a: usize, b: usize) -> (r: Option<Option<usize>>)
    requires
        a <= b <= buf@.len(),
    ensures
        match header_line(buf@.subrange(a as int, b as int)) {
            None => r is None,
            Some(None) => r == Some(None::<usize>),
            Some(Some(n)) => r matches Some(Some(m)) && m == n,
        },
{
    let ghost line = buf@.subrange(a as int, b as int);
    let mut k: usize = a;
    while k < b && buf[k] != 58
        invariant
            a <= k <= b <= buf@.len(),
            line == buf@.subrange(a as int, b as int),
            colon_from(line, 0) == colon_from(line, k - a),
        decreases b - k,
    {
        assert(line[k - a] == buf@[k as int]);
        k = k + 1;
    }
    if k == b {
        return None;
    }
    assert(line[k - a] == buf@[k as int]);
    assert(line.subrange(0, k - a) =~= buf@.subrange(a as int, k as int));
    if !is_length_key(buf, a, k) {
        return Some(None);
    }
    let mut va: usize = k + 1;
    let ghost rest = line.subrange(k + 1 - a, line.len() as int);
    assert(rest =~= buf@.subrange(k + 1, b as int));
    while va < b && (buf[va] == 32 || buf[va] == 9)
        invariant
            k + 1 <= va <= b <= buf@.len(),
            trim_start(rest) == trim_start(buf@.subrange(va as int, b as int)),
        decreases b - va,
    {
        assert(buf@.subrange(va as int, b as int).drop_first() =~= buf@.subrange(va + 1, b as int));
        va = va + 1;
    }
    assert(trim_start(rest) == buf@.subrange(va as int, b as int));
    let mut vb: usize = b;
    while vb > va && (buf[vb - 1] == 32 || buf[vb - 1] == 9)
        invariant
            va <= vb <= b <= buf@.len(),
            trim_end(trim_start(rest)) == trim_end(buf@.subrange(va as int, vb as int)),
        decreases vb - va,
    {
        assert(buf@.subrange(va as int, vb as int).drop_last() =~= buf@.subrange(va as int, vb - 1));
        vb = vb - 1;
    }
    assert(trim_end(trim_start(rest)) == buf@.subrange(va as int, vb as int));
    match parse_decimal(buf, va, vb) {
        Some(n) => Some(Some(n)),
        None => None,
    }
}

/// Reads the header section at the front of `buf`: where the payload
/// starts and the declared length, or `Truncated` when the buffer ends
/// inside the header section, or `MalformedHeader`.
fn scan_header_section(buf: &[u8]) -> (r: Result<(usize, Option<usize>), FrameError>)
    ensures
        match scan_headers(buf@, 0, 0, None) {
            HeaderSection::Complete { body_start, length } => r matches Ok((bs, l))
                && bs == body_start && bs <= buf@.len() && match length {
                None => l is None,
                Some(n) => l matches Some(m) && m == n,
            },
            HeaderSection::Incomplete => r == Err::<(usize, Option<usize>), FrameError>(
                FrameError::Truncated,
            ),
            HeaderSection::Malformed => r == Err::<(usize, Option<usize>), FrameError>(
                FrameError::MalformedHeader,
            ),
        },
{
    let ghost s = buf@;
    let mut line_start: usize = 0;
    let mut i: usize = 0;
    let mut length: Option<usize> = None;
    loop
        invariant
            line_start <= i <= buf@.len(),
            s == buf@,
            scan_headers(s, line_start as int, i as int, match length {
                None => None,
                Some(n) => Some(n as nat),
            }) == scan_headers(s, 0, 0, None),
        decreases buf@.len() - i,
    {
        if buf.len() - i < 2 {
            return Err(FrameError::Truncated);
        }
        if buf[i] == 13 && buf[i + 1] == 10 {
            if i == line_start {
                return Ok((i + 2, length));
            }
            match parse_header_line(buf, line_start, i) {
                None => {
                    return Err(FrameError::MalformedHeader);
                },
                Some(None) => {},
                Some(Some(n)) => {
                    length = Some(n);
                },
            }
            i = i + 2;
            line_start = i;
        } else {
            i = i + 1;
        }
    }
}

/// Reads one frame from the front of `buf`; `closed` tells that the stream
/// has ended and no bytes will follow `buf`.
pub fn decode_frame(buf: &[u8], closed: bool) -> (r: Decoded)
    ensures
        r@ == decode_spec(buf@, closed),
{
    if buf.len() == 0 {
        return if closed {
            Decoded::EndOfStream
        } else {
            Decoded::NeedMore
        };
    }
    match scan_header_section(buf) {
        Err(FrameError::Truncated) => if closed {
            Decoded::Failed(FrameError::Truncated)
        } else {
            Decoded::NeedMore
        },
        Err(e) => Decoded::Failed(e),
        Ok((_, None)) => Decoded::Failed(FrameError::MissingLength),
        Ok((body_start, Some(n))) => {
            if n <= buf.len() - body_start {
                let end = body_start + n;
                let mut payload: Vec<u8> = Vec::new();
                let mut j: usize = body_start;
                while j < end
                    invariant
                        body_start <= j <= end <= buf@.len(),
                        payload@ == buf@.subrange(body_start as int, j as int),
                    decreases end - j,
                {
                    payload.push(buf[j]);
                    j = j + 1;
                    assert(payload@ =~= buf@.subrange(body_start as int, j as int));
                }
                Decoded::Frame { payload, consumed: end }
            } else if closed {
                Decoded::Failed(FrameError::Truncated)
            } else {
                Decoded::NeedMore
            }
        },
    }
}

/// Bytes read from the backend and not yet taken as frames.
pub struct FrameBuffer {
    bytes: Vec<u8>,
}

impl View for FrameBuffer {
    type V = Seq<u8>;

    closed spec fn view(&self) -> Seq<u8> {
        self.bytes@
    }
}

impl FrameBuffer {
    pub fn new() -> (r: FrameBuffer)
        ensures
            r@ == Seq::<u8>::empty(),
    {
        FrameBuffer { bytes: Vec::new() }
    }

    /// Appends bytes read from the stream.
    pub fn extend(&mut self, data: &[u8])
        ensures
            final(self)@ == old(self)@ + data@,
    {
        let ghost start = self.bytes@;
        let mut i: usize = 0;
        while i < data.len()
            invariant
                i <= data@.len(),
                self.bytes@ == start + data@.subrange(0, i as int),
            decreases data@.len() - i,
        {
            self.bytes.push(data[i]);
            i = i + 1;
            assert(self.bytes@ =~= start + data@.subrange(0, i as int));
        }
        assert(data@.subrange(0, i as int) =~= data@);
    }

    /// Takes the next frame from the front of the buffer; `closed` tells
    /// that the stream has ended. Only a whole frame is taken out.
    pub fn next_frame(&mut self, closed: bool) -> (r: Decoded)
        ensures
            r@ == decode_spec(old(self)@, closed),
            match r@ {
                DecodedValue::Frame { consumed, .. } => final(self)@ == old(self)@.subrange(
                    consumed as int,
                    old(self)@.len() as int,
                ),
                _ => final(self)@ == old(self)@,
            },
    {
        let r = decode_frame(self.bytes.as_slice(), closed);
        if let Decoded::Frame { consumed, .. } = &r {
            let consumed = *consumed;
            let ghost old_bytes = self.bytes@;
            let mut rest: Vec<u8> = Vec::new();
            let mut j: usize = consumed;
            while j < self.bytes.len()
                invariant
                    self.bytes@ == old_bytes,
                    consumed <= j <= old_bytes.len(),
                    rest@ == old_bytes.subrange(consumed as int, j as int),
                decreases old_bytes.len() - j,
            {
                rest.push(self.bytes[j]);
                j = j + 1;
                assert(rest@ =~= old_bytes.subrange(consumed as int, j as int));
            }
            self.bytes = rest;
        }
        r
    }
}

} // verus!
