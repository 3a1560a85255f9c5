//! The primitives of the wire format and the outcome of decoding.
//!
//! Every decoder takes the bytes that are left of a datagram and hands back
//! the value it read together with the bytes that follow it, or a failure
//! with the offset, counted from the first byte it was given, at which the
//! bytes stopped making sense. All integers are little-endian.
//!
//! What the bytes of a field mean is said by a function of its own, named
//! after the decoder with `spec_` in front. These functions are opaque: a
//! proof that needs to look into one reveals it.

use crate::protocol::DecodeError;
use vstd::prelude::*;
use vstd::slice::slice_subrange;
use vstd::string::StringSliceAdditionalSpecFns;
use vstd::utf8::decode_utf8;
use vstd::utf8::encode_utf8_decode_utf8;
use vstd::utf8::valid_utf8;

verus! {

/// Why a datagram could not be decoded.
#[derive(Debug, Clone, Copy, PartialEq, Eq)]
pub enum ParseErrorKind {
    /// The buffer ends before the field does.
    UnexpectedEnd,
    /// The bytes of a string are not UTF-8.
    InvalidUtf8,
    /// A code that its table does not list; the raw value is inside.
    UnknownCode(DecodeError),
    /// The leading byte is missing, or is not the tag that was asked for, or
    /// is the tag of no message at all.
    TagMismatch,
    /// The sector times of a lap are announced with a length in bytes that
    /// is no multiple of four.
    RaggedSplits,
    /// A lap announces more sector times than a lap can hold.
    TooManySplits,
    /// The message is followed by bytes that belong to nothing.
    TrailingBytes,
}

/// A failed decode: what was wrong, and at which byte.
#[derive(Debug, Clone, Copy, PartialEq, Eq)]
pub struct ParseError {
    pub offset: usize,
    pub kind: ParseErrorKind,
}

/// The mathematical form of a [`ParseError`].
pub struct Failure {
    pub offset: int,
    pub kind: ParseErrorKind,
}

impl View for ParseError {
    type V = Failure;

    open spec fn view(&self) -> Failure {
        Failure { offset: self.offset as int, kind: self.kind }
    }
}

/// What the format prescribes for some bytes: the bytes left over and the
/// value, or the failure.
pub type Parsed<T> = Result<(Seq<u8>, T), Failure>;

/// The failure of kind `kind` at `offset`.
#[verifier::inline]
pub open spec fn fail<T>(offset: int, kind: ParseErrorKind) -> Parsed<T> {
    Err(Failure { offset, kind })
}

/// The outcome `p` of decoding `rest`, the tail of `whole`, as seen from the
/// start of `whole`: a failure lies as much further in as `whole` is longer.
#[verifier::inline]
pub open spec fn within<T>(whole: Seq<u8>, rest: Seq<u8>, p: Parsed<T>) -> Parsed<T> {
    match p {
        Ok(x) => Ok(x),
        Err(f) => Err(Failure { offset: f.offset + (whole.len() - rest.len()), kind: f.kind }),
    }
}

/// The outcome `field` of the field that follows `prev` in a record that
/// starts with `whole`: it was decoded from what `prev` left, and is seen
/// from the start of the record.
#[verifier::inline]
pub open spec fn after<T, U>(whole: Seq<u8>, prev: Parsed<T>, field: Parsed<U>) -> Parsed<U> {
    within(whole, rest_of(prev), field)
}

/// The bytes that a successful outcome leaves over.
#[verifier::inline]
pub open spec fn rest_of<T>(p: Parsed<T>) -> Seq<u8> {
    p->Ok_0.0
}

/// The value of a successful outcome.
#[verifier::inline]
pub open spec fn value_of<T>(p: Parsed<T>) -> T {
    p->Ok_0.1
}

/// The failure of the field `p` as the failure of the record that holds it.
#[verifier::inline]
pub open spec fn failed<T, U>(p: Parsed<T>) -> Parsed<U> {
    Err(p->Err_0)
}

/// `n` elements one after another, each as `element` prescribes. The first
/// element that fails is the failure of the list.
pub open spec fn spec_repeat<T>(
    element: spec_fn(Seq<u8>) -> Parsed<T>,
    s: Seq<u8>,
    n: nat,
) -> Parsed<Seq<T>>
    decreases n,
{
    if n == 0 {
        Ok((s, Seq::empty()))
    } else {
        let first = element(s);
        let others = after(s, first, spec_repeat(element, rest_of(first), (n - 1) as nat));
        if first is Err {
            failed(first)
        } else if others is Err {
            failed(others)
        } else {
            Ok((rest_of(others), seq![value_of(first)] + value_of(others)))
        }
    }
}

/// The outcome of a list of which `head` has been decoded and `tail` is the
/// outcome of the elements that follow.
pub open spec fn joined<T>(head: Seq<T>, tail: Parsed<Seq<T>>) -> Parsed<Seq<T>> {
    match tail {
        Ok((rest, values)) => Ok((rest, head + values)),
        Err(f) => Err(f),
    }
}

/// `rest` is what is left of `whole` when bytes are taken from its front.
pub open spec fn is_tail(whole: Seq<u8>, rest: Seq<u8>) -> bool {
    rest.len() <= whole.len() && rest == whole.skip(whole.len() - rest.len())
}

/// An outcome on `input` that stays inside it: the rest is what is left of
/// the input behind the bytes that were read, and a failure lies at one of
/// the input's offsets or at its end.
pub open spec fn bounded<T>(input: Seq<u8>, p: Parsed<T>) -> bool {
    match p {
        Ok((rest, _)) => is_tail(input, rest),
        Err(f) => 0 <= f.offset <= input.len(),
    }
}

/// A decoder's result `r` is the outcome `p`: the same rest and a value whose
/// view is the prescribed one, or the same failure.
pub open spec fn yields<T: View>(r: Result<(&[u8], T), ParseError>, p: Parsed<T::V>) -> bool {
    match r {
        Ok((rest, value)) => p == Ok::<(Seq<u8>, T::V), Failure>((rest@, value@)),
        Err(e) => p == Err::<(Seq<u8>, T::V), Failure>(e@),
    }
}

/// Relocates the failure of a decoder that ran on `rest`, the tail of
/// `whole`, so that it counts from the start of `whole`.
pub(crate) fn located<'a, T>(
    whole: &[u8],
    rest: &[u8],
    r: Result<(&'a [u8], T), ParseError>,
) -> (out: Result<(&'a [u8], T), ParseError>)
    requires
        is_tail(whole@, rest@),
        r matches Ok((left, _)) ==> is_tail(rest@, left@),
        r matches Err(e) ==> e.offset <= rest@.len(),
    ensures
        r is Ok ==> out == r,
        r matches Ok((left, _)) ==> is_tail(whole@, left@),
        r matches Err(e) ==> out matches Err(o) && o.kind == e.kind && o.offset == e.offset
            + (whole@.len() - rest@.len()),
{
    proof {
        if let Ok((left, _)) = r {
            assert(left@ =~= whole@.skip(whole@.len() - left@.len()));
        }
    }
    match r {
        Ok(x) => Ok(x),
        Err(e) => Err(ParseError { offset: e.offset + (whole.len() - rest.len()), kind: e.kind }),
    }
}

/// The 16-bit number whose little-endian bytes are `b0`, `b1`.
pub open spec fn u16_of_le(b0: u8, b1: u8) -> u16 {
    (b0 as int + 256 * (b1 as int)) as u16
}

/// The 32-bit number whose little-endian bytes are `b0` to `b3`.
pub open spec fn u32_of_le(b0: u8, b1: u8, b2: u8, b3: u8) -> u32 {
    (b0 as int + 256 * (b1 as int) + 65536 * (b2 as int) + 16777216 * (b3 as int)) as u32
}

/// The signed byte that the bit pattern `b` stands for in two's complement.
pub open spec fn i8_of_bits(b: u8) -> i8 {
    if b < 128 {
        b as i8
    } else {
        (b as int - 256) as i8
    }
}

/// The signed number that the bit pattern `u` stands for in two's complement.
pub open spec fn i32_of_bits(u: u32) -> i32 {
    if u < 0x8000_0000 {
        u as i32
    } else {
        (u as int - 0x1_0000_0000) as i32
    }
}

/// One leading byte that must be `expected`.
#[verifier::opaque]
pub open spec fn spec_tag(s: Seq<u8>, expected: u8) -> Parsed<u8> {
    if s.len() >= 1 && s[0] == expected {
        Ok((s.skip(1), expected))
    } else {
        fail(0, ParseErrorKind::TagMismatch)
    }
}

/// One byte.
#[verifier::opaque]
pub open spec fn spec_le_u8(s: Seq<u8>) -> Parsed<u8> {
    if s.len() < 1 {
        fail(0, ParseErrorKind::UnexpectedEnd)
    } else {
        Ok((s.skip(1), s[0]))
    }
}

/// One byte, read as a signed number.
#[verifier::opaque]
pub open spec fn spec_le_i8(s: Seq<u8>) -> Parsed<i8> {
    if s.len() < 1 {
        fail(0, ParseErrorKind::UnexpectedEnd)
    } else {
        Ok((s.skip(1), i8_of_bits(s[0])))
    }
}

/// Two bytes, the low one first.
#[verifier::opaque]
pub open spec fn spec_le_u16(s: Seq<u8>) -> Parsed<u16> {
    if s.len() < 2 {
        fail(0, ParseErrorKind::UnexpectedEnd)
    } else {
        Ok((s.skip(2), u16_of_le(s[0], s[1])))
    }
}

/// Four bytes, the lowest first.
#[verifier::opaque]
pub open spec fn spec_le_u32(s: Seq<u8>) -> Parsed<u32> {
    if s.len() < 4 {
        fail(0, ParseErrorKind::UnexpectedEnd)
    } else {
        Ok((s.skip(4), u32_of_le(s[0], s[1], s[2], s[3])))
    }
}

/// Four bytes, the lowest first, read as a signed number.
#[verifier::opaque]
pub open spec fn spec_le_i32(s: Seq<u8>) -> Parsed<i32> {
    if s.len() < 4 {
        fail(0, ParseErrorKind::UnexpectedEnd)
    } else {
        Ok((s.skip(4), i32_of_bits(u32_of_le(s[0], s[1], s[2], s[3]))))
    }
}

/// One byte that is false when zero and true otherwise.
#[verifier::opaque]
pub open spec fn spec_boolean(s: Seq<u8>) -> Parsed<bool> {
    if s.len() < 1 {
        fail(0, ParseErrorKind::UnexpectedEnd)
    } else {
        Ok((s.skip(1), s[0] != 0))
    }
}

/// A string: its length in bytes as a 16-bit number, then that many bytes of
/// UTF-8. A failure of the text is located at the start of the field, a
/// body that is cut short at the start of the body.
#[verifier::opaque]
pub open spec fn spec_kstring(s: Seq<u8>) -> Parsed<Seq<char>> {
    match spec_le_u16(s) {
        Err(f) => Err(f),
        Ok((body, len)) => if body.len() < len {
            fail(2, ParseErrorKind::UnexpectedEnd)
        } else if !valid_utf8(body.take(len as int)) {
            fail(0, ParseErrorKind::InvalidUtf8)
        } else {
            Ok((body.skip(len as int), decode_utf8(body.take(len as int))))
        },
    }
}

/// What the numbers of the format are, read at an offset of a buffer. At
/// `at`, a number of `n` bytes is made of the bytes from `at` on and leaves
/// what starts at `at + n`; it fails for want of bytes where fewer than `n`
/// are left.
pub proof fn lemma_numbers_at(s: Seq<u8>, at: int)
    requires
        0 <= at <= s.len(),
    ensures
        spec_le_u8(s.skip(at)) == (if at + 1 <= s.len() {
            Ok((s.skip(at + 1), s[at]))
        } else {
            fail(0, ParseErrorKind::UnexpectedEnd)
        }),
        spec_le_i8(s.skip(at)) == (if at + 1 <= s.len() {
            Ok((s.skip(at + 1), i8_of_bits(s[at])))
        } else {
            fail(0, ParseErrorKind::UnexpectedEnd)
        }),
        spec_boolean(s.skip(at)) == (if at + 1 <= s.len() {
            Ok((s.skip(at + 1), s[at] != 0))
        } else {
            fail(0, ParseErrorKind::UnexpectedEnd)
        }),
        spec_le_u16(s.skip(at)) == (if at + 2 <= s.len() {
            Ok((s.skip(at + 2), u16_of_le(s[at], s[at + 1])))
        } else {
            fail(0, ParseErrorKind::UnexpectedEnd)
        }),
        spec_le_u32(s.skip(at)) == (if at + 4 <= s.len() {
            Ok((s.skip(at + 4), u32_of_le(s[at], s[at + 1], s[at + 2], s[at + 3])))
        } else {
            fail(0, ParseErrorKind::UnexpectedEnd)
        }),
        spec_le_i32(s.skip(at)) == (if at + 4 <= s.len() {
            Ok((s.skip(at + 4), i32_of_bits(u32_of_le(s[at], s[at + 1], s[at + 2], s[at + 3]))))
        } else {
            fail(0, ParseErrorKind::UnexpectedEnd)
        }),
{
    reveal(spec_le_u8);
    reveal(spec_le_i8);
    reveal(spec_boolean);
    reveal(spec_le_u16);
    reveal(spec_le_u32);
    reveal(spec_le_i32);
    let t = s.skip(at);
    if at + 1 <= s.len() {
        assert(t.skip(1) =~= s.skip(at + 1));
    }
    if at + 2 <= s.len() {
        assert(t.skip(2) =~= s.skip(at + 2));
    }
    if at + 4 <= s.len() {
        assert(t.skip(4) =~= s.skip(at + 4));
    }
}

/// Checks that the datagram starts with the tag `expected` and steps over it.
pub fn tag<'a>(input: &'a [u8], expected: u8) -> (r: Result<(&'a [u8], u8), ParseError>)
    ensures
        yields(r, spec_tag(input@, expected)),
        bounded(input@, spec_tag(input@, expected)),
{
    reveal(spec_tag);
    if input.len() >= 1 && input[0] == expected {
        Ok((slice_subrange(input, 1, input.len()), expected))
    } else {
        Err(ParseError { offset: 0, kind: ParseErrorKind::TagMismatch })
    }
}

/// Reads one byte.
pub fn le_u8<'a>(input: &'a [u8]) -> (r: Result<(&'a [u8], u8), ParseError>)
    ensures
        yields(r, spec_le_u8(input@)),
        bounded(input@, spec_le_u8(input@)),
{
    reveal(spec_le_u8);
    if input.len() < 1 {
        Err(ParseError { offset: 0, kind: ParseErrorKind::UnexpectedEnd })
    } else {
        Ok((slice_subrange(input, 1, input.len()), input[0]))
    }
}

/// Reads one signed byte.
pub fn le_i8<'a>(input: &'a [u8]) -> (r: Result<(&'a [u8], i8), ParseError>)
    ensures
        yields(r, spec_le_i8(input@)),
        bounded(input@, spec_le_i8(input@)),
{
    reveal(spec_le_i8);
    if input.len() < 1 {
        Err(ParseError { offset: 0, kind: ParseErrorKind::UnexpectedEnd })
    } else {
        let b: u8 = input[0];
        let value: i8 = if b < 128 {
            b as i8
        } else {
            ((b - 128) as i8) + i8::MIN
        };
        Ok((slice_subrange(input, 1, input.len()), value))
    }
}

/// Reads an unsigned 16-bit number.
pub fn le_u16<'a>(input: &'a [u8]) -> (r: Result<(&'a [u8], u16), ParseError>)
    ensures
        yields(r, spec_le_u16(input@)),
        bounded(input@, spec_le_u16(input@)),
{
    reveal(spec_le_u16);
    if input.len() < 2 {
        Err(ParseError { offset: 0, kind: ParseErrorKind::UnexpectedEnd })
    } else {
        let value: u16 = (input[0] as u16) + 256 * (input[1] as u16);
        Ok((slice_subrange(input, 2, input.len()), value))
    }
}

/// Reads an unsigned 32-bit number.
pub fn le_u32<'a>(input: &'a [u8]) -> (r: Result<(&'a [u8], u32), ParseError>)
    ensures
        yields(r, spec_le_u32(input@)),
        bounded(input@, spec_le_u32(input@)),
{
    reveal(spec_le_u32);
    if input.len() < 4 {
        Err(ParseError { offset: 0, kind: ParseErrorKind::UnexpectedEnd })
    } else {
        let value: u32 = (input[0] as u32) + 256 * (input[1] as u32) + 65536 * (input[2] as u32)
            + 16777216 * (input[3] as u32);
        Ok((slice_subrange(input, 4, input.len()), value))
    }
}

/// Reads a signed 32-bit number.
pub fn le_i32<'a>(input: &'a [u8]) -> (r: Result<(&'a [u8], i32), ParseError>)
    ensures
        yields(r, spec_le_i32(input@)),
        bounded(input@, spec_le_i32(input@)),
{
    reveal(spec_le_i32);
    reveal(spec_le_u32);
    match le_u32(input) {
        Err(e) => Err(e),
        Ok((rest, u)) => {
            let value: i32 = if u < 0x8000_0000 {
                u as i32
            } else {
                ((u - 0x8000_0000) as i32) + i32::MIN
            };
            Ok((rest, value))
        },
    }
}

/// Reads a truth value: one byte, true unless it is zero.
pub fn boolean<'a>(input: &'a [u8]) -> (r: Result<(&'a [u8], bool), ParseError>)
    ensures
        yields(r, spec_boolean(input@)),
        bounded(input@, spec_boolean(input@)),
{
    reveal(spec_boolean);
    reveal(spec_le_u8);
    match le_u8(input) {
        Err(e) => Err(e),
        Ok((rest, b)) => Ok((rest, b != 0)),
    }
}

/// Reads a length-prefixed string and borrows it from the buffer.
pub fn kstring<'a>(input: &'a [u8]) -> (r: Result<(&'a [u8], &'a str), ParseError>)
    ensures
        yields(r, spec_kstring(input@)),
        bounded(input@, spec_kstring(input@)),
{
    reveal(spec_kstring);
    reveal(spec_le_u16);
    match le_u16(input) {
        Err(e) => Err(e),
        Ok((body, len)) => {
            let len: usize = len as usize;
            if body.len() < len {
                return Err(ParseError { offset: 2, kind: ParseErrorKind::UnexpectedEnd });
            }
            let text = slice_subrange(body, 0, len);
            let rest = slice_subrange(body, len, body.len());
            assert(rest@ =~= input@.skip(2 + len));
            match utf8(text) {
                Ok(s) => {
                    proof {
                        encode_utf8_decode_utf8(s@);
                    }
                    Ok((rest, s))
                },
                Err(_) => Err(ParseError { offset: 0, kind: ParseErrorKind::InvalidUtf8 }),
            }
        },
    }
}

/// The reason that bytes are not UTF-8, as the standard library reports it.
#[verifier::external_type_specification]
#[verifier::external_body]
pub struct ExUtf8Error(core::str::Utf8Error);

/// `core::str::from_utf8`: succeeds exactly on well-formed UTF-8, and the
/// string it then returns is made of the very bytes it was given.
#[verifier::external_body]
fn utf8<'a>(bytes: &'a [u8]) -> (r: Result<&'a str, core::str::Utf8Error>)
    ensures
        r is Ok <==> valid_utf8(bytes@),
        r matches Ok(s) ==> s.spec_bytes() == bytes@,
{
    core::str::from_utf8(bytes)
}

} // verus!
