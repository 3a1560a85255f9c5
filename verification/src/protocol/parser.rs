//! The grammar of the inbound messages: for each record, the function that
//! says what its bytes mean, and the decoder that computes it.
//!
//! A record is a run of fields. Its meaning is the values of its fields, or
//! the failure of the first field that fails, located from the start of the
//! record.
//!
//! Where the fields have fixed places, the same is said once more by
//! offsets: `lemma_lap_by_offsets` for a lap, `lemma_car_update_by_offsets`
//! for the state of a car, and `lemma_numbers_at` for single numbers. A
//! proof about given bytes is best led through them.

use crate::protocol::acc_enum::BroadcastingEventType;
use crate::protocol::acc_enum::CarLocation;
use crate::protocol::acc_enum::CarModel;
use crate::protocol::acc_enum::CupCategory;
use crate::protocol::acc_enum::DriverCategory;
use crate::protocol::acc_enum::Nationality;
use crate::protocol::acc_enum::SessionPhase;
use crate::protocol::acc_enum::SessionType;
use crate::protocol::cameras::sets_map;
use crate::protocol::cameras::CameraSet;
use crate::protocol::cameras::CameraSets;
use crate::protocol::inbound::drivers_view;
use crate::protocol::inbound::BroadcastingEvent;
use crate::protocol::inbound::BroadcastingEventView;
use crate::protocol::inbound::Driver;
use crate::protocol::inbound::DriverView;
use crate::protocol::inbound::EntrylistCar;
use crate::protocol::inbound::EntrylistCarView;
use crate::protocol::inbound::EntrylistUpdate;
use crate::protocol::inbound::InboundMessage;
use crate::protocol::inbound::InboundMessageView;
use crate::protocol::inbound::Lap;
use crate::protocol::inbound::LapView;
use crate::protocol::inbound::RealtimeCarUpdate;
use crate::protocol::inbound::RealtimeCarUpdateView;
use crate::protocol::inbound::RealtimeUpdate;
use crate::protocol::inbound::RealtimeUpdateView;
use crate::protocol::inbound::RegistrationResult;
use crate::protocol::inbound::RegistrationResultView;
use crate::protocol::inbound::ReplayInfo;
use crate::protocol::inbound::TrackData;
use crate::protocol::inbound::TrackDataView;
use crate::protocol::inbound::WireFloat;
use crate::protocol::splits::no_splits;
use crate::protocol::splits::push_split;
use crate::protocol::splits::split_times;
use crate::protocol::text::texts;
use crate::protocol::splits::MAX_SPLITS;
use crate::protocol::wire::after;
use crate::protocol::wire::boolean;
use crate::protocol::wire::bounded;
use crate::protocol::wire::fail;
use crate::protocol::wire::failed;
use crate::protocol::wire::i32_of_bits;
use crate::protocol::wire::i8_of_bits;
use crate::protocol::wire::is_tail;
use crate::protocol::wire::joined;
use crate::protocol::wire::kstring;
use crate::protocol::wire::le_i32;
use crate::protocol::wire::le_i8;
use crate::protocol::wire::le_u16;
use crate::protocol::wire::le_u32;
use crate::protocol::wire::le_u8;
use crate::protocol::wire::lemma_numbers_at;
use crate::protocol::wire::located;
use crate::protocol::wire::rest_of;
use crate::protocol::wire::spec_boolean;
use crate::protocol::wire::spec_kstring;
use crate::protocol::wire::spec_le_i32;
use crate::protocol::wire::spec_le_i8;
use crate::protocol::wire::spec_le_u16;
use crate::protocol::wire::spec_le_u32;
use crate::protocol::wire::spec_le_u8;
use crate::protocol::wire::spec_repeat;
use crate::protocol::wire::spec_tag;
use crate::protocol::wire::tag;
use crate::protocol::wire::u16_of_le;
use crate::protocol::wire::u32_of_le;
use crate::protocol::wire::value_of;
use crate::protocol::wire::within;
use crate::protocol::wire::yields;
use crate::protocol::wire::Failure;
use crate::protocol::wire::ParseError;
use crate::protocol::wire::ParseErrorKind;
use crate::protocol::wire::Parsed;
use crate::protocol::DecodeError;
use std::borrow::Cow;
use tinyvec::ArrayVec;
use vstd::prelude::*;
use vstd::slice::slice_subrange;
use vstd::std_specs::convert::TryFromSpec;

verus! {

/// A code of one byte, looked up in the table of `T`. An unknown code fails
/// at the byte that holds it, and the failure carries the code.
#[verifier::opaque]
pub open spec fn spec_code8<T: TryFrom<u8, Error = DecodeError>>(s: Seq<u8>) -> Parsed<T> {
    match spec_le_u8(s) {
        Err(f) => Err(f),
        Ok((rest, code)) => match T::try_from_spec(code) {
            Ok(value) => Ok((rest, value)),
            Err(e) => fail(0, ParseErrorKind::UnknownCode(e)),
        },
    }
}

/// A code of two bytes, looked up in the table of `T`. An unknown code fails
/// at its first byte, and the failure carries the code.
#[verifier::opaque]
pub open spec fn spec_code16<T: TryFrom<u16, Error = DecodeError>>(s: Seq<u8>) -> Parsed<T> {
    match spec_le_u16(s) {
        Err(f) => Err(f),
        Ok((rest, code)) => match T::try_from_spec(code) {
            Ok(value) => Ok((rest, value)),
            Err(e) => fail(0, ParseErrorKind::UnknownCode(e)),
        },
    }
}

/// Reads a code of one byte and looks it up in the table of `T`.
pub fn code8<'a, T: TryFrom<u8, Error = DecodeError>>(input: &'a [u8]) -> (r: Result<
    (&'a [u8], T),
    ParseError,
>)
    requires
        T::obeys_try_from_spec(),
    ensures
        match r {
            Ok((rest, value)) => spec_code8::<T>(input@) == Ok::<(Seq<u8>, T), Failure>(
                (rest@, value),
            ),
            Err(e) => spec_code8::<T>(input@) == Err::<(Seq<u8>, T), Failure>(e@),
        },
        bounded(input@, spec_code8::<T>(input@)),
{
    reveal(spec_code8);
    reveal(spec_le_u8);
    match le_u8(input) {
        Err(e) => Err(e),
        Ok((rest, code)) => match T::try_from(code) {
            Ok(value) => Ok((rest, value)),
            Err(e) => Err(ParseError { offset: 0, kind: ParseErrorKind::UnknownCode(e) }),
        },
    }
}

/// Reads a code of two bytes and looks it up in the table of `T`.
pub fn code16<'a, T: TryFrom<u16, Error = DecodeError>>(input: &'a [u8]) -> (r: Result<
    (&'a [u8], T),
    ParseError,
>)
    requires
        T::obeys_try_from_spec(),
    ensures
        match r {
            Ok((rest, value)) => spec_code16::<T>(input@) == Ok::<(Seq<u8>, T), Failure>(
                (rest@, value),
            ),
            Err(e) => spec_code16::<T>(input@) == Err::<(Seq<u8>, T), Failure>(e@),
        },
        bounded(input@, spec_code16::<T>(input@)),
{
    reveal(spec_code16);
    reveal(spec_le_u16);
    match le_u16(input) {
        Err(e) => Err(e),
        Ok((rest, code)) => match T::try_from(code) {
            Ok(value) => Ok((rest, value)),
            Err(e) => Err(ParseError { offset: 0, kind: ParseErrorKind::UnknownCode(e) }),
        },
    }
}

/// A floating-point number: the four bytes of its bit pattern.
#[verifier::opaque]
pub open spec fn spec_le_float(s: Seq<u8>) -> Parsed<WireFloat> {
    match spec_le_u32(s) {
        Err(f) => Err(f),
        Ok((rest, bits)) => Ok((rest, WireFloat { bits })),
    }
}

/// Reads a floating-point number as its bit pattern.
pub fn le_float<'a>(input: &'a [u8]) -> (r: Result<(&'a [u8], WireFloat), ParseError>)
    ensures
        yields(r, spec_le_float(input@)),
        bounded(input@, spec_le_float(input@)),
{
    reveal(spec_le_float);
    reveal(spec_le_u32);
    match le_u32(input) {
        Err(e) => Err(e),
        Ok((rest, bits)) => Ok((rest, WireFloat { bits })),
    }
}

/// The sector time that starts at byte `4 * i` of a block.
pub open spec fn time_at(block: Seq<u8>, i: int) -> i32 {
    i32_of_bits(u32_of_le(block[4 * i], block[4 * i + 1], block[4 * i + 2], block[4 * i + 3]))
}

/// A block of sector times: signed 32-bit numbers one after another, three
/// at most. A block whose length is no multiple of four fails as a whole, at
/// its start: no number of it is read. A fourth number fails where it starts.
pub open spec fn spec_sector_times(block: Seq<u8>) -> Result<Seq<i32>, Failure> {
    if block.len() % 4 != 0 {
        Err(Failure { offset: 0, kind: ParseErrorKind::RaggedSplits })
    } else if block.len() / 4 > MAX_SPLITS {
        Err(Failure { offset: 4 * MAX_SPLITS as int, kind: ParseErrorKind::TooManySplits })
    } else {
        Ok(Seq::new(block.len() / 4, |i: int| time_at(block, i)))
    }
}

/// The sector times of a lap: one byte that says how many bytes they take,
/// then that many bytes, four for each time. A length that is no multiple of
/// four fails at the byte that holds it, whatever follows. A length that
/// the buffer cannot serve fails where the block starts. A length of more
/// than three times fails where the fourth time starts.
#[verifier::opaque]
pub open spec fn spec_splits(s: Seq<u8>) -> Parsed<Seq<i32>> {
    match spec_le_u8(s) {
        Err(f) => Err(f),
        Ok((body, length)) => if length % 4 != 0 {
            fail(0, ParseErrorKind::RaggedSplits)
        } else if body.len() < length {
            fail(1, ParseErrorKind::UnexpectedEnd)
        } else {
            match spec_sector_times(body.take(length as int)) {
                Err(f) => Err(Failure { offset: f.offset + 1, kind: f.kind }),
                Ok(times) => Ok((body.skip(length as int), times)),
            }
        },
    }
}

/// A block of sector times is decoded whole or not at all. It decodes
/// exactly if its length is a multiple of four and it holds three numbers at
/// most, and then every four bytes of it have become one sector time. A
/// length that is no multiple of four fails, however long the block is.
pub proof fn lemma_sector_times_whole_or_nothing(block: Seq<u8>)
    ensures
        spec_sector_times(block) is Ok <==> block.len() % 4 == 0 && block.len() <= 4 * MAX_SPLITS,
        spec_sector_times(block) matches Ok(times) ==> 4 * times.len() == block.len()
            && forall|i: int| 0 <= i < times.len() ==> times[i] == time_at(block, i),
        block.len() % 4 != 0 ==> spec_sector_times(block) == Err::<Seq<i32>, Failure>(
            Failure { offset: 0, kind: ParseErrorKind::RaggedSplits },
        ),
{
}

/// Malformed sector times are not decoded. Without a byte there is no
/// length to read. With `s[0]` the length that the first byte announces: a
/// length that is no multiple of four fails at that byte, whatever follows;
/// a length that overruns the buffer fails where the block starts; a length
/// of more than three times fails where the fourth starts. Otherwise the
/// sector times decode, a quarter of the length in number, and exactly the
/// announced bytes are consumed.
pub proof fn lemma_splits_need_their_bytes(s: Seq<u8>)
    ensures
        s.len() == 0 ==> spec_splits(s) == fail::<Seq<i32>>(0, ParseErrorKind::UnexpectedEnd),
        s.len() >= 1 && s[0] % 4 != 0 ==> spec_splits(s) == fail::<Seq<i32>>(
            0,
            ParseErrorKind::RaggedSplits,
        ),
        s.len() >= 1 && s[0] % 4 == 0 && s.len() < 1 + s[0] ==> spec_splits(s) == fail::<Seq<i32>>(
            1,
            ParseErrorKind::UnexpectedEnd,
        ),
        s.len() >= 1 + s[0] && s[0] % 4 == 0 && s[0] / 4 > MAX_SPLITS ==> spec_splits(s) == fail::<
            Seq<i32>,
        >(1 + 4 * MAX_SPLITS as int, ParseErrorKind::TooManySplits),
        spec_splits(s) is Ok <==> s.len() >= 1 && s[0] % 4 == 0 && s[0] / 4 <= MAX_SPLITS
            && s.len() >= 1 + s[0],
        spec_splits(s) matches Ok((rest, times)) ==> times.len() == s[0] / 4 && rest == s.skip(
            1 + s[0],
        ) && forall|i: int| 0 <= i < times.len() ==> times[i] == time_at(s.skip(1), i),
{
    reveal(spec_splits);
    reveal(spec_le_u8);
    if s.len() >= 1 && s[0] % 4 == 0 && s.len() >= 1 + s[0] {
        let body = s.skip(1);
        let block = body.take(s[0] as int);
        lemma_sector_times_whole_or_nothing(block);
        assert(body.skip(s[0] as int) =~= s.skip(1 + s[0]));
    }
}

/// Decodes a block of sector times.
pub fn sector_times(block: &[u8]) -> (r: Result<ArrayVec<[i32; 3]>, ParseError>)
    ensures
        match r {
            Ok(times) => spec_sector_times(block@) == Ok::<Seq<i32>, Failure>(split_times(times)),
            Err(e) => spec_sector_times(block@) == Err::<Seq<i32>, Failure>(e@),
        },
        r matches Err(e) ==> e.offset <= block@.len(),
{
    if block.len() % 4 != 0 {
        return Err(ParseError { offset: 0, kind: ParseErrorKind::RaggedSplits });
    }
    let mut times = no_splits();
    let mut i: usize = 0;
    while 4 * i < block.len()
        invariant
            block@.len() % 4 == 0,
            i <= MAX_SPLITS,
            4 * i <= block@.len(),
            split_times(times) == Seq::new(i as nat, |k: int| time_at(block@, k)),
        decreases block@.len() - 4 * i,
    {
        reveal(spec_le_i32);
        if i == MAX_SPLITS {
            return Err(ParseError { offset: 4 * MAX_SPLITS, kind: ParseErrorKind::TooManySplits });
        }
        let left = slice_subrange(block, 4 * i, block.len());
        match le_i32(left) {
            Err(e) => {
                // The block holds whole numbers only, so one is there to be read.
                assert(false);
                return Err(e);
            },
            Ok((_, time_ms)) => {
                push_split(&mut times, time_ms);
                i += 1;
            },
        }
    }
    Ok(times)
}

/// Decodes the sector times of a lap.
pub fn splits<'a>(input: &'a [u8]) -> (r: Result<(&'a [u8], ArrayVec<[i32; 3]>), ParseError>)
    ensures
        match r {
            Ok((rest, times)) => spec_splits(input@) == Ok::<(Seq<u8>, Seq<i32>), Failure>(
                (rest@, split_times(times)),
            ),
            Err(e) => spec_splits(input@) == Err::<(Seq<u8>, Seq<i32>), Failure>(e@),
        },
        bounded(input@, spec_splits(input@)),
{
    reveal(spec_splits);
    reveal(spec_le_u8);
    let (body, length) = le_u8(input)?;
    if length % 4 != 0 {
        return Err(ParseError { offset: 0, kind: ParseErrorKind::RaggedSplits });
    }
    let len: usize = length as usize;
    if body.len() < len {
        return Err(ParseError { offset: 1, kind: ParseErrorKind::UnexpectedEnd });
    }
    let rest = slice_subrange(body, len, body.len());
    assert(rest@ =~= input@.skip(1 + len));
    match sector_times(slice_subrange(body, 0, len)) {
        Err(e) => Err(ParseError { offset: e.offset + 1, kind: e.kind }),
        Ok(times) => Ok((rest, times)),
    }
}

/// Where a replay stands, if there is one. A zero byte says that there is
/// none. Any other byte is already the first byte of the record: two
/// floating-point numbers and a 32-bit index.
#[verifier::opaque]
pub open spec fn spec_replay_info(s: Seq<u8>) -> Parsed<Option<ReplayInfo>> {
    if s.len() >= 1 && s[0] == 0 {
        Ok((s.skip(1), None))
    } else {
        let session_time = spec_le_float(s);
        let remaining_time = after(s, session_time, spec_le_float(rest_of(session_time)));
        let focused_car_index = after(s, remaining_time, spec_le_u32(rest_of(remaining_time)));
        if session_time is Err {
            failed(session_time)
        } else if remaining_time is Err {
            failed(remaining_time)
        } else if focused_car_index is Err {
            failed(focused_car_index)
        } else {
            Ok(
                (
                    rest_of(focused_car_index),
                    Some(
                        ReplayInfo {
                            session_time: value_of(session_time),
                            remaining_time: value_of(remaining_time),
                            focused_car_index: value_of(focused_car_index),
                        },
                    ),
                ),
            )
        }
    }
}

/// Decodes where a replay stands.
pub fn replay_info<'a>(input: &'a [u8]) -> (r: Result<(&'a [u8], Option<ReplayInfo>), ParseError>)
    ensures
        yields(r, spec_replay_info(input@)),
        bounded(input@, spec_replay_info(input@)),
{
    reveal(spec_replay_info);
    if input.len() >= 1 && input[0] == 0 {
        return Ok((slice_subrange(input, 1, input.len()), None));
    }
    let (rest, session_time) = le_float(input)?;
    let (rest, remaining_time) = located(input, rest, le_float(rest))?;
    let (rest, focused_car_index) = located(input, rest, le_u32(rest))?;
    Ok((rest, Some(ReplayInfo { session_time, remaining_time, focused_car_index })))
}

/// The answer to a registration request: tag 1, the connection id, two
/// truth values and a string.
#[verifier::opaque]
pub open spec fn spec_registration_result(s: Seq<u8>) -> Parsed<RegistrationResultView> {
    let tag = spec_tag(s, 0x01);
    let connection_id = after(s, tag, spec_le_u32(rest_of(tag)));
    let connection_success = after(s, connection_id, spec_boolean(rest_of(connection_id)));
    let read_only = after(s, connection_success, spec_boolean(rest_of(connection_success)));
    let error_message = after(s, read_only, spec_kstring(rest_of(read_only)));
    if tag is Err {
        failed(tag)
    } else if connection_id is Err {
        failed(connection_id)
    } else if connection_success is Err {
        failed(connection_success)
    } else if read_only is Err {
        failed(read_only)
    } else if error_message is Err {
        failed(error_message)
    } else {
        Ok(
            (
                rest_of(error_message),
                RegistrationResultView {
                    connection_id: value_of(connection_id),
                    connection_success: value_of(connection_success),
                    read_only: value_of(read_only),
                    error_message: value_of(error_message),
                },
            ),
        )
    }
}

/// Decodes the answer to a registration request.
pub fn registration_result<'a>(input: &'a [u8]) -> (r: Result<
    (&'a [u8], RegistrationResult<'a>),
    ParseError,
>)
    ensures
        yields(r, spec_registration_result(input@)),
        bounded(input@, spec_registration_result(input@)),
{
    reveal(spec_registration_result);
    let (rest, _) = tag(input, 0x01)?;
    let (rest, connection_id) = located(input, rest, le_u32(rest))?;
    let (rest, connection_success) = located(input, rest, boolean(rest))?;
    let (rest, read_only) = located(input, rest, boolean(rest))?;
    let (rest, error_message) = located(input, rest, kstring(rest))?;
    Ok(
        (
            rest,
            RegistrationResult {
                connection_id,
                connection_success,
                read_only,
                error_message: Cow::Borrowed(error_message),
            },
        ),
    )
}

/// A lap: its time, the car, the driver, the sector times and four flags.
#[verifier::opaque]
pub open spec fn spec_lap(s: Seq<u8>) -> Parsed<LapView> {
    let lap_time_ms = spec_le_i32(s);
    let car_id = after(s, lap_time_ms, spec_le_u16(rest_of(lap_time_ms)));
    let driver_index = after(s, car_id, spec_le_u16(rest_of(car_id)));
    let splits = after(s, driver_index, spec_splits(rest_of(driver_index)));
    let is_invalid = after(s, splits, spec_boolean(rest_of(splits)));
    let is_valid_for_best = after(s, is_invalid, spec_boolean(rest_of(is_invalid)));
    let is_out_lap = after(s, is_valid_for_best, spec_boolean(rest_of(is_valid_for_best)));
    let is_in_lap = after(s, is_out_lap, spec_boolean(rest_of(is_out_lap)));
    if lap_time_ms is Err {
        failed(lap_time_ms)
    } else if car_id is Err {
        failed(car_id)
    } else if driver_index is Err {
        failed(driver_index)
    } else if splits is Err {
        failed(splits)
    } else if is_invalid is Err {
        failed(is_invalid)
    } else if is_valid_for_best is Err {
        failed(is_valid_for_best)
    } else if is_out_lap is Err {
        failed(is_out_lap)
    } else if is_in_lap is Err {
        failed(is_in_lap)
    } else {
        Ok(
            (
                rest_of(is_in_lap),
                LapView {
                    lap_time_ms: value_of(lap_time_ms),
                    car_id: value_of(car_id),
                    driver_index: value_of(driver_index),
                    splits: value_of(splits),
                    is_invalid: value_of(is_invalid),
                    is_valid_for_best: value_of(is_valid_for_best),
                    is_out_lap: value_of(is_out_lap),
                    is_in_lap: value_of(is_in_lap),
                },
            ),
        )
    }
}

/// A lap by the offsets of its fields. Read at `at`, a lap takes eight bytes
/// for its time, its car and its driver, one byte `n` for the length of its
/// sector times, `n` bytes for the sector times, and four bytes for its
/// flags. It decodes exactly if all these bytes are there and `n` is a
/// multiple of four that is no more than twelve, and then each field is made
/// of the bytes at its offset and what is left starts behind the flags.
pub proof fn lemma_lap_by_offsets(s: Seq<u8>, at: int)
    requires
        0 <= at <= s.len(),
    ensures
        spec_lap(s.skip(at)) is Ok <==> at + 9 <= s.len() && s[at + 8] % 4 == 0 && s[at + 8] / 4
            <= MAX_SPLITS && at + 13 + s[at + 8] <= s.len(),
        spec_lap(s.skip(at)) matches Ok((rest, lap)) ==> {
            let n = s[at + 8] as int;
            &&& rest == s.skip(at + 13 + n)
            &&& lap.lap_time_ms == i32_of_bits(
                u32_of_le(s[at], s[at + 1], s[at + 2], s[at + 3]),
            )
            &&& lap.car_id == u16_of_le(s[at + 4], s[at + 5])
            &&& lap.driver_index == u16_of_le(s[at + 6], s[at + 7])
            &&& lap.splits.len() == n / 4
            &&& forall|i: int| 0 <= i < n / 4 ==> lap.splits[i] == time_at(s.skip(at + 9), i)
            &&& lap.is_invalid == (s[at + 9 + n] != 0)
            &&& lap.is_valid_for_best == (s[at + 10 + n] != 0)
            &&& lap.is_out_lap == (s[at + 11 + n] != 0)
            &&& lap.is_in_lap == (s[at + 12 + n] != 0)
        },
{
    reveal(spec_lap);
    let t = s.skip(at);
    assert(t.skip(0) =~= t);
    lemma_numbers_at(t, 0);
    if at + 4 <= s.len() {
        lemma_numbers_at(t, 4);
    }
    if at + 6 <= s.len() {
        lemma_numbers_at(t, 6);
    }
    if at + 8 <= s.len() {
        lemma_splits_need_their_bytes(t.skip(8));
    }
    if at + 9 <= s.len() {
        let n = s[at + 8] as int;
        assert(t.skip(8)[0] == s[at + 8]);
        if at + 9 + n <= s.len() {
            assert(t.skip(8).skip(1 + n) =~= t.skip(9 + n));
            assert(t.skip(8).skip(1) =~= s.skip(at + 9));
            lemma_numbers_at(t, 9 + n);
            if at + 10 + n <= s.len() {
                lemma_numbers_at(t, 10 + n);
            }
            if at + 11 + n <= s.len() {
                lemma_numbers_at(t, 11 + n);
            }
            if at + 12 + n <= s.len() {
                lemma_numbers_at(t, 12 + n);
            }
            if at + 13 + n <= s.len() {
                assert(t.skip(13 + n) =~= s.skip(at + 13 + n));
            }
        }
    }
}

/// Decodes a lap.
pub fn lap<'a>(input: &'a [u8]) -> (r: Result<
    (&'a [u8], Lap),
    ParseError,
>)
    ensures
        yields(r, spec_lap(input@)),
        bounded(input@, spec_lap(input@)),
{
    reveal(spec_lap);
    let (rest, lap_time_ms) = le_i32(input)?;
    let (rest, car_id) = located(input, rest, le_u16(rest))?;
    let (rest, driver_index) = located(input, rest, le_u16(rest))?;
    let (rest, splits) = located(input, rest, splits(rest))?;
    let (rest, is_invalid) = located(input, rest, boolean(rest))?;
    let (rest, is_valid_for_best) = located(input, rest, boolean(rest))?;
    let (rest, is_out_lap) = located(input, rest, boolean(rest))?;
    let (rest, is_in_lap) = located(input, rest, boolean(rest))?;
    Ok(
        (
            rest,
            Lap {
                lap_time_ms,
                car_id,
                driver_index,
                splits,
                is_invalid,
                is_valid_for_best,
                is_out_lap,
                is_in_lap,
            },
        ),
    )
}

/// The state of the session: tag 2 and the fields of [`RealtimeUpdate`] in
/// their order.
#[verifier::opaque]
pub open spec fn spec_realtime_update(s: Seq<u8>) -> Parsed<RealtimeUpdateView> {
    let tag = spec_tag(s, 0x02);
    let event_index = after(s, tag, spec_le_u16(rest_of(tag)));
    let session_index = after(s, event_index, spec_le_u16(rest_of(event_index)));
    let session_type = after(s, session_index, spec_code8::<SessionType>(rest_of(session_index)));
    let session_phase = after(s, session_type, spec_code8::<SessionPhase>(rest_of(session_type)));
    let session_time = after(s, session_phase, spec_le_float(rest_of(session_phase)));
    let session_end_time = after(s, session_time, spec_le_float(rest_of(session_time)));
    let focused_car_index = after(s, session_end_time, spec_le_u32(rest_of(session_end_time)));
    let active_camera_set = after(s, focused_car_index, spec_kstring(rest_of(focused_car_index)));
    let active_camera = after(s, active_camera_set, spec_kstring(rest_of(active_camera_set)));
    let current_hud_page = after(s, active_camera, spec_kstring(rest_of(active_camera)));
    let replay_info = after(s, current_hud_page, spec_replay_info(rest_of(current_hud_page)));
    let time_of_day = after(s, replay_info, spec_le_float(rest_of(replay_info)));
    let ambient_temp = after(s, time_of_day, spec_le_i8(rest_of(time_of_day)));
    let track_temp = after(s, ambient_temp, spec_le_i8(rest_of(ambient_temp)));
    let clouds = after(s, track_temp, spec_le_u8(rest_of(track_temp)));
    let rain_level = after(s, clouds, spec_le_u8(rest_of(clouds)));
    let wetness = after(s, rain_level, spec_le_u8(rest_of(rain_level)));
    let best_session_lap = after(s, wetness, spec_lap(rest_of(wetness)));
    if tag is Err {
        failed(tag)
    } else if event_index is Err {
        failed(event_index)
    } else if session_index is Err {
        failed(session_index)
    } else if session_type is Err {
        failed(session_type)
    } else if session_phase is Err {
        failed(session_phase)
    } else if session_time is Err {
        failed(session_time)
    } else if session_end_time is Err {
        failed(session_end_time)
    } else if focused_car_index is Err {
        failed(focused_car_index)
    } else if active_camera_set is Err {
        failed(active_camera_set)
    } else if active_camera is Err {
        failed(active_camera)
    } else if current_hud_page is Err {
        failed(current_hud_page)
    } else if replay_info is Err {
        failed(replay_info)
    } else if time_of_day is Err {
        failed(time_of_day)
    } else if ambient_temp is Err {
        failed(ambient_temp)
    } else if track_temp is Err {
        failed(track_temp)
    } else if clouds is Err {
        failed(clouds)
    } else if rain_level is Err {
        failed(rain_level)
    } else if wetness is Err {
        failed(wetness)
    } else if best_session_lap is Err {
        failed(best_session_lap)
    } else {
        Ok(
            (
                rest_of(best_session_lap),
                RealtimeUpdateView {
                    event_index: value_of(event_index),
                    session_index: value_of(session_index),
                    session_type: value_of(session_type),
                    session_phase: value_of(session_phase),
                    session_time: value_of(session_time),
                    session_end_time: value_of(session_end_time),
                    focused_car_index: value_of(focused_car_index),
                    active_camera_set: value_of(active_camera_set),
                    active_camera: value_of(active_camera),
                    current_hud_page: value_of(current_hud_page),
                    replay_info: value_of(replay_info),
                    time_of_day: value_of(time_of_day),
                    ambient_temp: value_of(ambient_temp),
                    track_temp: value_of(track_temp),
                    clouds: value_of(clouds),
                    rain_level: value_of(rain_level),
                    wetness: value_of(wetness),
                    best_session_lap: value_of(best_session_lap),
                },
            ),
        )
    }
}

/// Decodes the state of the session.
pub fn realtime_update<'a>(input: &'a [u8]) -> (r: Result<
    (&'a [u8], RealtimeUpdate<'a>),
    ParseError,
>)
    ensures
        yields(r, spec_realtime_update(input@)),
        bounded(input@, spec_realtime_update(input@)),
{
    reveal(spec_realtime_update);
    let (rest, _) = tag(input, 0x02)?;
    let (rest, event_index) = located(input, rest, le_u16(rest))?;
    let (rest, session_index) = located(input, rest, le_u16(rest))?;
    let (rest, session_type) = located(input, rest, code8::<SessionType>(rest))?;
    let (rest, session_phase) = located(input, rest, code8::<SessionPhase>(rest))?;
    let (rest, session_time) = located(input, rest, le_float(rest))?;
    let (rest, session_end_time) = located(input, rest, le_float(rest))?;
    let (rest, focused_car_index) = located(input, rest, le_u32(rest))?;
    let (rest, active_camera_set) = located(input, rest, kstring(rest))?;
    let (rest, active_camera) = located(input, rest, kstring(rest))?;
    let (rest, current_hud_page) = located(input, rest, kstring(rest))?;
    let (rest, replay_info) = located(input, rest, replay_info(rest))?;
    let (rest, time_of_day) = located(input, rest, le_float(rest))?;
    let (rest, ambient_temp) = located(input, rest, le_i8(rest))?;
    let (rest, track_temp) = located(input, rest, le_i8(rest))?;
    let (rest, clouds) = located(input, rest, le_u8(rest))?;
    let (rest, rain_level) = located(input, rest, le_u8(rest))?;
    let (rest, wetness) = located(input, rest, le_u8(rest))?;
    let (rest, best_session_lap) = located(input, rest, lap(rest))?;
    Ok(
        (
            rest,
            RealtimeUpdate {
                event_index,
                session_index,
                session_type,
                session_phase,
                session_time,
                session_end_time,
                focused_car_index,
                active_camera_set: Cow::Borrowed(active_camera_set),
                active_camera: Cow::Borrowed(active_camera),
                current_hud_page: Cow::Borrowed(current_hud_page),
                replay_info,
                time_of_day,
                ambient_temp,
                track_temp,
                clouds,
                rain_level,
                wetness,
                best_session_lap,
            },
        ),
    )
}

/// The state of a car: tag 3 and the fields of [`RealtimeCarUpdate`] in
/// their order.
#[verifier::opaque]
pub open spec fn spec_realtime_car_update(s: Seq<u8>) -> Parsed<RealtimeCarUpdateView> {
    let tag = spec_tag(s, 0x03);
    let id = after(s, tag, spec_le_u16(rest_of(tag)));
    let driver_index = after(s, id, spec_le_u16(rest_of(id)));
    let driver_count = after(s, driver_index, spec_le_u8(rest_of(driver_index)));
    let gear = after(s, driver_count, spec_le_i8(rest_of(driver_count)));
    let world_pos_x = after(s, gear, spec_le_float(rest_of(gear)));
    let world_pos_y = after(s, world_pos_x, spec_le_float(rest_of(world_pos_x)));
    let yaw = after(s, world_pos_y, spec_le_float(rest_of(world_pos_y)));
    let car_location = after(s, yaw, spec_code8::<CarLocation>(rest_of(yaw)));
    let speed_kph = after(s, car_location, spec_le_u16(rest_of(car_location)));
    let position = after(s, speed_kph, spec_le_u16(rest_of(speed_kph)));
    let cup_position = after(s, position, spec_le_u16(rest_of(position)));
    let track_position = after(s, cup_position, spec_le_u16(rest_of(cup_position)));
    let spline_position = after(s, track_position, spec_le_float(rest_of(track_position)));
    let laps = after(s, spline_position, spec_le_u16(rest_of(spline_position)));
    let delta = after(s, laps, spec_le_i32(rest_of(laps)));
    let best_session_lap = after(s, delta, spec_lap(rest_of(delta)));
    let last_lap = after(s, best_session_lap, spec_lap(rest_of(best_session_lap)));
    let current_lap = after(s, last_lap, spec_lap(rest_of(last_lap)));
    if tag is Err {
        failed(tag)
    } else if id is Err {
        failed(id)
    } else if driver_index is Err {
        failed(driver_index)
    } else if driver_count is Err {
        failed(driver_count)
    } else if gear is Err {
        failed(gear)
    } else if world_pos_x is Err {
        failed(world_pos_x)
    } else if world_pos_y is Err {
        failed(world_pos_y)
    } else if yaw is Err {
        failed(yaw)
    } else if car_location is Err {
        failed(car_location)
    } else if speed_kph is Err {
        failed(speed_kph)
    } else if position is Err {
        failed(position)
    } else if cup_position is Err {
        failed(cup_position)
    } else if track_position is Err {
        failed(track_position)
    } else if spline_position is Err {
        failed(spline_position)
    } else if laps is Err {
        failed(laps)
    } else if delta is Err {
        failed(delta)
    } else if best_session_lap is Err {
        failed(best_session_lap)
    } else if last_lap is Err {
        failed(last_lap)
    } else if current_lap is Err {
        failed(current_lap)
    } else {
        Ok(
            (
                rest_of(current_lap),
                RealtimeCarUpdateView {
                    id: value_of(id),
                    driver_index: value_of(driver_index),
                    driver_count: value_of(driver_count),
                    gear: value_of(gear),
                    world_pos_x: value_of(world_pos_x),
                    world_pos_y: value_of(world_pos_y),
                    yaw: value_of(yaw),
                    car_location: value_of(car_location),
                    speed_kph: value_of(speed_kph),
                    position: value_of(position),
                    cup_position: value_of(cup_position),
                    track_position: value_of(track_position),
                    spline_position: value_of(spline_position),
                    laps: value_of(laps),
                    delta: value_of(delta),
                    best_session_lap: value_of(best_session_lap),
                    last_lap: value_of(last_lap),
                    current_lap: value_of(current_lap),
                },
            ),
        )
    }
}

/// The state of a car by the offsets of its fields. The fields up to the
/// laps have fixed places in the first 38 bytes, and the three laps follow
/// one another from byte 38 on. The state decodes exactly if the datagram
/// starts with tag 3, holds those 38 bytes with a listed car location at
/// byte 19, and the three laps decode; each field is then made of the bytes
/// at its offset.
pub proof fn lemma_car_update_by_offsets(s: Seq<u8>)
    ensures
        ({
            let best = spec_lap(s.skip(38));
            let last = spec_lap(rest_of(best));
            let current = spec_lap(rest_of(last));
            &&& spec_realtime_car_update(s) is Ok <==> s.len() >= 38 && s[0] == 0x03
                && CarLocation::is_code(s[19]) && best is Ok && last is Ok && current is Ok
            &&& spec_realtime_car_update(s) matches Ok((rest, update)) ==> {
                &&& update.id == u16_of_le(s[1], s[2])
                &&& update.driver_index == u16_of_le(s[3], s[4])
                &&& update.driver_count == s[5]
                &&& update.gear == i8_of_bits(s[6])
                &&& update.world_pos_x.bits == u32_of_le(s[7], s[8], s[9], s[10])
                &&& update.world_pos_y.bits == u32_of_le(s[11], s[12], s[13], s[14])
                &&& update.yaw.bits == u32_of_le(s[15], s[16], s[17], s[18])
                &&& CarLocation::of_code(s[19]) == Ok::<CarLocation, DecodeError>(
                    update.car_location,
                )
                &&& update.speed_kph == u16_of_le(s[20], s[21])
                &&& update.position == u16_of_le(s[22], s[23])
                &&& update.cup_position == u16_of_le(s[24], s[25])
                &&& update.track_position == u16_of_le(s[26], s[27])
                &&& update.spline_position.bits == u32_of_le(s[28], s[29], s[30], s[31])
                &&& update.laps == u16_of_le(s[32], s[33])
                &&& update.delta == i32_of_bits(u32_of_le(s[34], s[35], s[36], s[37]))
                &&& update.best_session_lap == value_of(best)
                &&& update.last_lap == value_of(last)
                &&& update.current_lap == value_of(current)
                &&& rest == rest_of(current)
            }
        }),
{
    reveal(spec_realtime_car_update);
    reveal(spec_tag);
    reveal(spec_le_float);
    reveal(spec_code8);
    if 1 <= s.len() {
        lemma_numbers_at(s, 1);
    }
    if 3 <= s.len() {
        lemma_numbers_at(s, 3);
    }
    if 5 <= s.len() {
        lemma_numbers_at(s, 5);
    }
    if 6 <= s.len() {
        lemma_numbers_at(s, 6);
    }
    if 7 <= s.len() {
        lemma_numbers_at(s, 7);
    }
    if 11 <= s.len() {
        lemma_numbers_at(s, 11);
    }
    if 15 <= s.len() {
        lemma_numbers_at(s, 15);
    }
    if 19 <= s.len() {
        lemma_numbers_at(s, 19);
    }
    if 20 <= s.len() {
        lemma_numbers_at(s, 20);
    }
    if 22 <= s.len() {
        lemma_numbers_at(s, 22);
    }
    if 24 <= s.len() {
        lemma_numbers_at(s, 24);
    }
    if 26 <= s.len() {
        lemma_numbers_at(s, 26);
    }
    if 28 <= s.len() {
        lemma_numbers_at(s, 28);
    }
    if 32 <= s.len() {
        lemma_numbers_at(s, 32);
    }
    if 34 <= s.len() {
        lemma_numbers_at(s, 34);
    }
}

/// Decodes the state of a car.
pub fn realtime_car_update<'a>(input: &'a [u8]) -> (r: Result<
    (&'a [u8], RealtimeCarUpdate),
    ParseError,
>)
    ensures
        yields(r, spec_realtime_car_update(input@)),
        bounded(input@, spec_realtime_car_update(input@)),
{
    reveal(spec_realtime_car_update);
    let (rest, _) = tag(input, 0x03)?;
    let (rest, id) = located(input, rest, le_u16(rest))?;
    let (rest, driver_index) = located(input, rest, le_u16(rest))?;
    let (rest, driver_count) = located(input, rest, le_u8(rest))?;
    let (rest, gear) = located(input, rest, le_i8(rest))?;
    let (rest, world_pos_x) = located(input, rest, le_float(rest))?;
    let (rest, world_pos_y) = located(input, rest, le_float(rest))?;
    let (rest, yaw) = located(input, rest, le_float(rest))?;
    let (rest, car_location) = located(input, rest, code8::<CarLocation>(rest))?;
    let (rest, speed_kph) = located(input, rest, le_u16(rest))?;
    let (rest, position) = located(input, rest, le_u16(rest))?;
    let (rest, cup_position) = located(input, rest, le_u16(rest))?;
    let (rest, track_position) = located(input, rest, le_u16(rest))?;
    let (rest, spline_position) = located(input, rest, le_float(rest))?;
    let (rest, laps) = located(input, rest, le_u16(rest))?;
    let (rest, delta) = located(input, rest, le_i32(rest))?;
    let (rest, best_session_lap) = located(input, rest, lap(rest))?;
    let (rest, last_lap) = located(input, rest, lap(rest))?;
    let (rest, current_lap) = located(input, rest, lap(rest))?;
    Ok(
        (
            rest,
            RealtimeCarUpdate {
                id,
                driver_index,
                driver_count,
                gear,
                world_pos_x,
                world_pos_y,
                yaw,
                car_location,
                speed_kph,
                position,
                cup_position,
                track_position,
                spline_position,
                laps,
                delta,
                best_session_lap,
                last_lap,
                current_lap,
            },
        ),
    )
}

/// A driver inside the entry of a car: three strings, the category and the
/// nationality.
#[verifier::opaque]
pub open spec fn spec_driver(s: Seq<u8>) -> Parsed<DriverView> {
    let first_name = spec_kstring(s);
    let last_name = after(s, first_name, spec_kstring(rest_of(first_name)));
    let short_name = after(s, last_name, spec_kstring(rest_of(last_name)));
    let category = after(s, short_name, spec_code8::<DriverCategory>(rest_of(short_name)));
    let nationality = after(s, category, spec_code16::<Nationality>(rest_of(category)));
    if first_name is Err {
        failed(first_name)
    } else if last_name is Err {
        failed(last_name)
    } else if short_name is Err {
        failed(short_name)
    } else if category is Err {
        failed(category)
    } else if nationality is Err {
        failed(nationality)
    } else {
        Ok(
            (
                rest_of(nationality),
                DriverView {
                    first_name: value_of(first_name),
                    last_name: value_of(last_name),
                    short_name: value_of(short_name),
                    category: value_of(category),
                    nationality: value_of(nationality),
                },
            ),
        )
    }
}

/// Decodes a driver.
pub fn driver<'a>(input: &'a [u8]) -> (r: Result<
    (&'a [u8], Driver<'a>),
    ParseError,
>)
    ensures
        yields(r, spec_driver(input@)),
        bounded(input@, spec_driver(input@)),
{
    reveal(spec_driver);
    let (rest, first_name) = kstring(input)?;
    let (rest, last_name) = located(input, rest, kstring(rest))?;
    let (rest, short_name) = located(input, rest, kstring(rest))?;
    let (rest, category) = located(input, rest, code8::<DriverCategory>(rest))?;
    let (rest, nationality) = located(input, rest, code16::<Nationality>(rest))?;
    Ok(
        (
            rest,
            Driver {
                first_name: Cow::Borrowed(first_name),
                last_name: Cow::Borrowed(last_name),
                short_name: Cow::Borrowed(short_name),
                category,
                nationality,
            },
        ),
    )
}
/// One car id of an entry list.
pub open spec fn car_id_field() -> spec_fn(Seq<u8>) -> Parsed<u16> {
    |s: Seq<u8>| spec_le_u16(s)
}

/// The notice of a new entry list: tag 4, the connection id, which is read
/// and dropped, a 16-bit count and as many car ids.
#[verifier::opaque]
pub open spec fn spec_entrylist_update(s: Seq<u8>) -> Parsed<Seq<u16>> {
    let tag = spec_tag(s, 0x04);
    let connection_id = after(s, tag, spec_le_u32(rest_of(tag)));
    let count = after(s, connection_id, spec_le_u16(rest_of(connection_id)));
    let car_ids = after(
        s,
        count,
        spec_repeat(car_id_field(), rest_of(count), value_of(count) as nat),
    );
    if tag is Err {
        failed(tag)
    } else if connection_id is Err {
        failed(connection_id)
    } else if count is Err {
        failed(count)
    } else if car_ids is Err {
        failed(car_ids)
    } else {
        Ok((rest_of(car_ids), value_of(car_ids)))
    }
}

/// Decodes `count` car ids.
fn car_ids<'a>(input: &'a [u8], count: u16) -> (r: Result<(&'a [u8], Vec<u16>), ParseError>)
    ensures
        yields(r, spec_repeat(car_id_field(), input@, count as nat)),
        bounded(input@, spec_repeat(car_id_field(), input@, count as nat)),
{
    let mut ids: Vec<u16> = Vec::new();
    let mut rest = input;
    assert(input@.skip(0) =~= input@);
    let mut i: u16 = 0;
    while i < count
        invariant
            i <= count,
            is_tail(input@, rest@),
            spec_repeat(car_id_field(), input@, count as nat) == joined(
                ids@,
                within(
                    input@,
                    rest@,
                    spec_repeat(car_id_field(), rest@, (count - i) as nat),
                ),
            ),
        decreases count - i,
    {
        let (next, id) = located(input, rest, le_u16(rest))?;
        proof {
            let tail = spec_repeat(car_id_field(), next@, (count - i - 1) as nat);
            assert(ids@ + (seq![id] + value_of(tail)) =~= ids@.push(id) + value_of(tail));
        }
        ids.push(id);
        rest = next;
        i += 1;
    }
    Ok((rest, ids))
}

/// Decodes the notice of a new entry list.
pub fn entrylist_update<'a>(input: &'a [u8]) -> (r: Result<
    (&'a [u8], EntrylistUpdate),
    ParseError,
>)
    ensures
        yields(r, spec_entrylist_update(input@)),
        bounded(input@, spec_entrylist_update(input@)),
{
    reveal(spec_entrylist_update);
    let (rest, _) = tag(input, 0x04)?;
    let (rest, _) = located(input, rest, le_u32(rest))?;
    let (rest, count) = located(input, rest, le_u16(rest))?;
    let (rest, car_ids) = located(input, rest, car_ids(rest, count))?;
    Ok((rest, EntrylistUpdate { car_ids }))
}

/// One driver of an entry.
pub open spec fn driver_field() -> spec_fn(Seq<u8>) -> Parsed<DriverView> {
    |s: Seq<u8>| spec_driver(s)
}

/// The entry of a car: tag 6, the fields of [`EntrylistCar`] in their
/// order, and before the drivers a byte that counts them.
#[verifier::opaque]
pub open spec fn spec_entrylist_car(s: Seq<u8>) -> Parsed<EntrylistCarView> {
    let tag = spec_tag(s, 0x06);
    let id = after(s, tag, spec_le_u16(rest_of(tag)));
    let model = after(s, id, spec_code8::<CarModel>(rest_of(id)));
    let team_name = after(s, model, spec_kstring(rest_of(model)));
    let race_number = after(s, team_name, spec_le_i32(rest_of(team_name)));
    let cup_category = after(s, race_number, spec_code8::<CupCategory>(rest_of(race_number)));
    let current_driver_index = after(s, cup_category, spec_le_u8(rest_of(cup_category)));
    let nationality = after(
        s,
        current_driver_index,
        spec_code16::<Nationality>(rest_of(current_driver_index)),
    );
    let count = after(s, nationality, spec_le_u8(rest_of(nationality)));
    let drivers = after(
        s,
        count,
        spec_repeat(driver_field(), rest_of(count), value_of(count) as nat),
    );
    if tag is Err {
        failed(tag)
    } else if id is Err {
        failed(id)
    } else if model is Err {
        failed(model)
    } else if team_name is Err {
        failed(team_name)
    } else if race_number is Err {
        failed(race_number)
    } else if cup_category is Err {
        failed(cup_category)
    } else if current_driver_index is Err {
        failed(current_driver_index)
    } else if nationality is Err {
        failed(nationality)
    } else if count is Err {
        failed(count)
    } else if drivers is Err {
        failed(drivers)
    } else {
        Ok(
            (
                rest_of(drivers),
                EntrylistCarView {
                    id: value_of(id),
                    model: value_of(model),
                    team_name: value_of(team_name),
                    race_number: value_of(race_number),
                    cup_category: value_of(cup_category),
                    current_driver_index: value_of(current_driver_index),
                    nationality: value_of(nationality),
                    drivers: value_of(drivers),
                },
            ),
        )
    }
}

/// Decodes `count` drivers.
fn drivers<'a>(input: &'a [u8], count: u8) -> (r: Result<(&'a [u8], Vec<Driver<'a>>), ParseError>)
    ensures
        match r {
            Ok((rest, list)) => spec_repeat(driver_field(), input@, count as nat) == Ok::<
                (Seq<u8>, Seq<DriverView>),
                Failure,
            >((rest@, drivers_view(list@))),
            Err(e) => spec_repeat(driver_field(), input@, count as nat) == Err::<
                (Seq<u8>, Seq<DriverView>),
                Failure,
            >(e@),
        },
        bounded(input@, spec_repeat(driver_field(), input@, count as nat)),
{
    let mut list: Vec<Driver<'a>> = Vec::new();
    let mut rest = input;
    assert(input@.skip(0) =~= input@);
    let mut i: u8 = 0;
    while i < count
        invariant
            i <= count,
            is_tail(input@, rest@),
            spec_repeat(driver_field(), input@, count as nat) == joined(
                drivers_view(list@),
                within(input@, rest@, spec_repeat(driver_field(), rest@, (count - i) as nat)),
            ),
        decreases count - i,
    {
        let (next, one) = located(input, rest, driver(rest))?;
        proof {
            let tail = spec_repeat(driver_field(), next@, (count - i - 1) as nat);
            let head = drivers_view(list@);
            assert(drivers_view(list@.push(one)) =~= head.push(one@));
            assert(head + (seq![one@] + value_of(tail)) =~= head.push(one@) + value_of(tail));
        }
        list.push(one);
        rest = next;
        i += 1;
    }
    Ok((rest, list))
}

/// Decodes the entry of a car.
pub fn entrylist_car<'a>(input: &'a [u8]) -> (r: Result<
    (&'a [u8], EntrylistCar<'a>),
    ParseError,
>)
    ensures
        yields(r, spec_entrylist_car(input@)),
        bounded(input@, spec_entrylist_car(input@)),
{
    reveal(spec_entrylist_car);
    let (rest, _) = tag(input, 0x06)?;
    let (rest, id) = located(input, rest, le_u16(rest))?;
    let (rest, model) = located(input, rest, code8::<CarModel>(rest))?;
    let (rest, team_name) = located(input, rest, kstring(rest))?;
    let (rest, race_number) = located(input, rest, le_i32(rest))?;
    let (rest, cup_category) = located(input, rest, code8::<CupCategory>(rest))?;
    let (rest, current_driver_index) = located(input, rest, le_u8(rest))?;
    let (rest, nationality) = located(input, rest, code16::<Nationality>(rest))?;
    let (rest, count) = located(input, rest, le_u8(rest))?;
    let (rest, drivers) = located(input, rest, drivers(rest, count))?;
    Ok(
        (
            rest,
            EntrylistCar {
                id,
                model,
                team_name: Cow::Borrowed(team_name),
                race_number,
                cup_category,
                current_driver_index,
                nationality,
                drivers,
            },
        ),
    )
}

/// One name of a list of names.
pub open spec fn name_field() -> spec_fn(Seq<u8>) -> Parsed<Seq<char>> {
    |s: Seq<u8>| spec_kstring(s)
}

/// Decodes `count` names.
fn names<'a>(input: &'a [u8], count: u8) -> (r: Result<(&'a [u8], Vec<Cow<'a, str>>), ParseError>)
    ensures
        match r {
            Ok((rest, list)) => spec_repeat(name_field(), input@, count as nat) == Ok::<
                (Seq<u8>, Seq<Seq<char>>),
                Failure,
            >((rest@, texts(list@))),
            Err(e) => spec_repeat(name_field(), input@, count as nat) == Err::<
                (Seq<u8>, Seq<Seq<char>>),
                Failure,
            >(e@),
        },
        bounded(input@, spec_repeat(name_field(), input@, count as nat)),
{
    let mut list: Vec<Cow<'a, str>> = Vec::new();
    let mut rest = input;
    assert(input@.skip(0) =~= input@);
    let mut i: u8 = 0;
    while i < count
        invariant
            i <= count,
            is_tail(input@, rest@),
            spec_repeat(name_field(), input@, count as nat) == joined(
                texts(list@),
                within(input@, rest@, spec_repeat(name_field(), rest@, (count - i) as nat)),
            ),
        decreases count - i,
    {
        let (next, one) = located(input, rest, kstring(rest))?;
        let one: Cow<'a, str> = Cow::Borrowed(one);
        proof {
            let tail = spec_repeat(name_field(), next@, (count - i - 1) as nat);
            let head = texts(list@);
            assert(texts(list@.push(one)) =~= head.push(one@));
            assert(head + (seq![one@] + value_of(tail)) =~= head.push(one@) + value_of(tail));
        }
        list.push(one);
        rest = next;
        i += 1;
    }
    Ok((rest, list))
}

/// A camera set: its name, a byte that counts its cameras, and their names.
#[verifier::opaque]
pub open spec fn spec_camera_set(s: Seq<u8>) -> Parsed<(Seq<char>, Seq<Seq<char>>)> {
    let name = spec_kstring(s);
    let count = after(s, name, spec_le_u8(rest_of(name)));
    let cameras = after(s, count, spec_repeat(name_field(), rest_of(count), value_of(count) as nat));
    if name is Err {
        failed(name)
    } else if count is Err {
        failed(count)
    } else if cameras is Err {
        failed(cameras)
    } else {
        Ok((rest_of(cameras), (value_of(name), value_of(cameras))))
    }
}

/// Decodes a camera set.
pub fn camera_set<'a>(input: &'a [u8]) -> (r: Result<
    (&'a [u8], (Cow<'a, str>, CameraSet<'a>)),
    ParseError,
>)
    ensures
        match r {
            Ok((rest, set)) => spec_camera_set(input@) == Ok::<
                (Seq<u8>, (Seq<char>, Seq<Seq<char>>)),
                Failure,
            >((rest@, (set.0@, texts(set.1@)))),
            Err(e) => spec_camera_set(input@) == Err::<
                (Seq<u8>, (Seq<char>, Seq<Seq<char>>)),
                Failure,
            >(e@),
        },
        bounded(input@, spec_camera_set(input@)),
{
    reveal(spec_camera_set);
    let (rest, name) = kstring(input)?;
    let (rest, count) = located(input, rest, le_u8(rest))?;
    let (rest, cameras) = located(input, rest, names(rest, count))?;
    Ok((rest, (Cow::Borrowed(name), cameras)))
}

/// One camera set of a track.
pub open spec fn camera_set_field() -> spec_fn(Seq<u8>) -> Parsed<(Seq<char>, Seq<Seq<char>>)> {
    |s: Seq<u8>| spec_camera_set(s)
}

/// Decodes `count` camera sets and enters each under its name.
fn camera_sets<'a>(input: &'a [u8], count: u8) -> (r: Result<
    (&'a [u8], CameraSets<'a>),
    ParseError,
>)
    ensures
        match r {
            Ok((rest, sets)) => {
                let p = spec_repeat(camera_set_field(), input@, count as nat);
                p is Ok && rest_of(p) == rest@ && sets@ == sets_map(value_of(p))
            },
            Err(e) => spec_repeat(camera_set_field(), input@, count as nat) == Err::<
                (Seq<u8>, Seq<(Seq<char>, Seq<Seq<char>>)>),
                Failure,
            >(e@),
        },
        bounded(input@, spec_repeat(camera_set_field(), input@, count as nat)),
{
    let mut sets = CameraSets::new();
    let ghost mut done: Seq<(Seq<char>, Seq<Seq<char>>)> = Seq::empty();
    let mut rest = input;
    assert(input@.skip(0) =~= input@);
    let mut i: u8 = 0;
    while i < count
        invariant
            i <= count,
            is_tail(input@, rest@),
            sets@ == sets_map(done),
            spec_repeat(camera_set_field(), input@, count as nat) == joined(
                done,
                within(
                    input@,
                    rest@,
                    spec_repeat(camera_set_field(), rest@, (count - i) as nat),
                ),
            ),
        decreases count - i,
    {
        let (next, one) = located(input, rest, camera_set(rest))?;
        proof {
            let tail = spec_repeat(camera_set_field(), next@, (count - i - 1) as nat);
            let entry = (one.0@, texts(one.1@));
            assert(done + (seq![entry] + value_of(tail)) =~= done.push(entry) + value_of(tail));
            assert(done.push(entry).drop_last() =~= done);
            done = done.push(entry);
        }
        sets.insert(one.0, one.1);
        rest = next;
        i += 1;
    }
    Ok((rest, sets))
}

/// What is known of the track: tag 5, four bytes that mean nothing here, the
/// name, the id, the length, the camera sets and the HUD pages. Each of the
/// two lists comes after a byte that counts it. Of two camera sets with one
/// name the later is kept.
#[verifier::opaque]
pub open spec fn spec_track_data(s: Seq<u8>) -> Parsed<TrackDataView> {
    let tag = spec_tag(s, 0x05);
    let unused = after(s, tag, spec_le_i32(rest_of(tag)));
    let name = after(s, unused, spec_kstring(rest_of(unused)));
    let id = after(s, name, spec_le_u32(rest_of(name)));
    let distance = after(s, id, spec_le_u32(rest_of(id)));
    let set_count = after(s, distance, spec_le_u8(rest_of(distance)));
    let camera_sets = after(
        s,
        set_count,
        spec_repeat(camera_set_field(), rest_of(set_count), value_of(set_count) as nat),
    );
    let page_count = after(s, camera_sets, spec_le_u8(rest_of(camera_sets)));
    let hud_pages = after(
        s,
        page_count,
        spec_repeat(name_field(), rest_of(page_count), value_of(page_count) as nat),
    );
    if tag is Err {
        failed(tag)
    } else if unused is Err {
        failed(unused)
    } else if name is Err {
        failed(name)
    } else if id is Err {
        failed(id)
    } else if distance is Err {
        failed(distance)
    } else if set_count is Err {
        failed(set_count)
    } else if camera_sets is Err {
        failed(camera_sets)
    } else if page_count is Err {
        failed(page_count)
    } else if hud_pages is Err {
        failed(hud_pages)
    } else {
        Ok(
            (
                rest_of(hud_pages),
                TrackDataView {
                    name: value_of(name),
                    id: value_of(id),
                    distance: value_of(distance),
                    camera_sets: sets_map(value_of(camera_sets)),
                    hud_pages: value_of(hud_pages),
                },
            ),
        )
    }
}

/// Decodes what is known of the track.
pub fn track_data<'a>(input: &'a [u8]) -> (r: Result<(&'a [u8], TrackData<'a>), ParseError>)
    ensures
        yields(r, spec_track_data(input@)),
        bounded(input@, spec_track_data(input@)),
{
    reveal(spec_track_data);
    let (rest, _) = tag(input, 0x05)?;
    let (rest, _) = located(input, rest, le_i32(rest))?;
    let (rest, name) = located(input, rest, kstring(rest))?;
    let (rest, id) = located(input, rest, le_u32(rest))?;
    let (rest, distance) = located(input, rest, le_u32(rest))?;
    let (rest, set_count) = located(input, rest, le_u8(rest))?;
    let (rest, camera_sets) = located(input, rest, camera_sets(rest, set_count))?;
    let (rest, page_count) = located(input, rest, le_u8(rest))?;
    let (rest, hud_pages) = located(input, rest, names(rest, page_count))?;
    Ok((rest, TrackData { name: Cow::Borrowed(name), id, distance, camera_sets, hud_pages }))
}

/// The low 16 bits of a 32-bit number.
pub open spec fn low_16_bits(value: u32) -> u16 {
    (value % 0x1_0000) as u16
}

/// An event: tag 7, its kind, a message, the time and the car. The car id
/// takes four bytes here and two everywhere else: its low 16 bits are kept.
#[verifier::opaque]
pub open spec fn spec_broadcasting_event(s: Seq<u8>) -> Parsed<BroadcastingEventView> {
    let tag = spec_tag(s, 0x07);
    let event_type = after(s, tag, spec_code8::<BroadcastingEventType>(rest_of(tag)));
    let message = after(s, event_type, spec_kstring(rest_of(event_type)));
    let time_ms = after(s, message, spec_le_i32(rest_of(message)));
    let car_id = after(s, time_ms, spec_le_u32(rest_of(time_ms)));
    if tag is Err {
        failed(tag)
    } else if event_type is Err {
        failed(event_type)
    } else if message is Err {
        failed(message)
    } else if time_ms is Err {
        failed(time_ms)
    } else if car_id is Err {
        failed(car_id)
    } else {
        Ok(
            (
                rest_of(car_id),
                BroadcastingEventView {
                    event_type: value_of(event_type),
                    message: value_of(message),
                    time_ms: value_of(time_ms),
                    car_id: low_16_bits(value_of(car_id)),
                },
            ),
        )
    }
}

/// Decodes an event.
pub fn broadcasting_event<'a>(input: &'a [u8]) -> (r: Result<
    (&'a [u8], BroadcastingEvent<'a>),
    ParseError,
>)
    ensures
        yields(r, spec_broadcasting_event(input@)),
        bounded(input@, spec_broadcasting_event(input@)),
{
    reveal(spec_broadcasting_event);
    let (rest, _) = tag(input, 0x07)?;
    let (rest, event_type) = located(input, rest, code8::<BroadcastingEventType>(rest))?;
    let (rest, message) = located(input, rest, kstring(rest))?;
    let (rest, time_ms) = located(input, rest, le_i32(rest))?;
    let (rest, car_id) = located(input, rest, le_u32(rest))?;
    Ok(
        (
            rest,
            BroadcastingEvent {
                event_type,
                message: Cow::Borrowed(message),
                time_ms,
                car_id: (car_id % 0x1_0000) as u16,
            },
        ),
    )
}

/// A message: the leading byte says which, and the record of that kind must
/// follow. A byte that is the tag of no message fails at once, and so does a
/// datagram without a byte.
pub open spec fn spec_incoming_message(s: Seq<u8>) -> Parsed<InboundMessageView> {
    if s.len() == 0 {
        fail(0, ParseErrorKind::TagMismatch)
    } else if s[0] == 0x01 {
        match spec_registration_result(s) {
            Ok((rest, m)) => Ok((rest, InboundMessageView::RegistrationResult(m))),
            Err(f) => Err(f),
        }
    } else if s[0] == 0x02 {
        match spec_realtime_update(s) {
            Ok((rest, m)) => Ok((rest, InboundMessageView::RealtimeUpdate(m))),
            Err(f) => Err(f),
        }
    } else if s[0] == 0x03 {
        match spec_realtime_car_update(s) {
            Ok((rest, m)) => Ok((rest, InboundMessageView::RealtimeCarUpdate(m))),
            Err(f) => Err(f),
        }
    } else if s[0] == 0x04 {
        match spec_entrylist_update(s) {
            Ok((rest, m)) => Ok((rest, InboundMessageView::EntrylistUpdate(m))),
            Err(f) => Err(f),
        }
    } else if s[0] == 0x05 {
        match spec_track_data(s) {
            Ok((rest, m)) => Ok((rest, InboundMessageView::TrackData(m))),
            Err(f) => Err(f),
        }
    } else if s[0] == 0x06 {
        match spec_entrylist_car(s) {
            Ok((rest, m)) => Ok((rest, InboundMessageView::EntrylistCar(m))),
            Err(f) => Err(f),
        }
    } else if s[0] == 0x07 {
        match spec_broadcasting_event(s) {
            Ok((rest, m)) => Ok((rest, InboundMessageView::BroadcastingEvent(m))),
            Err(f) => Err(f),
        }
    } else {
        fail(0, ParseErrorKind::TagMismatch)
    }
}

/// A datagram: one message and nothing after it. Bytes that are left over
/// fail where they start.
pub open spec fn spec_decode(s: Seq<u8>) -> Result<InboundMessageView, Failure> {
    match spec_incoming_message(s) {
        Err(f) => Err(f),
        Ok((rest, message)) => if rest.len() == 0 {
            Ok(message)
        } else {
            Err(Failure { offset: s.len() - rest.len(), kind: ParseErrorKind::TrailingBytes })
        },
    }
}

/// The leading byte decides. A datagram that decodes has become the
/// message that its first byte is the tag of, and a datagram whose first
/// byte is the tag of no inbound message, or which has no byte, fails at its
/// start.
pub proof fn lemma_decode_follows_tag(s: Seq<u8>)
    ensures
        spec_decode(s) matches Ok(message) ==> s.len() >= 1 && message.tag() == s[0],
        s.len() == 0 || s[0] < 0x01 || s[0] > 0x07 ==> spec_decode(s) == Err::<
            InboundMessageView,
            Failure,
        >(Failure { offset: 0, kind: ParseErrorKind::TagMismatch }),
{
}

/// Decodes the message at the start of `input` and hands back what follows
/// it.
pub fn incoming_message<'a>(input: &'a [u8]) -> (r: Result<
    (&'a [u8], InboundMessage<'a>),
    ParseError,
>)
    ensures
        yields(r, spec_incoming_message(input@)),
        bounded(input@, spec_incoming_message(input@)),
{
    if input.len() == 0 {
        return Err(ParseError { offset: 0, kind: ParseErrorKind::TagMismatch });
    }
    let leading: u8 = input[0];
    if leading == 0x01 {
        let (rest, message) = registration_result(input)?;
        Ok((rest, InboundMessage::RegistrationResult(message)))
    } else if leading == 0x02 {
        let (rest, message) = realtime_update(input)?;
        Ok((rest, InboundMessage::RealtimeUpdate(message)))
    } else if leading == 0x03 {
        let (rest, message) = realtime_car_update(input)?;
        Ok((rest, InboundMessage::RealtimeCarUpdate(message)))
    } else if leading == 0x04 {
        let (rest, message) = entrylist_update(input)?;
        Ok((rest, InboundMessage::EntrylistUpdate(message)))
    } else if leading == 0x05 {
        let (rest, message) = track_data(input)?;
        Ok((rest, InboundMessage::TrackData(message)))
    } else if leading == 0x06 {
        let (rest, message) = entrylist_car(input)?;
        Ok((rest, InboundMessage::EntrylistCar(message)))
    } else if leading == 0x07 {
        let (rest, message) = broadcasting_event(input)?;
        Ok((rest, InboundMessage::BroadcastingEvent(message)))
    } else {
        Err(ParseError { offset: 0, kind: ParseErrorKind::TagMismatch })
    }
}

/// Decodes a datagram, which must be one message and nothing more.
pub fn parse<'a>(input: &'a [u8]) -> (r: Result<InboundMessage<'a>, ParseError>)
    ensures
        match r {
            Ok(message) => spec_decode(input@) == Ok::<InboundMessageView, Failure>(message@),
            Err(e) => spec_decode(input@) == Err::<InboundMessageView, Failure>(e@),
        },
{
    let (rest, message) = incoming_message(input)?;
    if rest.len() == 0 {
        Ok(message)
    } else {
        Err(ParseError { offset: input.len() - rest.len(), kind: ParseErrorKind::TrailingBytes })
    }
}

} // verus!
