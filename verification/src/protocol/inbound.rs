//! The messages that the simulator sends, and what each of them means.
//!
//! A decoded message borrows its strings from the datagram it was read
//! from. `into_owned` turns it into a copy that holds its strings itself and
//! so may outlive the buffer. Every type has a view, its mathematical value:
//! strings become sequences of characters, lists become sequences, and the
//! sector times of a lap become a sequence of numbers.
//!
//! Identifiers come as 8, 16 or 32 bits wide with no visible reason; the
//! types keep the widths of the wire.

use crate::protocol::acc_enum::BroadcastingEventType;
use crate::protocol::acc_enum::CarLocation;
use crate::protocol::acc_enum::CarModel;
use crate::protocol::acc_enum::CupCategory;
use crate::protocol::acc_enum::DriverCategory;
use crate::protocol::acc_enum::Nationality;
use crate::protocol::acc_enum::SessionPhase;
use crate::protocol::acc_enum::SessionType;
use crate::protocol::cameras::CameraSets;
use crate::protocol::parser::incoming_message;
use crate::protocol::parser::spec_incoming_message;
use crate::protocol::parser::spec_decode;
use crate::protocol::wire::bounded;
use crate::protocol::wire::yields;
use crate::protocol::wire::Failure;
use crate::protocol::wire::ParseError;
use crate::protocol::cameras::HudPages;
use crate::protocol::splits::split_times;
use crate::protocol::text::all_owned;
use crate::protocol::text::owned_texts;
use crate::protocol::text::texts;
use crate::protocol::text::owned_text;
use std::borrow::Cow;
use tinyvec::ArrayVec;
use vstd::prelude::*;

verus! {

/// A 32-bit floating-point number as it travels: its IEEE 754 bit pattern.
#[derive(Debug, Clone, Copy, PartialEq, Eq)]
pub struct WireFloat {
    pub bits: u32,
}

impl View for WireFloat {
    type V = WireFloat;

    open spec fn view(&self) -> WireFloat {
        *self
    }
}

/// The answer to a registration request.
#[derive(Debug, Clone, PartialEq)]
pub struct RegistrationResult<'a> {
    /// The id of this connection, which an unregister request names.
    pub connection_id: u32,
    pub connection_success: bool,
    pub read_only: bool,
    pub error_message: Cow<'a, str>,
}

/// The mathematical value of a [`RegistrationResult`].
pub struct RegistrationResultView {
    pub connection_id: u32,
    pub connection_success: bool,
    pub read_only: bool,
    pub error_message: Seq<char>,
}

impl<'a> View for RegistrationResult<'a> {
    type V = RegistrationResultView;

    open spec fn view(&self) -> RegistrationResultView {
        RegistrationResultView {
            connection_id: self.connection_id,
            connection_success: self.connection_success,
            read_only: self.read_only,
            error_message: self.error_message@,
        }
    }
}

impl<'a> RegistrationResult<'a> {
    /// No string of the value is borrowed.
    pub open spec fn is_owned(&self) -> bool {
        self.error_message is Owned
    }

    /// The same answer, holding its string itself.
    pub fn into_owned(self) -> (copy: RegistrationResult<'static>)
        ensures
            copy@ == self@,
            copy.is_owned(),
    {
        RegistrationResult {
            connection_id: self.connection_id,
            connection_success: self.connection_success,
            read_only: self.read_only,
            error_message: owned_text(&self.error_message),
        }
    }
}

/// The timing of a lap, finished or under way.
#[derive(Debug, Clone, Copy)]
pub struct Lap {
    pub lap_time_ms: i32,
    pub car_id: u16,
    /// Which of the car's drivers set the lap.
    pub driver_index: u16,
    /// Sector times in milliseconds, at most three. A lap under way has none.
    pub splits: ArrayVec<[i32; 3]>,
    pub is_invalid: bool,
    pub is_valid_for_best: bool,
    pub is_out_lap: bool,
    pub is_in_lap: bool,
}

/// The mathematical value of a [`Lap`].
pub struct LapView {
    pub lap_time_ms: i32,
    pub car_id: u16,
    pub driver_index: u16,
    pub splits: Seq<i32>,
    pub is_invalid: bool,
    pub is_valid_for_best: bool,
    pub is_out_lap: bool,
    pub is_in_lap: bool,
}

impl View for Lap {
    type V = LapView;

    open spec fn view(&self) -> LapView {
        LapView {
            lap_time_ms: self.lap_time_ms,
            car_id: self.car_id,
            driver_index: self.driver_index,
            splits: split_times(self.splits),
            is_invalid: self.is_invalid,
            is_valid_for_best: self.is_valid_for_best,
            is_out_lap: self.is_out_lap,
            is_in_lap: self.is_in_lap,
        }
    }
}

/// Where a replay stands.
#[derive(Debug, Clone, Copy, PartialEq, Eq)]
pub struct ReplayInfo {
    pub session_time: WireFloat,
    pub remaining_time: WireFloat,
    pub focused_car_index: u32,
}

/// The state of the session as a whole. One is sent about once per update
/// interval, and each is complete in itself.
#[derive(Debug, Clone)]
pub struct RealtimeUpdate<'a> {
    /// Starts at 0 on connecting and grows with each new race weekend.
    pub event_index: u16,
    /// Starts at 0 on connecting, even where the event has had sessions before.
    pub session_index: u16,
    pub session_type: SessionType,
    pub session_phase: SessionPhase,
    /// Milliseconds since the green flag.
    pub session_time: WireFloat,
    /// Milliseconds until the session ends.
    pub session_end_time: WireFloat,
    /// Index into the entry list of the car that the simulator shows.
    pub focused_car_index: u32,
    pub active_camera_set: Cow<'a, str>,
    pub active_camera: Cow<'a, str>,
    pub current_hud_page: Cow<'a, str>,
    /// `None` unless the session is a replay.
    pub replay_info: Option<ReplayInfo>,
    pub time_of_day: WireFloat,
    pub ambient_temp: i8,
    pub track_temp: i8,
    pub clouds: u8,
    pub rain_level: u8,
    pub wetness: u8,
    pub best_session_lap: Lap,
}

/// The mathematical value of a [`RealtimeUpdate`].
pub struct RealtimeUpdateView {
    pub event_index: u16,
    pub session_index: u16,
    pub session_type: SessionType,
    pub session_phase: SessionPhase,
    pub session_time: WireFloat,
    pub session_end_time: WireFloat,
    pub focused_car_index: u32,
    pub active_camera_set: Seq<char>,
    pub active_camera: Seq<char>,
    pub current_hud_page: Seq<char>,
    pub replay_info: Option<ReplayInfo>,
    pub time_of_day: WireFloat,
    pub ambient_temp: i8,
    pub track_temp: i8,
    pub clouds: u8,
    pub rain_level: u8,
    pub wetness: u8,
    pub best_session_lap: LapView,
}

impl<'a> View for RealtimeUpdate<'a> {
    type V = RealtimeUpdateView;

    open spec fn view(&self) -> RealtimeUpdateView {
        RealtimeUpdateView {
            event_index: self.event_index,
            session_index: self.session_index,
            session_type: self.session_type,
            session_phase: self.session_phase,
            session_time: self.session_time,
            session_end_time: self.session_end_time,
            focused_car_index: self.focused_car_index,
            active_camera_set: self.active_camera_set@,
            active_camera: self.active_camera@,
            current_hud_page: self.current_hud_page@,
            replay_info: self.replay_info,
            time_of_day: self.time_of_day,
            ambient_temp: self.ambient_temp,
            track_temp: self.track_temp,
            clouds: self.clouds,
            rain_level: self.rain_level,
            wetness: self.wetness,
            best_session_lap: self.best_session_lap@,
        }
    }
}

impl<'a> RealtimeUpdate<'a> {
    /// No string of the value is borrowed.
    pub open spec fn is_owned(&self) -> bool {
        &&& self.active_camera_set is Owned
        &&& self.active_camera is Owned
        &&& self.current_hud_page is Owned
    }

    /// The same update, holding its strings itself.
    pub fn into_owned(self) -> (copy: RealtimeUpdate<'static>)
        ensures
            copy@ == self@,
            copy.is_owned(),
    {
        RealtimeUpdate {
            event_index: self.event_index,
            session_index: self.session_index,
            session_type: self.session_type,
            session_phase: self.session_phase,
            session_time: self.session_time,
            session_end_time: self.session_end_time,
            focused_car_index: self.focused_car_index,
            active_camera_set: owned_text(&self.active_camera_set),
            active_camera: owned_text(&self.active_camera),
            current_hud_page: owned_text(&self.current_hud_page),
            replay_info: self.replay_info,
            time_of_day: self.time_of_day,
            ambient_temp: self.ambient_temp,
            track_temp: self.track_temp,
            clouds: self.clouds,
            rain_level: self.rain_level,
            wetness: self.wetness,
            best_session_lap: self.best_session_lap,
        }
    }
}

/// The state of one car. One is sent per car about once per update
/// interval, and each is complete in itself.
#[derive(Debug, Clone)]
pub struct RealtimeCarUpdate {
    /// The car's id.
    pub id: u16,
    /// Index of the driver at the wheel within the car's entry.
    pub driver_index: u16,
    /// How many drivers the car's entry has.
    pub driver_count: u8,
    /// The gear: 0 is neutral, -1 reverse.
    pub gear: i8,
    /// Often sent as zero.
    pub world_pos_x: WireFloat,
    /// Often sent as zero.
    pub world_pos_y: WireFloat,
    pub yaw: WireFloat,
    /// Whether the car is on track, in the pit lane, or entering or leaving it.
    pub car_location: CarLocation,
    pub speed_kph: u16,
    /// Place in the session.
    pub position: u16,
    /// Place within the car's class.
    pub cup_position: u16,
    /// Place on the road, for showing who is near whom.
    pub track_position: u16,
    /// How far round the lap the car is, as a fraction.
    pub spline_position: WireFloat,
    /// Laps completed.
    pub laps: u16,
    /// What the lap under way gains or loses.
    pub delta: i32,
    /// The driver's best lap. May be all zeros.
    pub best_session_lap: Lap,
    /// The driver's previous lap. May be all zeros.
    pub last_lap: Lap,
    /// The lap under way. It carries no sector times.
    pub current_lap: Lap,
}

/// The mathematical value of a [`RealtimeCarUpdate`].
pub struct RealtimeCarUpdateView {
    pub id: u16,
    pub driver_index: u16,
    pub driver_count: u8,
    pub gear: i8,
    pub world_pos_x: WireFloat,
    pub world_pos_y: WireFloat,
    pub yaw: WireFloat,
    pub car_location: CarLocation,
    pub speed_kph: u16,
    pub position: u16,
    pub cup_position: u16,
    pub track_position: u16,
    pub spline_position: WireFloat,
    pub laps: u16,
    pub delta: i32,
    pub best_session_lap: LapView,
    pub last_lap: LapView,
    pub current_lap: LapView,
}

impl View for RealtimeCarUpdate {
    type V = RealtimeCarUpdateView;

    open spec fn view(&self) -> RealtimeCarUpdateView {
        RealtimeCarUpdateView {
            id: self.id,
            driver_index: self.driver_index,
            driver_count: self.driver_count,
            gear: self.gear,
            world_pos_x: self.world_pos_x,
            world_pos_y: self.world_pos_y,
            yaw: self.yaw,
            car_location: self.car_location,
            speed_kph: self.speed_kph,
            position: self.position,
            cup_position: self.cup_position,
            track_position: self.track_position,
            spline_position: self.spline_position,
            laps: self.laps,
            delta: self.delta,
            best_session_lap: self.best_session_lap@,
            last_lap: self.last_lap@,
            current_lap: self.current_lap@,
        }
    }
}

/// The notice that the entry list has changed: the ids of the cars that are
/// now entered. It comes ahead of one [`EntrylistCar`] per car.
#[derive(Debug, Clone)]
pub struct EntrylistUpdate {
    pub car_ids: Vec<u16>,
}

impl View for EntrylistUpdate {
    type V = Seq<u16>;

    open spec fn view(&self) -> Seq<u16> {
        self.car_ids@
    }
}

/// A driver as the entry list names him.
#[derive(Debug, Clone)]
pub struct Driver<'a> {
    pub first_name: Cow<'a, str>,
    pub last_name: Cow<'a, str>,
    pub short_name: Cow<'a, str>,
    pub category: DriverCategory,
    pub nationality: Nationality,
}

/// The mathematical value of a [`Driver`].
pub struct DriverView {
    pub first_name: Seq<char>,
    pub last_name: Seq<char>,
    pub short_name: Seq<char>,
    pub category: DriverCategory,
    pub nationality: Nationality,
}

impl<'a> View for Driver<'a> {
    type V = DriverView;

    open spec fn view(&self) -> DriverView {
        DriverView {
            first_name: self.first_name@,
            last_name: self.last_name@,
            short_name: self.short_name@,
            category: self.category,
            nationality: self.nationality,
        }
    }
}

impl<'a> Driver<'a> {
    /// No string of the value is borrowed.
    pub open spec fn is_owned(&self) -> bool {
        &&& self.first_name is Owned
        &&& self.last_name is Owned
        &&& self.short_name is Owned
    }

    /// A copy that holds its strings itself.
    fn owned_copy(&self) -> (copy: Driver<'static>)
        ensures
            copy@ == self@,
            copy.is_owned(),
    {
        Driver {
            first_name: owned_text(&self.first_name),
            last_name: owned_text(&self.last_name),
            short_name: owned_text(&self.short_name),
            category: self.category,
            nationality: self.nationality,
        }
    }

    /// The same driver, holding his strings himself.
    pub fn into_owned(self) -> (copy: Driver<'static>)
        ensures
            copy@ == self@,
            copy.is_owned(),
    {
        self.owned_copy()
    }
}

/// The mathematical values of a list of drivers.
pub open spec fn drivers_view<'a>(drivers: Seq<Driver<'a>>) -> Seq<DriverView> {
    Seq::new(drivers.len(), |i: int| drivers[i]@)
}

/// The entry of one car. `nationality` and `cup_category` seem to follow the
/// driver at the wheel.
#[derive(Debug, Clone)]
pub struct EntrylistCar<'a> {
    pub id: u16,
    pub model: CarModel,
    pub team_name: Cow<'a, str>,
    pub race_number: i32,
    pub cup_category: CupCategory,
    pub current_driver_index: u8,
    pub nationality: Nationality,
    pub drivers: Vec<Driver<'a>>,
}

/// The mathematical value of an [`EntrylistCar`].
pub struct EntrylistCarView {
    pub id: u16,
    pub model: CarModel,
    pub team_name: Seq<char>,
    pub race_number: i32,
    pub cup_category: CupCategory,
    pub current_driver_index: u8,
    pub nationality: Nationality,
    pub drivers: Seq<DriverView>,
}

impl<'a> View for EntrylistCar<'a> {
    type V = EntrylistCarView;

    open spec fn view(&self) -> EntrylistCarView {
        EntrylistCarView {
            id: self.id,
            model: self.model,
            team_name: self.team_name@,
            race_number: self.race_number,
            cup_category: self.cup_category,
            current_driver_index: self.current_driver_index,
            nationality: self.nationality,
            drivers: drivers_view(self.drivers@),
        }
    }
}

impl<'a> EntrylistCar<'a> {
    /// No string of the value is borrowed.
    pub open spec fn is_owned(&self) -> bool {
        &&& self.team_name is Owned
        &&& forall|i: int| 0 <= i < self.drivers@.len() ==> (#[trigger] self.drivers@[i]).is_owned()
    }

    /// The same entry, holding its strings itself.
    pub fn into_owned(self) -> (copy: EntrylistCar<'static>)
        ensures
            copy@ == self@,
            copy.is_owned(),
    {
        let mut drivers: Vec<Driver<'static>> = Vec::new();
        let mut i: usize = 0;
        while i < self.drivers.len()
            invariant
                i <= self.drivers.len(),
                drivers.len() == i,
                forall|j: int| 0 <= j < i ==> (#[trigger] drivers@[j])@ == self.drivers@[j]@,
                forall|j: int| 0 <= j < i ==> (#[trigger] drivers@[j]).is_owned(),
            decreases self.drivers.len() - i,
        {
            drivers.push(self.drivers[i].owned_copy());
            i += 1;
        }
        assert(drivers_view(drivers@) =~= drivers_view(self.drivers@));
        EntrylistCar {
            id: self.id,
            model: self.model,
            team_name: owned_text(&self.team_name),
            race_number: self.race_number,
            cup_category: self.cup_category,
            current_driver_index: self.current_driver_index,
            nationality: self.nationality,
            drivers,
        }
    }
}

/// What is known of the track. `name` is meant for people, not one of the
/// short names of the configuration files; which id stands for which track
/// is listed nowhere.
#[derive(Debug, Clone)]
pub struct TrackData<'a> {
    pub name: Cow<'a, str>,
    pub id: u32,
    /// The length of a lap in metres.
    pub distance: u32,
    pub camera_sets: CameraSets<'a>,
    pub hud_pages: HudPages<'a>,
}

/// The mathematical value of a [`TrackData`].
pub struct TrackDataView {
    pub name: Seq<char>,
    pub id: u32,
    pub distance: u32,
    pub camera_sets: Map<Seq<char>, Seq<Seq<char>>>,
    pub hud_pages: Seq<Seq<char>>,
}

impl<'a> View for TrackData<'a> {
    type V = TrackDataView;

    open spec fn view(&self) -> TrackDataView {
        TrackDataView {
            name: self.name@,
            id: self.id,
            distance: self.distance,
            camera_sets: self.camera_sets@,
            hud_pages: texts(self.hud_pages@),
        }
    }
}

impl<'a> TrackData<'a> {
    /// No string of the value is borrowed.
    pub open spec fn is_owned(&self) -> bool {
        &&& self.name is Owned
        &&& self.camera_sets.is_owned()
        &&& all_owned(self.hud_pages@)
    }

    /// The same track, holding its strings itself.
    pub fn into_owned(self) -> (copy: TrackData<'static>)
        ensures
            copy@ == self@,
            copy.is_owned(),
    {
        let hud_pages = owned_texts(&self.hud_pages);
        TrackData {
            name: owned_text(&self.name),
            id: self.id,
            distance: self.distance,
            camera_sets: self.camera_sets.into_owned(),
            hud_pages,
        }
    }
}

/// Something that happened in the session.
#[derive(Debug, Clone)]
pub struct BroadcastingEvent<'a> {
    pub event_type: BroadcastingEventType,
    pub message: Cow<'a, str>,
    pub time_ms: i32,
    /// The car concerned, or zero where the event concerns the session.
    pub car_id: u16,
}

/// The mathematical value of a [`BroadcastingEvent`].
pub struct BroadcastingEventView {
    pub event_type: BroadcastingEventType,
    pub message: Seq<char>,
    pub time_ms: i32,
    pub car_id: u16,
}

impl<'a> View for BroadcastingEvent<'a> {
    type V = BroadcastingEventView;

    open spec fn view(&self) -> BroadcastingEventView {
        BroadcastingEventView {
            event_type: self.event_type,
            message: self.message@,
            time_ms: self.time_ms,
            car_id: self.car_id,
        }
    }
}

impl<'a> BroadcastingEvent<'a> {
    /// No string of the value is borrowed.
    pub open spec fn is_owned(&self) -> bool {
        self.message is Owned
    }

    /// The same event, holding its string itself.
    pub fn into_owned(self) -> (copy: BroadcastingEvent<'static>)
        ensures
            copy@ == self@,
            copy.is_owned(),
    {
        BroadcastingEvent {
            event_type: self.event_type,
            message: owned_text(&self.message),
            time_ms: self.time_ms,
            car_id: self.car_id,
        }
    }
}

/// A message of the simulator, one variant for each tag.
#[derive(Debug, Clone)]
pub enum InboundMessage<'a> {
    RegistrationResult(RegistrationResult<'a>),
    RealtimeUpdate(RealtimeUpdate<'a>),
    RealtimeCarUpdate(RealtimeCarUpdate),
    EntrylistUpdate(EntrylistUpdate),
    EntrylistCar(EntrylistCar<'a>),
    TrackData(TrackData<'a>),
    BroadcastingEvent(BroadcastingEvent<'a>),
}

/// Another name for [`InboundMessage`].
pub type IncomingMessage<'a> = InboundMessage<'a>;

/// The mathematical value of an [`InboundMessage`].
pub enum InboundMessageView {
    RegistrationResult(RegistrationResultView),
    RealtimeUpdate(RealtimeUpdateView),
    RealtimeCarUpdate(RealtimeCarUpdateView),
    EntrylistUpdate(Seq<u16>),
    EntrylistCar(EntrylistCarView),
    TrackData(TrackDataView),
    BroadcastingEvent(BroadcastingEventView),
}

impl InboundMessageView {
    /// The tag byte under which a message of this variant travels.
    pub open spec fn tag(self) -> u8 {
        match self {
            InboundMessageView::RegistrationResult(_) => 0x01,
            InboundMessageView::RealtimeUpdate(_) => 0x02,
            InboundMessageView::RealtimeCarUpdate(_) => 0x03,
            InboundMessageView::EntrylistUpdate(_) => 0x04,
            InboundMessageView::TrackData(_) => 0x05,
            InboundMessageView::EntrylistCar(_) => 0x06,
            InboundMessageView::BroadcastingEvent(_) => 0x07,
        }
    }
}

impl<'a> View for InboundMessage<'a> {
    type V = InboundMessageView;

    open spec fn view(&self) -> InboundMessageView {
        match self {
            InboundMessage::RegistrationResult(m) => InboundMessageView::RegistrationResult(m@),
            InboundMessage::RealtimeUpdate(m) => InboundMessageView::RealtimeUpdate(m@),
            InboundMessage::RealtimeCarUpdate(m) => InboundMessageView::RealtimeCarUpdate(m@),
            InboundMessage::EntrylistUpdate(m) => InboundMessageView::EntrylistUpdate(m@),
            InboundMessage::EntrylistCar(m) => InboundMessageView::EntrylistCar(m@),
            InboundMessage::TrackData(m) => InboundMessageView::TrackData(m@),
            InboundMessage::BroadcastingEvent(m) => InboundMessageView::BroadcastingEvent(m@),
        }
    }
}

impl<'a> InboundMessage<'a> {
    /// No string of the message is borrowed.
    pub open spec fn is_owned(&self) -> bool {
        match self {
            InboundMessage::RegistrationResult(m) => m.is_owned(),
            InboundMessage::RealtimeUpdate(m) => m.is_owned(),
            InboundMessage::RealtimeCarUpdate(_) => true,
            InboundMessage::EntrylistUpdate(_) => true,
            InboundMessage::EntrylistCar(m) => m.is_owned(),
            InboundMessage::TrackData(m) => m.is_owned(),
            InboundMessage::BroadcastingEvent(m) => m.is_owned(),
        }
    }

    /// Decodes the message at the start of `input` and hands back the bytes
    /// that follow it.
    pub fn parse(input: &'a [u8]) -> (r: Result<(&'a [u8], InboundMessage<'a>), ParseError>)
        ensures
            yields(r, spec_incoming_message(input@)),
            bounded(input@, spec_incoming_message(input@)),
    {
        incoming_message(input)
    }

    /// Decodes a datagram, which must be one message and nothing more.
    pub fn decode(input: &'a [u8]) -> (r: Result<InboundMessage<'a>, ParseError>)
        ensures
            match r {
                Ok(message) => spec_decode(input@) == Ok::<InboundMessageView, Failure>(message@),
                Err(e) => spec_decode(input@) == Err::<InboundMessageView, Failure>(e@),
            },
    {
        crate::protocol::parser::parse(input)
    }

    /// The same message, holding its strings itself.
    pub fn into_owned(self) -> (copy: InboundMessage<'static>)
        ensures
            copy@ == self@,
            copy.is_owned(),
    {
        match self {
            InboundMessage::RegistrationResult(result) => InboundMessage::RegistrationResult(
                result.into_owned(),
            ),
            InboundMessage::RealtimeUpdate(update) => InboundMessage::RealtimeUpdate(
                update.into_owned(),
            ),
            InboundMessage::RealtimeCarUpdate(update) => InboundMessage::RealtimeCarUpdate(update),
            InboundMessage::EntrylistUpdate(update) => InboundMessage::EntrylistUpdate(update),
            InboundMessage::EntrylistCar(car) => InboundMessage::EntrylistCar(car.into_owned()),
            InboundMessage::TrackData(data) => InboundMessage::TrackData(data.into_owned()),
            InboundMessage::BroadcastingEvent(event) => InboundMessage::BroadcastingEvent(
                event.into_owned(),
            ),
        }
    }
}

} // verus!
