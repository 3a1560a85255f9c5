//! The state of a session, folded from the messages in the order of their
//! arrival: the track, and for each car its entry, its latest state and the
//! laps it has completed.
//!
//! The cars are kept in a hash map with `fnv`'s hasher. The verifier does not
//! know that hasher; what the calls on the map do is stated in this module and
//! not proved.

use crate::protocol::inbound::Driver;
use crate::protocol::inbound::EntrylistCar;
use crate::protocol::inbound::EntrylistCarView;
use crate::protocol::inbound::EntrylistUpdate;
use crate::protocol::inbound::InboundMessage;
use crate::protocol::inbound::InboundMessageView;
use crate::protocol::inbound::Lap;
use crate::protocol::inbound::LapView;
use crate::protocol::inbound::RealtimeCarUpdate;
use crate::protocol::inbound::RealtimeCarUpdateView;
use crate::protocol::inbound::TrackData;
use crate::protocol::inbound::TrackDataView;
use fnv::FnvHashMap;
use vstd::prelude::*;

verus! {

/// `fnv::FnvHasher`, opaque to the verifier.
#[verifier::external_type_specification]
#[verifier::external_body]
pub struct ExFnvHasher(fnv::FnvHasher);

/// `std::hash::BuildHasherDefault`, opaque to the verifier.
#[verifier::external_type_specification]
#[verifier::external_body]
#[verifier::reject_recursive_types(H)]
pub struct ExBuildHasherDefault<H>(std::hash::BuildHasherDefault<H>);

/// The state of a car. Every [`RealtimeCarUpdate`] carries all of it, so the
/// update itself is kept.
pub type CarState = RealtimeCarUpdate;

/// What the session knows of one car.
#[derive(Debug, Clone)]
pub struct CarContext {
    pub entry: Option<EntrylistCar<'static>>,
    pub state: Option<CarState>,
    /// The laps that the car was seen to complete, each with the lap count
    /// that it brought the car to.
    pub laps: Vec<(u16, Lap)>,
}

/// The mathematical value of a [`CarContext`].
pub struct CarContextView {
    pub entry: Option<EntrylistCarView>,
    pub state: Option<RealtimeCarUpdateView>,
    pub laps: Seq<(u16, LapView)>,
}

/// The mathematical values of a lap history.
pub open spec fn laps_view(laps: Seq<(u16, Lap)>) -> Seq<(u16, LapView)> {
    Seq::new(laps.len(), |i: int| (laps[i].0, laps[i].1@))
}

impl View for CarContext {
    type V = CarContextView;

    open spec fn view(&self) -> CarContextView {
        CarContextView {
            entry: match self.entry {
                Some(entry) => Some(entry@),
                None => None,
            },
            state: match self.state {
                Some(state) => Some(state@),
                None => None,
            },
            laps: laps_view(self.laps@),
        }
    }
}

impl CarContext {
    /// A car of which only the entry is known.
    fn new_from_entry(entry: EntrylistCar<'static>) -> (car: CarContext)
        ensures
            car@ == (CarContextView { entry: Some(entry@), state: None, laps: Seq::empty() }),
            car.entry == Some(entry),
    {
        let car = CarContext { entry: Some(entry), state: None, laps: Vec::new() };
        assert(car@.laps =~= Seq::empty());
        car
    }

    /// A car of which only the state is known.
    fn new_from_update(update: RealtimeCarUpdate) -> (car: CarContext)
        ensures
            car@ == (CarContextView { entry: None, state: Some(update@), laps: Seq::empty() }),
    {
        let car = CarContext { entry: None, state: Some(update), laps: Vec::new() };
        assert(car@.laps =~= Seq::empty());
        car
    }

    /// The driver at the wheel: the one that the entry's index of the
    /// current driver points at. There is none while the car has no entry,
    /// nor where the index points past the entry's drivers.
    pub fn current_driver(&self) -> (driver: Option<&Driver<'static>>)
        ensures
            driver == match self.entry {
                Some(entry) => if (entry.current_driver_index as int) < entry.drivers@.len() {
                    Some(&entry.drivers@[entry.current_driver_index as int])
                } else {
                    None
                },
                None => None,
            },
    {
        match &self.entry {
            Some(entry) => {
                let index: usize = entry.current_driver_index as usize;
                if index < entry.drivers.len() {
                    Some(&entry.drivers[index])
                } else {
                    None
                }
            },
            None => None,
        }
    }
}

/// The cars of a session by their ids.
pub type Cars = Map<u16, CarContextView>;

/// The mathematical value of a [`Context`].
pub struct ContextView {
    pub track: Option<TrackDataView>,
    pub cars: Cars,
}

/// Every car that is tracked has an entry or a state, what it has is kept
/// under its own id, and a car whose state shows a completed lap has a
/// history that is not empty.
pub open spec fn coherent(cars: Cars) -> bool {
    forall|id: u16| #[trigger]
        cars.contains_key(id) ==> {
            &&& cars[id].entry is Some || cars[id].state is Some
            &&& cars[id].entry matches Some(entry) ==> entry.id == id
            &&& cars[id].state matches Some(state) ==> state.id == id
            &&& cars[id].state matches Some(state) ==> (state.laps > 0 ==> cars[id].laps.len()
                > 0)
        }
}

/// The cars after a new entry list was announced: those whose ids the list
/// names stay as they are, and all others are gone with all that was known
/// of them.
pub open spec fn seeded(cars: Cars, ids: Seq<u16>) -> Cars {
    cars.restrict(ids.to_set())
}

/// The cars after the entry of one was received: the entry is filed under
/// its id, in place of an earlier one. What else is known of the car stays.
pub open spec fn entered(cars: Cars, entry: EntrylistCarView) -> Cars {
    if cars.contains_key(entry.id) {
        cars.insert(
            entry.id,
            CarContextView {
                entry: Some(entry),
                state: cars[entry.id].state,
                laps: cars[entry.id].laps,
            },
        )
    } else {
        cars.insert(
            entry.id,
            CarContextView { entry: Some(entry), state: None, laps: Seq::empty() },
        )
    }
}

/// Whether `update` shows that the car has completed a lap since what
/// `cars` holds was recorded. A car with a state has if its lap count has
/// grown. A car without a state, be it tracked by its entry or not tracked
/// at all, is seen for the first time and has if it has any lap at all.
pub open spec fn completes_lap(cars: Cars, update: RealtimeCarUpdateView) -> bool {
    update.laps > baseline(cars, update.id)
}

/// The lap count that the next state of a car is held against: that of its
/// state, and zero for a car that has none.
pub open spec fn baseline(cars: Cars, id: u16) -> u16 {
    if cars.contains_key(id) && cars[id].state is Some {
        cars[id].state->Some_0.laps
    } else {
        0
    }
}

/// The laps that the car `id` was seen to complete: none while the car is
/// not tracked.
pub open spec fn history(cars: Cars, id: u16) -> Seq<(u16, LapView)> {
    if cars.contains_key(id) {
        cars[id].laps
    } else {
        Seq::empty()
    }
}

/// The cars after the state of one was received: the state takes the place
/// of the earlier one, and if it shows a completed lap, its last lap is
/// appended to the car's history under its lap count.
pub open spec fn observed(cars: Cars, update: RealtimeCarUpdateView) -> Cars {
    let laps = if completes_lap(cars, update) {
        history(cars, update.id).push((update.laps, update.last_lap))
    } else {
        history(cars, update.id)
    };
    let entry = if cars.contains_key(update.id) {
        cars[update.id].entry
    } else {
        None
    };
    cars.insert(update.id, CarContextView { entry, state: Some(update), laps })
}

/// Whether a car is entered under the race number `number`.
pub open spec fn has_race_number(car: CarContextView, number: i32) -> bool {
    car.entry matches Some(entry) && entry.race_number == number
}

/// The cars after a run of car states was received, the first of them first.
pub open spec fn observed_all(cars: Cars, updates: Seq<RealtimeCarUpdateView>) -> Cars
    decreases updates.len(),
{
    if updates.len() == 0 {
        cars
    } else {
        observed_all(observed(cars, updates.first()), updates.drop_first())
    }
}

/// How many states of a run carry a higher lap count than the state before
/// them, the first state being held against `before`.
pub open spec fn increases(before: u16, updates: Seq<RealtimeCarUpdateView>) -> nat
    decreases updates.len(),
{
    if updates.len() == 0 {
        0
    } else {
        let rest = increases(updates.first().laps, updates.drop_first());
        if updates.first().laps > before {
            1 + rest
        } else {
            rest
        }
    }
}

/// What a run of states adds to a history: for each state with a higher lap
/// count than the state before it, its lap count and its last lap.
pub open spec fn recorded(before: u16, updates: Seq<RealtimeCarUpdateView>) -> Seq<(u16, LapView)>
    decreases updates.len(),
{
    if updates.len() == 0 {
        Seq::empty()
    } else {
        let rest = recorded(updates.first().laps, updates.drop_first());
        if updates.first().laps > before {
            seq![(updates.first().laps, updates.first().last_lap)] + rest
        } else {
            rest
        }
    }
}

/// One entry is recorded for each increase of the lap count.
pub proof fn lemma_one_entry_per_increase(before: u16, updates: Seq<RealtimeCarUpdateView>)
    ensures
        recorded(before, updates).len() == increases(before, updates),
    decreases updates.len(),
{
    if updates.len() > 0 {
        lemma_one_entry_per_increase(updates.first().laps, updates.drop_first());
    }
}

/// The history of a car grows with the increases of its lap count and with
/// nothing else. When a run of states of one car is received, whatever
/// their lap counts, the car's history is afterwards what it was, followed
/// by one entry for each state whose lap count is higher than that of the
/// state before it; the entry holds that state's lap count and last lap. The
/// first state of the run is held against the state that the session holds
/// of the car, and against zero where it holds none. So the history grows by
/// as many entries as there were increases, however large each was.
pub proof fn lemma_history_follows_lap_count(
    cars: Cars,
    id: u16,
    updates: Seq<RealtimeCarUpdateView>,
)
    requires
        forall|i: int| 0 <= i < updates.len() ==> (#[trigger] updates[i]).id == id,
    ensures
        history(observed_all(cars, updates), id) == history(cars, id) + recorded(
            baseline(cars, id),
            updates,
        ),
        history(observed_all(cars, updates), id).len() == history(cars, id).len() + increases(
            baseline(cars, id),
            updates,
        ),
    decreases updates.len(),
{
    lemma_one_entry_per_increase(baseline(cars, id), updates);
    if updates.len() > 0 {
        let first = updates.first();
        let rest = updates.drop_first();
        assert forall|i: int| 0 <= i < rest.len() implies (#[trigger] rest[i]).id == id by {
            assert(rest[i] == updates[i + 1]);
        }
        lemma_history_follows_lap_count(observed(cars, first), id, rest);
        assert(baseline(observed(cars, first), id) == first.laps);
    }
}

/// No message breaks the order of the session. Whatever is received, every
/// car that is tracked afterwards has an entry or a state under its own id,
/// and the history of a car that has completed a lap is not empty.
pub proof fn lemma_order_is_kept(
    cars: Cars,
    ids: Seq<u16>,
    entry: EntrylistCarView,
    update: RealtimeCarUpdateView,
)
    requires
        coherent(cars),
    ensures
        coherent(seeded(cars, ids)),
        coherent(entered(cars, entry)),
        coherent(observed(cars, update)),
        observed(cars, update)[update.id].state == Some(update),
        update.laps > 0 ==> observed(cars, update)[update.id].laps.len() > 0,
{
}

/// A new entry list keeps the cars that it names and no others. A car is
/// tracked after seeding exactly if it was tracked before and the list names
/// it, and such a car is as it was.
pub proof fn lemma_seeding_keeps_the_listed(cars: Cars, ids: Seq<u16>, id: u16)
    ensures
        seeded(cars, ids).contains_key(id) <==> cars.contains_key(id) && ids.contains(id),
        seeded(cars, ids).contains_key(id) ==> seeded(cars, ids)[id] == cars[id],
{
}

/// A car that the new entry list leaves out is gone, whatever was known of
/// it. After an entry list that names `a` and `b`, the entries of both, and
/// an entry list that names `b` alone, `b` is tracked with its entry and `a`
/// is not tracked, whatever the session held at the start.
pub proof fn lemma_reseeding_prunes(
    cars: Cars,
    a: u16,
    b: u16,
    entry_a: EntrylistCarView,
    entry_b: EntrylistCarView,
)
    requires
        a != b,
        entry_a.id == a,
        entry_b.id == b,
    ensures
        ({
            let both = entered(entered(seeded(cars, seq![a, b]), entry_a), entry_b);
            let pruned = seeded(both, seq![b]);
            &&& both.contains_key(a)
            &&& both.contains_key(b)
            &&& !pruned.contains_key(a)
            &&& pruned.contains_key(b)
            &&& pruned[b] == both[b]
            &&& pruned[b].entry == Some(entry_b)
        }),
{
    let both = entered(entered(seeded(cars, seq![a, b]), entry_a), entry_b);
    assert(seq![b][0] == b);
    lemma_seeding_keeps_the_listed(both, seq![b], a);
    lemma_seeding_keeps_the_listed(both, seq![b], b);
}

/// The session after a message was received. The state of a car, the
/// notice of a new entry list, the entry of a car and the data of the track
/// each change what they are about. The other messages change nothing.
pub open spec fn applied(context: ContextView, message: InboundMessageView) -> ContextView {
    match message {
        InboundMessageView::RealtimeCarUpdate(update) => ContextView {
            track: context.track,
            cars: observed(context.cars, update),
        },
        InboundMessageView::EntrylistUpdate(ids) => ContextView {
            track: context.track,
            cars: seeded(context.cars, ids),
        },
        InboundMessageView::EntrylistCar(entry) => ContextView {
            track: context.track,
            cars: entered(context.cars, entry),
        },
        InboundMessageView::TrackData(track) => ContextView {
            track: Some(track),
            cars: context.cars,
        },
        _ => context,
    }
}

/// The mathematical values of the cars in a table.
pub open spec fn cars_view(table: Map<u16, CarContext>) -> Cars {
    Map::new(|id: u16| table.contains_key(id), |id: u16| table[id]@)
}

/// `HashMap::get`: the car that is kept under `id`, if there is one.
#[verifier::external_body]
fn table_get<'a>(table: &'a FnvHashMap<u16, CarContext>, id: u16) -> (car: Option<&'a CarContext>)
    ensures
        car == (if table@.contains_key(id) {
            Some(&table@[id])
        } else {
            None
        }),
{
    table.get(&id)
}

/// `HashMap::get_mut`: the car that is kept under `id`, if there is one, to
/// be changed in place. Nothing else in the table changes.
#[verifier::external_body]
fn table_get_mut<'a>(table: &'a mut FnvHashMap<u16, CarContext>, id: u16) -> (car: Option<
    &'a mut CarContext,
>)
    ensures
        match car {
            Some(car) => old(table)@.contains_key(id) && *car == old(table)@[id] && final(table)@
                == old(table)@.insert(id, *final(car)),
            None => !old(table)@.contains_key(id) && final(table)@ == old(table)@,
        },
{
    table.get_mut(&id)
}

/// `HashMap::insert`: `car` is kept under `id` from now on, in place of
/// what was there.
#[verifier::external_body]
fn table_insert(table: &mut FnvHashMap<u16, CarContext>, id: u16, car: CarContext)
    ensures
        final(table)@ == old(table)@.insert(id, car),
{
    table.insert(id, car);
}

/// Whether `id` is one of `ids`.
fn lists(ids: &Vec<u16>, id: u16) -> (listed: bool)
    ensures
        listed == ids@.contains(id),
{
    let mut i: usize = 0;
    while i < ids.len()
        invariant
            i <= ids.len(),
            forall|j: int| 0 <= j < i ==> ids@[j] != id,
        decreases ids.len() - i,
    {
        if ids[i] == id {
            return true;
        }
        i += 1;
    }
    false
}

/// `HashMap::retain`, with [`lists`] deciding: the cars whose ids are among
/// `ids` stay as they are, and the others are removed.
#[verifier::external_body]
fn table_retain(table: &mut FnvHashMap<u16, CarContext>, ids: &Vec<u16>)
    ensures
        final(table)@ == old(table)@.restrict(ids@.to_set()),
{
    table.retain(|id, _| lists(ids, *id))
}

/// `HashMap::keys`: the ids under which cars are kept, each once, in the
/// order in which the map happens to hand them out.
#[verifier::external_body]
fn table_ids(table: &FnvHashMap<u16, CarContext>) -> (ids: Vec<u16>)
    ensures
        ids@.no_duplicates(),
        ids@.to_set() == table@.dom(),
{
    table.keys().copied().collect()
}

/// `HashMap::capacity`: for how many cars the table has room. Nothing is
/// known of the number.
#[verifier::external_body]
fn table_capacity(table: &FnvHashMap<u16, CarContext>) -> (capacity: usize) {
    table.capacity()
}

/// How many cars a session can hold at most: as many as there are ids.
pub const MAX_CARS: usize = 0x1_0000;

/// The state of a session.
pub struct Context {
    track: Option<TrackData<'static>>,
    cars: FnvHashMap<u16, CarContext>,
}

impl View for Context {
    type V = ContextView;

    closed spec fn view(&self) -> ContextView {
        ContextView {
            track: match self.track {
                Some(track) => Some(track@),
                None => None,
            },
            cars: cars_view(self.cars@),
        }
    }
}

impl Default for Context {
    /// A session of which nothing is known yet.
    fn default() -> (context: Context)
        ensures
            context@ == (ContextView { track: None, cars: Map::empty() }),
    {
        Context::new()
    }
}

impl Context {
    #[verifier::type_invariant]
    spec fn valid(&self) -> bool {
        &&& coherent(cars_view(self.cars@))
        &&& self.track matches Some(track) ==> track.is_owned()
        &&& forall|id: u16| #[trigger]
            self.cars@.contains_key(id) ==> (self.cars@[id].entry matches Some(entry)
                ==> entry.is_owned())
    }

    /// A session of which nothing is known yet.
    pub fn new() -> (context: Context)
        ensures
            context@ == (ContextView { track: None, cars: Map::empty() }),
    {
        let context = Context { track: None, cars: FnvHashMap::default() };
        assert(context@.cars =~= Map::empty());
        context
    }

    /// For how many cars the session has room before it must grow. An
    /// entry list makes room for the cars that it names. The number is the
    /// one that the map reports of its allocation; it differs from run to
    /// run, and nothing is promised of it.
    pub fn capacity(&self) -> usize {
        table_capacity(&self.cars)
    }

    /// What is known of the track, once a [`TrackData`] has been received.
    pub fn track_data(&self) -> (track: Option<&TrackData<'static>>)
        ensures
            match track {
                Some(track) => self@.track == Some(track@) && track.is_owned(),
                None => self@.track is None,
            },
    {
        proof {
            use_type_invariant(self);
        }
        self.track.as_ref()
    }

    /// The car with the id `id`, if it is tracked.
    pub fn car_by_id(&self, id: u16) -> (car: Option<&CarContext>)
        ensures
            coherent(self@.cars),
            match car {
                Some(car) => self@.cars.contains_key(id) && self@.cars[id] == car@,
                None => !self@.cars.contains_key(id),
            },
            car matches Some(car) ==> (car.entry matches Some(entry) ==> entry.is_owned()),
    {
        proof {
            use_type_invariant(self);
        }
        table_get(&self.cars, id)
    }

    /// A car whose entry has the race number `number`, if there is one. The
    /// cars are gone through one by one; of several with that number any
    /// may be the one returned.
    pub fn car_by_race_number(&self, number: i32) -> (car: Option<&CarContext>)
        ensures
            match car {
                Some(car) => has_race_number(car@, number) && exists|id: u16| #[trigger]
                    self@.cars.contains_key(id) && self@.cars[id] == car@,
                None => forall|id: u16| #[trigger]
                    self@.cars.contains_key(id) ==> !has_race_number(self@.cars[id], number),
            },
    {
        let ids = table_ids(&self.cars);
        let mut i: usize = 0;
        while i < ids.len()
            invariant
                i <= ids@.len(),
                ids@.to_set() == self.cars@.dom(),
                forall|j: int|
                    0 <= j < i ==> !has_race_number(#[trigger] self@.cars[ids@[j]], number),
            decreases ids.len() - i,
        {
            let id: u16 = ids[i];
            match table_get(&self.cars, id) {
                Some(car) => {
                    let found = match &car.entry {
                        Some(entry) => entry.race_number == number,
                        None => false,
                    };
                    if found {
                        assert(self@.cars.contains_key(id));
                        return Some(car);
                    }
                },
                None => {},
            }
            i += 1;
        }
        assert forall|id: u16| #[trigger] self@.cars.contains_key(id) implies !has_race_number(
            self@.cars[id],
            number,
        ) by {
            assert(ids@[ids@.index_of(id)] == id);
        }
        None
    }

    /// Takes a message, whichever it is, and changes the session as the
    /// message asks.
    pub fn apply(&mut self, message: InboundMessage)
        ensures
            final(self)@ == applied(old(self)@, message@),
            coherent(final(self)@.cars),
    {
        proof {
            use_type_invariant(&*self);
        }
        match message {
            InboundMessage::RealtimeCarUpdate(update) => self.update_car_state(update),
            InboundMessage::EntrylistUpdate(update) => self.seed_entrylist(&update),
            InboundMessage::EntrylistCar(car) => self.update_car_entry(car),
            InboundMessage::TrackData(track) => self.update_track_data(track),
            _ => {},
        }
    }

    /// Takes the message that says what is known of the track. It replaces
    /// all that was known before.
    pub fn update_track_data(&mut self, track_data: TrackData)
        ensures
            final(self)@ == (ContextView { track: Some(track_data@), cars: old(self)@.cars }),
            coherent(final(self)@.cars),
    {
        proof {
            use_type_invariant(&*self);
        }
        self.track = Some(track_data.into_owned());
    }

    /// Takes the notice of a new entry list: makes room for the cars that
    /// it names, and drops every car that it does not name.
    pub fn seed_entrylist(&mut self, update: &EntrylistUpdate)
        ensures
            final(self)@ == (ContextView {
                track: old(self)@.track,
                cars: seeded(old(self)@.cars, update@),
            }),
            coherent(final(self)@.cars),
    {
        proof {
            use_type_invariant(&*self);
        }
        let mut cars: FnvHashMap<u16, CarContext> = FnvHashMap::default();
        core::mem::swap(&mut self.cars, &mut cars);
        // First make room for the whole set of cars. However long the list
        // is, it cannot name more cars than there are ids.
        let wanted: usize = if update.car_ids.len() < MAX_CARS {
            update.car_ids.len()
        } else {
            MAX_CARS
        };
        let capacity: usize = table_capacity(&cars);
        if capacity < wanted {
            cars.reserve(wanted - capacity);
        }
        // Then keep only the cars that are still entered.
        table_retain(&mut cars, &update.car_ids);
        assert(cars_view(cars@) =~= seeded(old(self)@.cars, update@));
        self.cars = cars;
    }

    /// Takes the entry of a car: the car is tracked from now on, and the
    /// entry replaces an earlier one.
    pub fn update_car_entry(&mut self, updated_car: EntrylistCar)
        ensures
            final(self)@ == (ContextView {
                track: old(self)@.track,
                cars: entered(old(self)@.cars, updated_car@),
            }),
            coherent(final(self)@.cars),
    {
        proof {
            use_type_invariant(&*self);
        }
        let mut cars: FnvHashMap<u16, CarContext> = FnvHashMap::default();
        core::mem::swap(&mut self.cars, &mut cars);
        let id: u16 = updated_car.id;
        let entry = updated_car.into_owned();
        match table_get_mut(&mut cars, id) {
            Some(car) => {
                car.entry = Some(entry);
            },
            None => {
                table_insert(&mut cars, id, CarContext::new_from_entry(entry));
            },
        }
        assert(cars_view(cars@) =~= entered(old(self)@.cars, updated_car@));
        self.cars = cars;
    }

    /// Takes the state of a car: the car is tracked from now on, the state
    /// replaces the earlier one, and a lap that the car has completed since
    /// is appended to its history. A car of which no state was held is seen
    /// for the first time: if it has completed a lap already, its last lap
    /// is recorded, so that its history is not empty.
    pub fn update_car_state(&mut self, update: RealtimeCarUpdate)
        ensures
            final(self)@ == (ContextView {
                track: old(self)@.track,
                cars: observed(old(self)@.cars, update@),
            }),
            coherent(final(self)@.cars),
    {
        proof {
            use_type_invariant(&*self);
        }
        let mut cars: FnvHashMap<u16, CarContext> = FnvHashMap::default();
        core::mem::swap(&mut self.cars, &mut cars);
        let id: u16 = update.id;
        let laps: u16 = update.laps;
        let last_lap = update.last_lap;
        match table_get_mut(&mut cars, id) {
            Some(car) => {
                // A car without a state is seen for the first time: any lap
                // that it has completed is new.
                let completed = match &car.state {
                    Some(previous) => laps > previous.laps,
                    None => laps > 0,
                };
                if completed {
                    car.laps.push((laps, last_lap));
                    assert(laps_view(car.laps@) =~= laps_view(old(self).cars@[id].laps@).push(
                        (laps, last_lap@),
                    ));
                }
                car.state = Some(update);
            },
            None => {
                let mut car = CarContext::new_from_update(update);
                if laps > 0 {
                    car.laps.push((laps, last_lap));
                    assert(laps_view(car.laps@) =~= Seq::empty().push((laps, last_lap@)));
                }
                table_insert(&mut cars, id, car);
            },
        }
        assert(cars_view(cars@) =~= observed(old(self)@.cars, update@));
        self.cars = cars;
    }
}

} // verus!
