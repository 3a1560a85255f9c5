use acbc::protocol::acc_enum::CarLocation;
use acbc::protocol::acc_enum::CarModel;
use acbc::protocol::acc_enum::CupCategory;
use acbc::protocol::acc_enum::DriverCategory;
use acbc::protocol::acc_enum::Nationality;
use acbc::protocol::parser::lap;
use acbc::protocol::CameraSets;
use acbc::protocol::Driver;
use acbc::protocol::EntrylistCar;
use acbc::protocol::EntrylistUpdate;
use acbc::protocol::InboundMessage;
use acbc::protocol::Lap;
use acbc::protocol::RealtimeCarUpdate;
use acbc::protocol::TrackData;
use acbc::protocol::WireFloat;
use acbc::session::Context;
use std::borrow::Cow;

fn entry(id: u16, team: &'static str, race_number: i32, first_name: &'static str) -> EntrylistCar<'static> {
    EntrylistCar {
        id,
        model: CarModel::Ferrari488Evo,
        team_name: team.into(),
        race_number,
        cup_category: CupCategory::Overall,
        current_driver_index: 0,
        nationality: Nationality::GreatBritain,
        drivers: vec![Driver {
            first_name: first_name.into(),
            last_name: "Smith".into(),
            short_name: "SMI".into(),
            category: DriverCategory::Gold,
            nationality: Nationality::GreatBritain,
        }],
    }
}

fn context_with_entries() -> Context {
    let mut ctx = Context::new();
    let update = EntrylistUpdate { car_ids: vec![1001, 1002] };

    let cars = vec![
        EntrylistCar {
            id: 1001,
            model: CarModel::Ferrari488Evo,
            team_name: "Team 1".into(),
            race_number: 1,
            cup_category: CupCategory::Overall,
            current_driver_index: 0,
            nationality: Nationality::GreatBritain,
            drivers: vec![Driver {
                first_name: "John".into(),
                last_name: "Smith".into(),
                short_name: "SMI".into(),
                category: DriverCategory::Gold,
                nationality: Nationality::GreatBritain,
            }],
        },
        EntrylistCar {
            id: 1002,
            model: CarModel::Ferrari488Evo,
            team_name: "Team 2".into(),
            race_number: 2,
            cup_category: CupCategory::Overall,
            current_driver_index: 0,
            nationality: Nationality::Ireland,
            drivers: vec![Driver {
                first_name: "Jane".into(),
                last_name: "Bloggs".into(),
                short_name: "BLO".into(),
                category: DriverCategory::Platinum,
                nationality: Nationality::Ireland,
            }],
        },
    ];

    ctx.seed_entrylist(&update);

    assert!(ctx.capacity() >= 2);

    for car in cars.into_iter() {
        ctx.update_car_entry(car);
    }

    ctx
}

fn a_lap(time_ms: i32, car_id: u16) -> Lap {
    let mut bytes = time_ms.to_le_bytes().to_vec();
    bytes.extend_from_slice(&car_id.to_le_bytes());
    bytes.extend_from_slice(&[0, 0, 12]);
    bytes.extend_from_slice(&(time_ms / 3).to_le_bytes());
    bytes.extend_from_slice(&(time_ms / 3).to_le_bytes());
    bytes.extend_from_slice(&(time_ms - 2 * (time_ms / 3)).to_le_bytes());
    bytes.extend_from_slice(&[0, 1, 0, 0]);
    lap(&bytes).unwrap().1
}

fn state(id: u16, laps: u16, last_lap_ms: i32) -> RealtimeCarUpdate {
    let still = WireFloat { bits: 0 };
    RealtimeCarUpdate {
        id,
        driver_index: 0,
        driver_count: 1,
        gear: 3,
        world_pos_x: still,
        world_pos_y: still,
        yaw: still,
        car_location: CarLocation::Track,
        speed_kph: 150,
        position: 1,
        cup_position: 1,
        track_position: 1,
        spline_position: WireFloat { bits: 0.5f32.to_bits() },
        laps,
        delta: 0,
        best_session_lap: a_lap(90000, id),
        last_lap: a_lap(last_lap_ms, id),
        current_lap: a_lap(1000, id),
    }
}

fn history(ctx: &Context, id: u16) -> Vec<(u16, i32)> {
    ctx.car_by_id(id).unwrap().laps.iter().map(|(n, l)| (*n, l.lap_time_ms)).collect()
}

#[test]
fn store_and_retrieve_track_data() {
    let mut ctx = Context::new();
    assert!(ctx.track_data().is_none());

    let data = TrackData {
        name: "Spa".into(),
        id: 42,
        distance: 4812,
        camera_sets: CameraSets::new(),
        hud_pages: vec![],
    };

    ctx.update_track_data(data);
    assert!(ctx.track_data().is_some());
    assert_eq!(ctx.track_data().unwrap().name, "Spa");
    assert_eq!(ctx.track_data().unwrap().distance, 4812);

    // Overwrite the existing structure
    let data = TrackData {
        name: "Silverstone".into(),
        id: 36,
        distance: 3210,
        camera_sets: CameraSets::new(),
        hud_pages: vec![],
    };

    ctx.update_track_data(data);
    assert!(ctx.track_data().is_some());
    assert_eq!(ctx.track_data().unwrap().name, "Silverstone");
    assert_eq!(ctx.track_data().unwrap().distance, 3210);
}

#[test]
fn populates_entry_list() {
    let mut ctx = context_with_entries();
    assert!(ctx.car_by_id(1001).unwrap().entry.is_some());
    assert_eq!(ctx.car_by_id(1001).unwrap().entry.as_ref().unwrap().team_name, "Team 1");
    assert!(ctx.car_by_id(1002).unwrap().entry.is_some());
    assert_eq!(ctx.car_by_id(1002).unwrap().entry.as_ref().unwrap().team_name, "Team 2");
    assert!(ctx.car_by_id(1003).is_none());

    // Check that one one car gets pruned
    let update = EntrylistUpdate { car_ids: vec![1002] };
    ctx.seed_entrylist(&update);

    // ID 1002 is still present and retains its data
    assert!(ctx.car_by_id(1002).is_some());
    assert_eq!(ctx.car_by_id(1002).unwrap().entry.as_ref().unwrap().team_name, "Team 2");

    // ID 1001 has been pruned
    assert!(ctx.car_by_id(1001).is_none());
}

#[test]
fn car_by_race_number() {
    let ctx = context_with_entries();

    assert_eq!(ctx.car_by_race_number(2).unwrap().entry.as_ref().unwrap().id, 1002);
}

#[test]
fn current_drivers() {
    let ctx = context_with_entries();

    let d1 = ctx.car_by_id(1001).unwrap().current_driver();
    let d2 = ctx.car_by_id(1002).unwrap().current_driver();

    assert!(d1.is_some());
    assert!(d2.is_some());

    assert_eq!(d1.unwrap().first_name, "John");
    assert_eq!(d2.unwrap().first_name, "Jane");
}

#[test]
fn a_new_session_is_empty() {
    let ctx = Context::new();
    assert!(ctx.track_data().is_none());
    assert!(ctx.car_by_id(0).is_none());
    assert!(ctx.car_by_id(1001).is_none());
    assert!(ctx.car_by_race_number(0).is_none());
}

#[test]
fn track_data_is_kept_as_an_owned_copy() {
    let mut ctx = Context::new();
    {
        let name = String::from("Monza");
        let page = String::from("Basic HUD");
        let camera = String::from("Cockpit");
        let mut camera_sets = CameraSets::new();
        camera_sets.insert(Cow::Borrowed("Drivable"), vec![Cow::Borrowed(camera.as_str())]);
        let data = TrackData {
            name: Cow::Borrowed(name.as_str()),
            id: 9,
            distance: 5793,
            camera_sets,
            hud_pages: vec![Cow::Borrowed(page.as_str())],
        };
        ctx.update_track_data(data);
    }
    let track = ctx.track_data().unwrap();
    assert_eq!(track.name, "Monza");
    assert!(matches!(track.name, Cow::Owned(_)));
    assert_eq!(track.id, 9);
    assert_eq!(track.hud_pages, vec!["Basic HUD"]);
    assert!(matches!(track.hud_pages[0], Cow::Owned(_)));
    assert_eq!(track.camera_sets.get("Drivable").unwrap()[0], "Cockpit");
}

#[test]
fn no_car_has_the_race_number() {
    let ctx = context_with_entries();
    assert!(ctx.car_by_race_number(3).is_none());
    assert_eq!(ctx.car_by_race_number(1).unwrap().entry.as_ref().unwrap().id, 1001);
}

#[test]
fn a_car_without_an_entry_has_no_race_number() {
    let mut ctx = Context::new();
    ctx.update_car_state(state(7, 0, 0));
    assert!(ctx.car_by_race_number(0).is_none());
    ctx.update_car_entry(entry(8, "Team 8", 0, "Ann"));
    assert_eq!(ctx.car_by_race_number(0).unwrap().entry.as_ref().unwrap().id, 8);
}

#[test]
fn a_later_entry_replaces_the_earlier() {
    let mut ctx = context_with_entries();
    ctx.update_car_state(state(1001, 2, 91000));
    ctx.update_car_entry(entry(1001, "Team 1b", 11, "Joe"));
    let car = ctx.car_by_id(1001).unwrap();
    assert_eq!(car.entry.as_ref().unwrap().team_name, "Team 1b");
    assert_eq!(car.entry.as_ref().unwrap().race_number, 11);
    assert_eq!(car.state.as_ref().unwrap().laps, 2);
    assert_eq!(car.current_driver().unwrap().first_name, "Joe");
    assert!(ctx.car_by_race_number(1).is_none());
    assert_eq!(ctx.car_by_id(1002).unwrap().entry.as_ref().unwrap().team_name, "Team 2");
}

#[test]
fn the_driver_index_may_point_at_nobody() {
    let mut ctx = Context::new();
    let mut car = entry(5, "Team 5", 5, "Eve");
    car.current_driver_index = 1;
    ctx.update_car_entry(car);
    assert!(ctx.car_by_id(5).unwrap().current_driver().is_none());
    let mut car = entry(6, "Team 6", 6, "Eve");
    car.drivers.clear();
    ctx.update_car_entry(car);
    assert!(ctx.car_by_id(6).unwrap().current_driver().is_none());
    let mut car = entry(7, "Team 7", 7, "Eve");
    car.drivers.push(Driver {
        first_name: "Max".into(),
        last_name: "Last".into(),
        short_name: "LAS".into(),
        category: DriverCategory::Bronze,
        nationality: Nationality::Wales,
    });
    car.current_driver_index = 1;
    ctx.update_car_entry(car);
    assert_eq!(ctx.car_by_id(7).unwrap().current_driver().unwrap().first_name, "Max");
    ctx.update_car_state(state(9, 0, 0));
    assert!(ctx.car_by_id(9).unwrap().current_driver().is_none());
}

#[test]
fn history_has_one_entry_for_each_increase_of_the_lap_count() {
    let mut ctx = Context::new();
    ctx.update_car_state(state(1001, 0, 0));
    assert_eq!(history(&ctx, 1001), vec![]);
    ctx.update_car_state(state(1001, 0, 0));
    ctx.update_car_state(state(1001, 1, 91000));
    assert_eq!(history(&ctx, 1001), vec![(1, 91000)]);
    ctx.update_car_state(state(1001, 1, 91000));
    ctx.update_car_state(state(1001, 1, 91000));
    ctx.update_car_state(state(1001, 2, 90500));
    ctx.update_car_state(state(1001, 5, 90100));
    ctx.update_car_state(state(1001, 5, 90100));
    assert_eq!(history(&ctx, 1001), vec![(1, 91000), (2, 90500), (5, 90100)]);
    let car = ctx.car_by_id(1001).unwrap();
    assert_eq!(car.state.as_ref().unwrap().laps, 5);
    assert_eq!(car.laps[2].1.splits.as_slice(), &[30033, 30033, 30034]);
    assert!(car.entry.is_none());
}

#[test]
fn a_lower_lap_count_records_nothing() {
    let mut ctx = Context::new();
    ctx.update_car_state(state(3, 4, 90000));
    ctx.update_car_state(state(3, 2, 95000));
    assert_eq!(history(&ctx, 3), vec![(4, 90000)]);
    assert_eq!(ctx.car_by_id(3).unwrap().state.as_ref().unwrap().laps, 2);
    ctx.update_car_state(state(3, 3, 96000));
    assert_eq!(history(&ctx, 3), vec![(4, 90000), (3, 96000)]);
}

#[test]
fn a_car_that_joins_with_laps_gets_its_last_lap_recorded() {
    let mut ctx = Context::new();
    ctx.update_car_state(state(12, 7, 88000));
    assert_eq!(history(&ctx, 12), vec![(7, 88000)]);
    ctx.update_car_state(state(13, 0, 0));
    assert_eq!(history(&ctx, 13), vec![]);
    ctx.update_car_state(state(14, u16::MAX, 1));
    assert_eq!(history(&ctx, 14), vec![(u16::MAX, 1)]);
}

#[test]
fn the_first_state_of_an_entered_car_records_its_last_lap() {
    let mut ctx = context_with_entries();
    assert_eq!(history(&ctx, 1001), vec![]);
    ctx.update_car_state(state(1001, 7, 88000));
    assert_eq!(history(&ctx, 1001), vec![(7, 88000)]);
    let car = ctx.car_by_id(1001).unwrap();
    assert_eq!(car.state.as_ref().unwrap().laps, 7);
    assert_eq!(car.entry.as_ref().unwrap().team_name, "Team 1");
    assert_eq!(car.laps[0].1.car_id, 1001);
    ctx.update_car_state(state(1001, 8, 87000));
    assert_eq!(history(&ctx, 1001), vec![(7, 88000), (8, 87000)]);
    assert_eq!(ctx.car_by_id(1001).unwrap().entry.as_ref().unwrap().team_name, "Team 1");
}

#[test]
fn the_first_state_of_an_entered_car_without_laps_records_nothing() {
    let mut ctx = context_with_entries();
    ctx.update_car_state(state(1002, 0, 0));
    assert_eq!(history(&ctx, 1002), vec![]);
    assert_eq!(ctx.car_by_id(1002).unwrap().state.as_ref().unwrap().laps, 0);
    ctx.update_car_state(state(1002, 1, 93000));
    assert_eq!(history(&ctx, 1002), vec![(1, 93000)]);
}

#[test]
fn a_car_that_has_completed_a_lap_has_a_history() {
    let mut ctx = Context::new();
    ctx.update_car_entry(entry(1, "One", 1, "Al"));
    ctx.update_car_state(state(1, 3, 90000));
    ctx.update_car_state(state(2, 4, 91000));
    ctx.update_car_entry(entry(2, "Two", 2, "Bo"));
    ctx.update_car_state(state(1, 2, 92000));
    ctx.update_car_state(state(2, 4, 91000));
    for id in [1u16, 2] {
        let car = ctx.car_by_id(id).unwrap();
        assert!(car.state.as_ref().unwrap().laps > 0);
        assert!(!car.laps.is_empty());
    }
}

#[test]
fn histories_of_different_cars_do_not_mix() {
    let mut ctx = Context::new();
    ctx.update_car_state(state(1, 1, 100));
    ctx.update_car_state(state(2, 1, 200));
    ctx.update_car_state(state(1, 2, 101));
    ctx.update_car_state(state(2, 2, 201));
    assert_eq!(history(&ctx, 1), vec![(1, 100), (2, 101)]);
    assert_eq!(history(&ctx, 2), vec![(1, 200), (2, 201)]);
}

#[test]
fn reseeding_drops_the_cars_that_are_left_out() {
    let mut ctx = Context::new();
    ctx.seed_entrylist(&EntrylistUpdate { car_ids: vec![10, 20] });
    assert!(ctx.car_by_id(10).is_none());
    ctx.update_car_entry(entry(10, "Team A", 1, "Al"));
    ctx.update_car_entry(entry(20, "Team B", 2, "Bo"));
    ctx.update_car_state(state(10, 3, 90000));
    ctx.update_car_state(state(10, 4, 90000));
    ctx.update_car_state(state(20, 3, 90000));
    ctx.update_car_state(state(20, 4, 91000));
    ctx.seed_entrylist(&EntrylistUpdate { car_ids: vec![20] });
    assert!(ctx.car_by_id(10).is_none());
    assert!(ctx.car_by_race_number(1).is_none());
    let b = ctx.car_by_id(20).unwrap();
    assert_eq!(b.entry.as_ref().unwrap().team_name, "Team B");
    assert_eq!(b.state.as_ref().unwrap().laps, 4);
    assert_eq!(history(&ctx, 20), vec![(3, 90000), (4, 91000)]);
    ctx.update_car_state(state(10, 5, 92000));
    assert_eq!(history(&ctx, 10), vec![(5, 92000)]);
    assert!(ctx.car_by_id(10).unwrap().entry.is_none());
}

#[test]
fn seeding_with_nothing_drops_every_car() {
    let mut ctx = context_with_entries();
    ctx.seed_entrylist(&EntrylistUpdate { car_ids: vec![] });
    assert!(ctx.car_by_id(1001).is_none());
    assert!(ctx.car_by_id(1002).is_none());
}

#[test]
fn seeding_makes_room_and_tracks_nothing() {
    let mut ctx = Context::new();
    ctx.seed_entrylist(&EntrylistUpdate { car_ids: (0..100).collect() });
    assert!(ctx.capacity() >= 100);
    assert!(ctx.car_by_id(5).is_none());
    ctx.seed_entrylist(&EntrylistUpdate { car_ids: vec![5, 5, 5] });
    assert!(ctx.car_by_id(5).is_none());
}

#[test]
fn apply_does_what_the_message_asks() {
    let mut ctx = Context::new();
    ctx.apply(InboundMessage::EntrylistUpdate(EntrylistUpdate { car_ids: vec![1, 2] }));
    ctx.apply(InboundMessage::EntrylistCar(entry(1, "One", 11, "Al")));
    ctx.apply(InboundMessage::EntrylistCar(entry(2, "Two", 22, "Bo")));
    ctx.apply(InboundMessage::RealtimeCarUpdate(state(1, 0, 0)));
    ctx.apply(InboundMessage::RealtimeCarUpdate(state(1, 1, 95000)));
    ctx.apply(InboundMessage::TrackData(TrackData {
        name: "Spa".into(),
        id: 42,
        distance: 7004,
        camera_sets: CameraSets::new(),
        hud_pages: vec![],
    }));
    let event = b"\x07\x05\x0d\x00Lap completed\x2c\x4a\x00\x00\x01\x00\x00\x00";
    ctx.apply(InboundMessage::decode(event).unwrap());
    let registration = b"\x01\x01\x00\x00\x00\x01\x01\x00\x00";
    ctx.apply(InboundMessage::decode(registration).unwrap());
    assert_eq!(ctx.track_data().unwrap().name, "Spa");
    assert_eq!(history(&ctx, 1), vec![(1, 95000)]);
    assert_eq!(ctx.car_by_race_number(22).unwrap().entry.as_ref().unwrap().id, 2);
    ctx.apply(InboundMessage::EntrylistUpdate(EntrylistUpdate { car_ids: vec![2] }));
    assert!(ctx.car_by_id(1).is_none());
    assert!(ctx.car_by_id(2).is_some());
    assert_eq!(ctx.track_data().unwrap().distance, 7004);
}
