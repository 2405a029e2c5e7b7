use member_rides::date::Date;
use member_rides::schema::{Member, MemberRow, MutationRoot, QueryRoot, Ride};

fn date(y: i32, m: u32, d: u32) -> Date {
    Date::from_ymd(y, m, d).unwrap()
}

fn ride(id: &str, name: &str) -> Ride {
    Ride {
        id: id.to_string(),
        name: name.to_string(),
        description: String::from("loop"),
        distance: 42,
        started: date(2021, 5, 1),
        ended: date(2021, 5, 2),
    }
}

fn row(id: u128, email: &str) -> MemberRow {
    MemberRow {
        id,
        email: email.to_string(),
        firstname: String::from("Ada"),
        lastname: String::from("Lovelace"),
        birthdate: date(1815, 12, 10),
    }
}

#[test]
fn date_accepts_existing_days() {
    let d = date(2024, 2, 29);
    assert_eq!((d.year(), d.month(), d.day()), (2024, 2, 29));
    assert!(Date::from_ymd(2000, 2, 29).is_some());
    assert!(Date::from_ymd(2021, 4, 30).is_some());
    assert!(Date::from_ymd(2021, 12, 31).is_some());
}

#[test]
fn date_rejects_missing_days() {
    assert!(Date::from_ymd(2023, 2, 29).is_none());
    assert!(Date::from_ymd(1900, 2, 29).is_none());
    assert!(Date::from_ymd(2021, 4, 31).is_none());
    assert!(Date::from_ymd(2021, 13, 1).is_none());
    assert!(Date::from_ymd(2021, 0, 1).is_none());
    assert!(Date::from_ymd(2021, 1, 0).is_none());
}

#[test]
fn date_year_range_edges() {
    assert!(Date::from_ymd(262142, 12, 31).is_some());
    assert!(Date::from_ymd(262143, 1, 1).is_none());
    assert!(Date::from_ymd(-262143, 1, 1).is_some());
    assert!(Date::from_ymd(-262144, 12, 31).is_none());
}

#[test]
fn member_key_reads_hyphenated_text() {
    let k = QueryRoot::member_key("936da01f-9abd-4d9d-80c7-02af85c822a8").unwrap();
    assert_eq!(k, 0x936da01f9abd4d9d80c702af85c822a8);
}

#[test]
fn member_key_reads_other_forms() {
    let v = 0xa1a2a3a4b1b2c1c2d1d2d3d4d5d6d7d8u128;
    assert_eq!(QueryRoot::member_key("A1A2A3A4-B1B2-C1C2-D1D2-D3D4D5D6D7D8").unwrap(), v);
    assert_eq!(QueryRoot::member_key("a1a2a3a4b1b2c1c2d1d2d3d4d5d6d7d8").unwrap(), v);
    assert_eq!(QueryRoot::member_key("{a1a2a3a4-b1b2-c1c2-d1d2-d3d4d5d6d7d8}").unwrap(), v);
    assert_eq!(QueryRoot::member_key("URN:uuid:a1a2a3a4-b1b2-c1c2-d1d2-d3d4d5d6d7d8").unwrap(), v);
}

#[test]
fn member_key_rejects_other_text() {
    assert!(QueryRoot::member_key("").is_err());
    assert!(QueryRoot::member_key("not-a-uuid").is_err());
    assert!(QueryRoot::member_key("a1a2a3a4_b1b2-c1c2-d1d2-d3d4d5d6d7d8").is_err());
    assert!(QueryRoot::member_key("g1a2a3a4-b1b2-c1c2-d1d2-d3d4d5d6d7d8").is_err());
    assert!(QueryRoot::member_key("urn:uid::a1a2a3a4-b1b2-c1c2-d1d2-d3d4d5d6d7d8").is_err());
}

#[test]
fn member_keeps_the_id_as_written() {
    let m = QueryRoot::member(
        String::from("A1A2A3A4-B1B2-C1C2-D1D2-D3D4D5D6D7D8"),
        String::from("Ada@Example.com"),
        String::from("Ada"),
        String::from("Lovelace"),
        date(1815, 12, 10),
    );
    assert_eq!(m.id(), "A1A2A3A4-B1B2-C1C2-D1D2-D3D4D5D6D7D8");
    assert_eq!(m.email(), "Ada@Example.com");
    assert_eq!(m.firstname(), "Ada");
    assert_eq!(m.lastname(), "Lovelace");
    assert_eq!(m.birthdate(), date(1815, 12, 10));
}

#[test]
fn members_writes_keys_as_text() {
    let rows: Vec<Result<MemberRow, String>> =
        vec![Ok(row(1, "a@x.org")), Ok(row(0x936da01f9abd4d9d80c702af85c822a8, "b@x.org"))];
    let ms = QueryRoot::members(rows).unwrap();
    assert_eq!(ms.len(), 2);
    assert_eq!(ms[0].id, "00000000-0000-0000-0000-000000000001");
    assert_eq!(ms[0].email, "a@x.org");
    assert_eq!(ms[1].id, "936da01f-9abd-4d9d-80c7-02af85c822a8");
    assert_eq!(ms[1].email, "b@x.org");
    assert_eq!(ms[1].firstname, "Ada");
    assert_eq!(ms[1].lastname, "Lovelace");
    assert_eq!(ms[1].birthdate, date(1815, 12, 10));
}

#[test]
fn members_of_no_rows_is_empty() {
    let rows: Vec<Result<MemberRow, String>> = Vec::new();
    assert!(QueryRoot::members(rows).unwrap().is_empty());
}

#[test]
fn members_stops_at_the_first_bad_row() {
    let rows: Vec<Result<MemberRow, String>> = vec![
        Ok(row(1, "a@x.org")),
        Err(String::from("column 1")),
        Err(String::from("column 2")),
    ];
    assert_eq!(QueryRoot::members(rows).err(), Some(String::from("column 1")));
}

#[test]
fn listed_member_is_found_by_its_id() {
    let key = 0x0123456789abcdef0123456789abcdefu128;
    let ms = QueryRoot::members(vec![Ok::<MemberRow, String>(row(key, "a@x.org"))]).unwrap();
    assert_eq!(QueryRoot::member_key(&ms[0].id).unwrap(), key);
}

#[test]
fn rides_keep_rows_in_order() {
    let rows: Vec<Result<Ride, String>> = vec![Ok(ride("r1", "morning")), Ok(ride("r2", "evening"))];
    let rides = Member::rides(rows).unwrap();
    assert_eq!(rides.len(), 2);
    assert_eq!(rides[0].id, "r1");
    assert_eq!(rides[0].name, "morning");
    assert_eq!(rides[1].id, "r2");
    assert_eq!(rides[1].distance, 42);
}

#[test]
fn rides_stop_at_the_first_bad_row() {
    let rows: Vec<Result<Ride, String>> =
        vec![Err(String::from("first")), Ok(ride("r2", "evening")), Err(String::from("second"))];
    assert_eq!(Member::rides(rows).err(), Some(String::from("first")));
}

#[test]
fn new_member_lowercases_email() {
    let m = MutationRoot::new_member(
        1,
        "Jane.Doe@Example.COM",
        String::from("Jane"),
        String::from("Doe"),
        date(1990, 1, 2),
    );
    assert_eq!(m.id, "00000000-0000-0000-0000-000000000001");
    assert_eq!(m.email, "jane.doe@example.com");
    assert_eq!(m.firstname, "Jane");
    assert_eq!(m.lastname, "Doe");
    assert_eq!(m.birthdate, date(1990, 1, 2));
}

#[test]
fn register_member_uses_a_random_key() {
    let (key, m) = MutationRoot::register_member(
        "X@Y.Z",
        String::from("Jane"),
        String::from("Doe"),
        date(1990, 1, 2),
    );
    assert_eq!((key >> 76) & 0xf, 4);
    assert_eq!((key >> 62) & 0x3, 2);
    assert_eq!(QueryRoot::member_key(&m.id).unwrap(), key);
    assert_eq!(m.id.len(), 36);
    assert_eq!(m.email, "x@y.z");
    let (other, _) = MutationRoot::register_member(
        "X@Y.Z",
        String::from("Jane"),
        String::from("Doe"),
        date(1990, 1, 2),
    );
    assert_ne!(key, other);
}

#[test]
fn new_ride_starts_at_no_distance() {
    let r = MutationRoot::new_ride(
        0xffffffffffffffffffffffffffffffff,
        String::from("commute"),
        String::from("to work"),
        date(2022, 3, 1),
        date(2022, 3, 1),
    );
    assert_eq!(r.id, "ffffffff-ffff-ffff-ffff-ffffffffffff");
    assert_eq!(r.name, "commute");
    assert_eq!(r.description, "to work");
    assert_eq!(r.distance, 0);
    assert_eq!(r.started, date(2022, 3, 1));
    assert_eq!(r.ended, date(2022, 3, 1));
}

#[test]
fn register_ride_uses_a_random_key() {
    let (key, r) = MutationRoot::register_ride(
        String::from("commute"),
        String::from("to work"),
        date(2022, 3, 1),
        date(2022, 3, 2),
    );
    assert_eq!((key >> 76) & 0xf, 4);
    assert_eq!(QueryRoot::member_key(&r.id).unwrap(), key);
    assert_eq!(r.distance, 0);
    assert_eq!(r.name, "commute");
}
