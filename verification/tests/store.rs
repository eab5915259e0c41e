use gymtracker::{NotFound, RecordStore, WorkoutInputs};

fn workout(username: &str, date: &str, time: &str, pounds: f32, muscles: &str, intensity: u8) -> WorkoutInputs {
    WorkoutInputs {
        username: username.to_string(),
        date: date.to_string(),
        time: time.to_string(),
        body_weight: pounds.to_bits(),
        muscle_group: muscles.to_string(),
        intensity,
    }
}

fn sample() -> RecordStore {
    let mut store = RecordStore::new();
    store.insert(workout("Alice", "1-1-2024", "06:00-07:00", 150.0, "Back, Biceps", 7));
    store.insert(workout("Bob", "1-1-2024", "18:00-19:30", 201.5, "Legs", 9));
    store.insert(workout("Alice", "1-2-2024", "06:00-06:45", 149.5, "Chest", 5));
    store.insert(workout("Carol", "1-3-2024", "12:00-13:00", 132.25, "Shoulders", 6));
    store.insert(workout("Bob", "1-3-2024", "18:00-19:00", 200.0, "Back", 8));
    store
}

#[test]
fn new_store_is_empty() {
    let store = RecordStore::new();
    assert_eq!(store.len(), 0);
    assert!(store.lookup_by_user("Alice").is_empty());
    assert!(store.lookup_by_date("1-1-2024", "Alice").is_empty());
}

#[test]
fn insert_returns_consecutive_identities() {
    let mut store = RecordStore::new();
    assert_eq!(store.insert(workout("Alice", "1-1-2024", "06:00-07:00", 150.0, "Back", 7)), 0);
    assert_eq!(store.insert(workout("Alice", "1-1-2024", "06:00-07:00", 150.0, "Back", 7)), 1);
    assert_eq!(store.insert(workout("Bob", "1-2-2024", "08:00-09:00", 180.0, "Legs", 3)), 2);
    assert_eq!(store.len(), 3);
}

#[test]
fn associated_insert_builds_and_stores_the_record() {
    let mut store = RecordStore::new();
    let id = WorkoutInputs::insert(
        &mut store,
        "Alice Smith".to_string(),
        "02-14-2024".to_string(),
        "07:15-08:05".to_string(),
        163.5f32.to_bits(),
        "Back, Biceps".to_string(),
        8,
    );
    assert_eq!(id, 0);
    let found = store.lookup_by_user("Alice Smith");
    assert_eq!(found, vec![workout("Alice Smith", "02-14-2024", "07:15-08:05", 163.5, "Back, Biceps", 8)]);
    assert_eq!(f32::from_bits(found[0].body_weight), 163.5);
}

#[test]
fn inserted_record_is_found_under_its_user() {
    let mut store = sample();
    let fresh = workout("Dave", "2-2-2024", "10:00-11:00", 175.75, "Arms, Abs", 4);
    store.insert(fresh.clone());
    let found = store.lookup_by_user("Dave");
    assert!(found.contains(&fresh));
    assert_eq!(found.last(), Some(&fresh));

    let again = workout("Alice", "2-3-2024", "10:00-11:00", 151.0, "Legs", 10);
    store.insert(again.clone());
    let found = store.lookup_by_user("Alice");
    assert_eq!(found.len(), 3);
    assert_eq!(found[2], again);
}

#[test]
fn lookup_by_user_returns_the_users_records_oldest_first() {
    let store = sample();
    assert_eq!(
        store.lookup_by_user("Alice"),
        vec![
            workout("Alice", "1-1-2024", "06:00-07:00", 150.0, "Back, Biceps", 7),
            workout("Alice", "1-2-2024", "06:00-06:45", 149.5, "Chest", 5),
        ]
    );
    assert_eq!(
        store.lookup_by_user("Bob"),
        vec![
            workout("Bob", "1-1-2024", "18:00-19:30", 201.5, "Legs", 9),
            workout("Bob", "1-3-2024", "18:00-19:00", 200.0, "Back", 8),
        ]
    );
    assert_eq!(
        store.lookup_by_user("Carol"),
        vec![workout("Carol", "1-3-2024", "12:00-13:00", 132.25, "Shoulders", 6)]
    );
}

#[test]
fn lookups_by_user_partition_the_store() {
    let store = sample();
    let mut total = 0;
    for user in ["Alice", "Bob", "Carol"] {
        let found = store.lookup_by_user(user);
        assert!(found.iter().all(|r| r.username == user));
        total += found.len();
    }
    assert_eq!(total, store.len());
    assert!(store.lookup_by_user("alice").is_empty());
}

#[test]
fn lookup_by_date_returns_only_matching_date_and_user() {
    let store = sample();
    for (date, user, count) in [
        ("1-1-2024", "Alice", 1),
        ("1-1-2024", "Bob", 1),
        ("1-1-2024", "Carol", 0),
        ("1-2-2024", "Alice", 1),
        ("1-2-2024", "Bob", 0),
        ("1-3-2024", "Carol", 1),
        ("1-3-2024", "Bob", 1),
        ("1-4-2024", "Alice", 0),
    ] {
        let found = store.lookup_by_date(date, user);
        assert_eq!(found.len(), count);
        assert!(found.iter().all(|r| r.date == date && r.username == user));
    }
}

#[test]
fn lookup_by_date_keeps_insertion_order() {
    let mut store = RecordStore::new();
    store.insert(workout("Alice", "3-3-2024", "06:00-07:00", 150.0, "Back", 7));
    store.insert(workout("Bob", "3-3-2024", "06:00-07:00", 190.0, "Back", 7));
    store.insert(workout("Alice", "3-3-2024", "17:00-18:00", 150.5, "Legs", 9));
    assert_eq!(
        store.lookup_by_date("3-3-2024", "Alice"),
        vec![
            workout("Alice", "3-3-2024", "06:00-07:00", 150.0, "Back", 7),
            workout("Alice", "3-3-2024", "17:00-18:00", 150.5, "Legs", 9),
        ]
    );
}

#[test]
fn reading_twice_gives_the_same_sequence() {
    let store = sample();
    assert_eq!(store.lookup_by_user("Alice"), store.lookup_by_user("Alice"));
    assert_eq!(store.lookup_by_user("Nobody"), store.lookup_by_user("Nobody"));
    assert_eq!(store.lookup_by_date("1-1-2024", "Bob"), store.lookup_by_date("1-1-2024", "Bob"));
    assert_eq!(store.len(), 5);
}

#[test]
fn unknown_user_gives_an_empty_sequence() {
    let store = sample();
    assert_eq!(store.lookup_by_user("nonexistent"), Vec::<WorkoutInputs>::new());
    assert_eq!(store.lookup_by_user(""), Vec::<WorkoutInputs>::new());
}

#[test]
fn latest_for_a_user_is_the_last_inserted() {
    let mut store = RecordStore::new();
    store.insert(workout("Alice", "1-1-2024", "06:00-07:00", 150.0, "Back", 7));
    store.insert(workout("Alice", "1-2-2024", "06:00-07:00", 150.0, "Chest", 7));
    store.insert(workout("Alice", "1-3-2024", "06:00-07:00", 150.0, "Legs", 7));
    assert_eq!(
        store.latest_by_user("Alice"),
        Ok(workout("Alice", "1-3-2024", "06:00-07:00", 150.0, "Legs", 7))
    );
}

#[test]
fn latest_goes_by_insertion_order_not_by_date_text() {
    let mut store = RecordStore::new();
    store.insert(workout("Alice", "12-31-2024", "06:00-07:00", 150.0, "Back", 7));
    store.insert(workout("Bob", "12-31-2025", "06:00-07:00", 150.0, "Back", 7));
    store.insert(workout("Alice", "1-1-2020", "06:00-07:00", 150.0, "Chest", 2));
    store.insert(workout("Bob", "1-1-2020", "09:00-10:00", 180.0, "Arms", 3));
    assert_eq!(
        store.latest_by_user("Alice"),
        Ok(workout("Alice", "1-1-2020", "06:00-07:00", 150.0, "Chest", 2))
    );
    assert_eq!(
        store.latest_by_date("12-31-2024"),
        Ok(workout("Alice", "12-31-2024", "06:00-07:00", 150.0, "Back", 7))
    );
    assert_eq!(
        store.latest_by_date("1-1-2020"),
        Ok(workout("Bob", "1-1-2020", "09:00-10:00", 180.0, "Arms", 3))
    );
}

#[test]
fn latest_without_entries_is_not_found() {
    let store = sample();
    assert_eq!(store.latest_by_user("nonexistent"), Err(NotFound));
    assert_eq!(store.latest_by_date("9-9-1999"), Err(NotFound));
    assert_eq!(RecordStore::new().latest_by_user("Alice"), Err(NotFound));
    assert_eq!(RecordStore::new().latest_by_date("1-1-2024"), Err(NotFound));
}

#[test]
fn same_date_different_users_are_told_apart() {
    let mut store = RecordStore::new();
    store.insert(workout("Alice", "5-5-2024", "06:00-07:00", 150.0, "Back", 7));
    store.insert(workout("Bob", "5-5-2024", "07:00-08:00", 190.0, "Legs", 8));
    assert_eq!(
        store.lookup_by_date("5-5-2024", "Alice"),
        vec![workout("Alice", "5-5-2024", "06:00-07:00", 150.0, "Back", 7)]
    );
    assert_eq!(
        store.lookup_by_date("5-5-2024", "Bob"),
        vec![workout("Bob", "5-5-2024", "07:00-08:00", 190.0, "Legs", 8)]
    );
}

#[test]
fn fields_are_stored_verbatim_without_validation() {
    let mut store = RecordStore::new();
    let odd = workout("Zoë O'Neil", "not a date", "", f32::MAX, "", 255);
    store.insert(odd.clone());
    assert_eq!(store.lookup_by_user("Zoë O'Neil"), vec![odd.clone()]);
    assert_eq!(store.lookup_by_date("not a date", "Zoë O'Neil"), vec![odd.clone()]);
    assert_eq!(store.latest_by_user("Zoë O'Neil"), Ok(odd));
}

#[test]
fn body_weight_keeps_every_bit() {
    let mut store = RecordStore::new();
    for pounds in [0.0f32, -0.0, 0.1, 154.3, 1.0e-40, f32::INFINITY] {
        store.insert(workout("Alice", "1-1-2024", "06:00-07:00", pounds, "Back", 1));
    }
    let found = store.lookup_by_user("Alice");
    let bits: Vec<u32> = found.iter().map(|r| r.body_weight).collect();
    assert_eq!(
        bits,
        vec![
            0.0f32.to_bits(),
            (-0.0f32).to_bits(),
            0.1f32.to_bits(),
            154.3f32.to_bits(),
            1.0e-40f32.to_bits(),
            f32::INFINITY.to_bits(),
        ]
    );
    assert_eq!(bits[0], 0);
    assert_eq!(bits[1], 0x8000_0000);
}

#[test]
fn duplicates_are_kept_as_separate_records() {
    let mut store = RecordStore::new();
    let same = workout("Alice", "1-1-2024", "06:00-07:00", 150.0, "Back", 7);
    store.insert(same.clone());
    store.insert(same.clone());
    assert_eq!(store.lookup_by_user("Alice"), vec![same.clone(), same.clone()]);
    assert_eq!(store.lookup_by_date("1-1-2024", "Alice"), vec![same.clone(), same]);
}

#[test]
fn both_indexes_lead_to_the_same_records() {
    let store = sample();
    for user in ["Alice", "Bob", "Carol", "Nobody"] {
        for date in ["1-1-2024", "1-2-2024", "1-3-2024", "1-4-2024"] {
            let by_user_then_date: Vec<WorkoutInputs> = store
                .lookup_by_user(user)
                .into_iter()
                .filter(|r| r.date == date)
                .collect();
            assert_eq!(store.lookup_by_date(date, user), by_user_then_date);
        }
    }
}

#[test]
fn insert_leaves_other_users_and_dates_as_they_were() {
    let mut store = sample();
    let bob = store.lookup_by_user("Bob");
    let carol_third = store.lookup_by_date("1-3-2024", "Carol");
    store.insert(workout("Alice", "1-3-2024", "20:00-21:00", 150.0, "Abs", 2));
    assert_eq!(store.lookup_by_user("Bob"), bob);
    assert_eq!(store.lookup_by_date("1-3-2024", "Carol"), carol_third);
    assert_eq!(
        store.lookup_by_date("1-3-2024", "Alice"),
        vec![workout("Alice", "1-3-2024", "20:00-21:00", 150.0, "Abs", 2)]
    );
    assert_eq!(
        store.latest_by_date("1-3-2024"),
        Ok(workout("Alice", "1-3-2024", "20:00-21:00", 150.0, "Abs", 2))
    );
}
