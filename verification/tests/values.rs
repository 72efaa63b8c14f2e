use paste_service::config::{connection_string, get_database_config};
use paste_service::ident::{generate_hash, HASH_LEN};
use paste_service::record::{date_not_after, PasteRecord, PasteResponse, Timestamp};
use paste_service::record::ServiceError;
use paste_service::service::{found_outcome, list_outcome, read_outcome};

#[test]
fn generated_hashes_have_seven_alphanumeric_characters() {
    for _ in 0..200 {
        let hash = generate_hash();
        assert_eq!(hash.len(), 7);
        assert_eq!(hash.chars().count(), HASH_LEN);
        assert!(hash.chars().all(|c| c.is_ascii_alphanumeric()));
    }
}

#[test]
fn generated_hashes_differ() {
    let a = generate_hash();
    let b = generate_hash();
    assert_ne!(a, b);
}

#[test]
fn timestamps_are_ordered_by_second_then_nanosecond() {
    let a = Timestamp { secs: 1, nanos: 999_999_999 };
    let b = Timestamp { secs: 2, nanos: 0 };
    assert!(a.le(&b));
    assert!(!b.le(&a));
    assert!(a.le(&a));
    assert!(Timestamp { secs: -5, nanos: 3 }.le(&Timestamp { secs: -5, nanos: 4 }));
    assert!(!Timestamp { secs: -5, nanos: 4 }.le(&Timestamp { secs: -5, nanos: 3 }));
}

#[test]
fn a_missing_date_comes_last() {
    let d = Some(Timestamp { secs: 1, nanos: 0 });
    assert!(date_not_after(&d, &None));
    assert!(!date_not_after(&None, &d));
    assert!(date_not_after(&None, &None));
    assert!(date_not_after(&d, &d));
}

#[test]
fn unreadable_columns_get_their_defaults() {
    let row = PasteRecord::from_columns(
        4,
        "hashhas".to_string(),
        "title".to_string(),
        "body".to_string(),
        None,
        None,
    );
    assert_eq!(row.creation_date, None);
    assert_eq!(row.click_count, 0);
    let d = Timestamp { secs: 12, nanos: 34 };
    let row = PasteRecord::from_columns(
        5,
        "hashhas".to_string(),
        "title".to_string(),
        "body".to_string(),
        Some(Some(d)),
        Some(17),
    );
    assert_eq!(row.id, 5);
    assert_eq!(row.creation_date, Some(d));
    assert_eq!(row.click_count, 17);
    let row = PasteRecord::from_columns(6, String::new(), String::new(), String::new(), Some(None), Some(-1));
    assert_eq!(row.creation_date, None);
    assert_eq!(row.click_count, -1);
}

#[test]
fn rows_are_shaped_into_answers() {
    let d = Timestamp { secs: 12, nanos: 34 };
    let row = PasteRecord {
        id: 3,
        hash: "hashhas".to_string(),
        title: "title".to_string(),
        body: "a long body".to_string(),
        creation_date: Some(d),
        click_count: 8,
    };
    let full = found_outcome(Some(&row)).unwrap();
    assert_eq!(
        full,
        PasteResponse {
            title: "title".to_string(),
            body: "a long body".to_string(),
            hash: "hashhas".to_string(),
            creation_date: Some(d),
            click_count: 8,
        }
    );
    assert_eq!(row.full(), full);
    let other = PasteRecord { id: 4, title: "second".to_string(), ..row.clone() };
    assert_eq!(read_outcome(Some(&vec![row.clone(), other.clone()])), Ok(full.clone()));
    assert_eq!(read_outcome(Some(&vec![other, row.clone()])).unwrap().title, "second");
    assert_eq!(read_outcome(Some(&Vec::new())), Err(ServiceError::NotFound));
    let listing = list_outcome(Some(&vec![row.clone(), row.clone()])).unwrap();
    assert_eq!(listing.pastes.len(), 2);
    assert_eq!(listing.pastes[0], row.summary());
    assert_eq!(listing.pastes[1].body, "");
    assert_eq!(listing.pastes[1].title, "title");
    assert_eq!(listing.pastes[1].hash, "hashhas");
    assert_eq!(listing.pastes[1].click_count, 8);
    assert_eq!(listing.pastes[1].creation_date, Some(d));
}

#[test]
fn a_short_body_is_described_whole() {
    let r = PasteResponse {
        title: "t1".to_string(),
        body: "hello world".to_string(),
        hash: "abcdefg".to_string(),
        creation_date: None,
        click_count: 0,
    };
    assert_eq!(r.describe(), "title: t1, hash: abcdefg, body: hello world");
    let sixty = "x".repeat(60);
    let r = PasteResponse { body: sixty.clone(), ..r };
    assert_eq!(r.describe(), format!("title: t1, hash: abcdefg, body: {}", sixty));
}

#[test]
fn a_long_body_is_described_by_what_follows_its_first_sixty_bytes() {
    let body = format!("{}tail of it", "y".repeat(60));
    let r = PasteResponse {
        title: "long".to_string(),
        body,
        hash: "abcdefg".to_string(),
        creation_date: None,
        click_count: 2,
    };
    assert_eq!(r.describe(), "title: long, hash: abcdefg, body: tail of it");
}

#[test]
fn the_connection_string_names_each_parameter() {
    assert_eq!(
        connection_string("db.example", "6543", "me", "pastes", "pw"),
        "host=db.example port=6543 user=me dbname=pastes password=pw"
    );
    assert_eq!(
        get_database_config(),
        "host=localhost port=5432 user=db_user dbname=paste_db_new password=userpassword123"
    );
}
