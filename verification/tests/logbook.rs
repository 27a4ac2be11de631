use logbook::date::{format_date, parse_date, Date};
use logbook::error::LogError;
use logbook::store::{Entry, LogStore};

fn day(year: i32, month: u32, day: u32) -> Date {
    Date { year, month, day }
}

fn fresh_store() -> LogStore {
    LogStore::open_in_memory().expect("in-memory store")
}

#[test]
fn parse_accepts_canonical_date() {
    assert_eq!(parse_date("2024-01-05"), Ok(day(2024, 1, 5)));
    assert_eq!(parse_date("0001-12-31"), Ok(day(1, 12, 31)));
    assert_eq!(parse_date("9999-01-01"), Ok(day(9999, 1, 1)));
}

#[test]
fn parse_rejects_invalid_month() {
    assert_eq!(parse_date("2024-13-01"), Err(LogError::InvalidArgument));
    assert_eq!(parse_date("2024-00-01"), Err(LogError::InvalidArgument));
}

#[test]
fn parse_rejects_invalid_day() {
    assert_eq!(parse_date("2024-04-31"), Err(LogError::InvalidArgument));
    assert_eq!(parse_date("2024-01-00"), Err(LogError::InvalidArgument));
    assert_eq!(parse_date("2024-01-32"), Err(LogError::InvalidArgument));
}

#[test]
fn parse_knows_leap_years() {
    assert_eq!(parse_date("2024-02-29"), Ok(day(2024, 2, 29)));
    assert_eq!(parse_date("2000-02-29"), Ok(day(2000, 2, 29)));
    assert_eq!(parse_date("2023-02-29"), Err(LogError::InvalidArgument));
    assert_eq!(parse_date("1900-02-29"), Err(LogError::InvalidArgument));
}

#[test]
fn parse_rejects_wrong_shape() {
    assert_eq!(parse_date(""), Err(LogError::InvalidArgument));
    assert_eq!(parse_date("2024-1-05"), Err(LogError::InvalidArgument));
    assert_eq!(parse_date("24-01-05"), Err(LogError::InvalidArgument));
    assert_eq!(parse_date("2024/01/05"), Err(LogError::InvalidArgument));
    assert_eq!(parse_date("2024-01-055"), Err(LogError::InvalidArgument));
    assert_eq!(parse_date("2024-01-0a"), Err(LogError::InvalidArgument));
}

#[test]
fn format_is_zero_padded_canonical() {
    assert_eq!(format_date(&day(2024, 1, 5)), "2024-01-05");
    assert_eq!(format_date(&day(1, 12, 31)), "0001-12-31");
    assert_eq!(format_date(&day(476, 9, 4)), "0476-09-04");
}

#[test]
fn format_then_parse_round_trips() {
    let d = day(2024, 2, 29);
    assert_eq!(parse_date(&format_date(&d)), Ok(d));
}

#[test]
fn create_then_get_yields_same_entry() {
    let mut s = fresh_store();
    let d = day(2024, 1, 5);
    let id = s.create(Some(d), "buy milk").expect("create");
    let got = s.get_by_id(id).expect("get").expect("present");
    assert_eq!(got.id, id);
    assert_eq!(got.date, d);
    assert_eq!(got.description, "buy milk");
}

#[test]
fn create_assigns_increasing_ids_from_one() {
    let mut s = fresh_store();
    let a = s.create(Some(day(2024, 1, 5)), "first").expect("create");
    let b = s.create(Some(day(2024, 1, 6)), "second").expect("create");
    assert_eq!(a, 1);
    assert_eq!(b, 2);
}

#[test]
fn create_rejects_empty_description() {
    let mut s = fresh_store();
    assert_eq!(s.create(Some(day(2024, 1, 5)), ""), Err(LogError::InvalidArgument));
    assert_eq!(s.list_all().expect("list").len(), 0);
}

#[test]
fn create_defaults_to_current_date() {
    let mut s = fresh_store();
    let id = s.create(None, "undated note").expect("create");
    let got = s.get_by_id(id).expect("get").expect("present");
    assert_eq!(got.description, "undated note");
    assert!(got.date.year >= 2024);
}

#[test]
fn get_missing_id_is_none_not_error() {
    let s = fresh_store();
    assert_eq!(s.get_by_id(42), Ok(None));
}

#[test]
fn delete_then_get_is_none() {
    let mut s = fresh_store();
    let id = s.create(Some(day(2024, 1, 5)), "gone soon").expect("create");
    assert_eq!(s.delete(id), Ok(1));
    assert_eq!(s.get_by_id(id), Ok(None));
}

#[test]
fn delete_missing_id_removes_nothing() {
    let mut s = fresh_store();
    assert_eq!(s.delete(7), Ok(0));
}

#[test]
fn update_date_keeps_description() {
    let mut s = fresh_store();
    let id = s.create(Some(day(2024, 1, 5)), "stable text").expect("create");
    let d2 = day(2025, 6, 30);
    assert_eq!(s.update(id, Some(d2), None), Ok(1));
    let got = s.get_by_id(id).expect("get").expect("present");
    assert_eq!(got.date, d2);
    assert_eq!(got.description, "stable text");
}

#[test]
fn update_description_keeps_date() {
    let mut s = fresh_store();
    let d = day(2024, 1, 5);
    let id = s.create(Some(d), "old text").expect("create");
    assert_eq!(s.update(id, None, Some("new text")), Ok(1));
    let got = s.get_by_id(id).expect("get").expect("present");
    assert_eq!(got.date, d);
    assert_eq!(got.description, "new text");
}

#[test]
fn update_both_fields() {
    let mut s = fresh_store();
    let id = s.create(Some(day(2024, 1, 5)), "old text").expect("create");
    let d2 = day(2024, 12, 24);
    assert_eq!(s.update(id, Some(d2), Some("new text")), Ok(1));
    let got = s.get_by_id(id).expect("get").expect("present");
    assert_eq!(got.date, d2);
    assert_eq!(got.description, "new text");
}

#[test]
fn update_missing_id_touches_nothing() {
    let mut s = fresh_store();
    assert_eq!(s.update(9, Some(day(2024, 1, 5)), None), Ok(0));
    assert_eq!(s.list_all().expect("list").len(), 0);
}

#[test]
fn update_with_no_fields_is_rejected() {
    let mut s = fresh_store();
    let id = s.create(Some(day(2024, 1, 5)), "kept").expect("create");
    assert_eq!(s.update(id, None, None), Err(LogError::InvalidArgument));
    let got = s.get_by_id(id).expect("get").expect("present");
    assert_eq!(got.description, "kept");
}

#[test]
fn update_to_empty_description_is_rejected() {
    let mut s = fresh_store();
    let id = s.create(Some(day(2024, 1, 5)), "kept").expect("create");
    assert_eq!(s.update(id, None, Some("")), Err(LogError::InvalidArgument));
    assert_eq!(
        s.get_by_id(id).expect("get").expect("present").description,
        "kept"
    );
}

#[test]
fn list_by_date_is_exactly_that_dates_entries() {
    let mut s = fresh_store();
    let d = day(2024, 1, 5);
    let other = day(2024, 1, 6);
    let a = s.create(Some(d), "one").expect("create");
    let _b = s.create(Some(other), "two").expect("create");
    let c = s.create(Some(d), "three").expect("create");
    let listed = s.list_by_date(&d).expect("list");
    let ids: Vec<i64> = listed.iter().map(|e| e.id).collect();
    assert_eq!(ids, vec![a, c]);
    for e in &listed {
        assert_eq!(e.date, d);
    }
    assert_eq!(listed[0].description, "one");
    assert_eq!(listed[1].description, "three");
    assert_eq!(s.list_by_date(&day(1999, 1, 5)).expect("list").len(), 0);
}

#[test]
fn list_all_returns_everything_in_id_order() {
    let mut s = fresh_store();
    let a = s.create(Some(day(2024, 3, 1)), "one").expect("create");
    let b = s.create(Some(day(2023, 2, 2)), "two").expect("create");
    let c = s.create(Some(day(2025, 1, 3)), "three").expect("create");
    let all = s.list_all().expect("list");
    assert_eq!(
        all,
        vec![
            Entry { id: a, date: day(2024, 3, 1), description: String::from("one") },
            Entry { id: b, date: day(2023, 2, 2), description: String::from("two") },
            Entry { id: c, date: day(2025, 1, 3), description: String::from("three") },
        ]
    );
}

#[test]
fn entries_survive_reopening_the_file() {
    let path = "/tmp/logbook_reopen_test.db";
    let d = day(2021, 7, 19);
    let id = {
        let mut s = LogStore::open(path).expect("open");
        s.create(Some(d), "persisted").expect("create")
    };
    let s = LogStore::open(path).expect("reopen");
    let got = s.get_by_id(id).expect("get").expect("present");
    assert_eq!(got.date, d);
    assert_eq!(got.description, "persisted");
}

#[test]
fn open_on_impossible_path_is_storage_error() {
    match LogStore::open(".") {
        Err(LogError::Storage) => {}
        other => panic!("expected a storage error, got {:?}", other.is_ok()),
    }
}

#[test]
fn end_to_end_add_then_view_by_id() {
    let mut s = fresh_store();
    let date = parse_date("2024-01-05").expect("parse");
    let id = s.create(Some(date), "buy milk").expect("add");
    assert_eq!(id, 1);
    let shown = s.get_by_id(1).expect("view").expect("record");
    assert_eq!(shown.id, 1);
    assert_eq!(format_date(&shown.date), "2024-01-05");
    assert_eq!(shown.description, "buy milk");
    assert_eq!(
        shown.render(),
        "Record ID: 1\nDate: 2024-01-05\nDescription: buy milk"
    );
}

#[test]
fn render_shows_multi_digit_ids() {
    let e = Entry {
        id: 905,
        date: Date { year: 2024, month: 11, day: 3 },
        description: String::from("note"),
    };
    assert_eq!(e.render(), "Record ID: 905\nDate: 2024-11-03\nDescription: note");
}
