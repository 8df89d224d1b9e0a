use shortener::store::{taken_detail_text, Record, StoreError, Table, MAX_COUNT};

fn record(id: &str, url: &str, count: i32) -> Record {
    Record { id: id.to_string(), url: url.to_string(), count }
}

fn taken(code: &str) -> StoreError {
    StoreError::Database {
        message: "duplicate key value violates unique constraint \"record_pkey\"".to_string(),
        detail: Some(format!("Key (id)=({}) already exists.", code)),
    }
}

#[test]
fn detail_of_a_taken_code() {
    assert_eq!(taken_detail_text("Ab3dE9"), "Key (id)=(Ab3dE9) already exists.");
    assert_eq!(taken_detail_text(""), "Key (id)=() already exists.");
}

#[test]
fn count_limit_is_the_largest_32_bit_integer() {
    assert_eq!(MAX_COUNT, 2147483647);
}

#[test]
fn empty_table_finds_nothing() {
    let table = Table::new();
    assert_eq!(table.select("Ab3dE9"), None);
    assert_eq!(table.select(""), None);
}

#[test]
fn insert_of_a_new_url_starts_at_zero() {
    let mut table = Table::new();
    let outcome = table.insert("Ab3dE9", "https://example.com/a");
    assert_eq!(outcome, Ok(record("Ab3dE9", "https://example.com/a", 0)));
    assert_eq!(table.select("Ab3dE9"), Some(record("Ab3dE9", "https://example.com/a", 0)));
}

#[test]
fn insert_of_a_stored_url_returns_its_row_and_adds_none() {
    let mut table = Table::new();
    table.insert("Ab3dE9", "https://example.com/a").unwrap();
    table.increment("Ab3dE9").unwrap();
    let outcome = table.insert("Zz0000", "https://example.com/a");
    assert_eq!(outcome, Ok(record("Ab3dE9", "https://example.com/a", 1)));
    assert_eq!(table.select("Zz0000"), None);
    assert_eq!(table.select("Ab3dE9"), Some(record("Ab3dE9", "https://example.com/a", 1)));
}

#[test]
fn insert_of_a_taken_code_is_refused_and_adds_none() {
    let mut table = Table::new();
    table.insert("Ab3dE9", "https://example.com/a").unwrap();
    let outcome = table.insert("Ab3dE9", "https://example.com/b");
    assert_eq!(outcome, Err(taken("Ab3dE9")));
    assert_eq!(table.select("Ab3dE9"), Some(record("Ab3dE9", "https://example.com/a", 0)));
    let later = table.insert("Cd4fG7", "https://example.com/b");
    assert_eq!(later, Ok(record("Cd4fG7", "https://example.com/b", 0)));
}

#[test]
fn stored_url_wins_over_taken_code() {
    let mut table = Table::new();
    table.insert("aaaaaa", "https://example.com/a").unwrap();
    table.insert("bbbbbb", "https://example.com/b").unwrap();
    let outcome = table.insert("aaaaaa", "https://example.com/b");
    assert_eq!(outcome, Ok(record("bbbbbb", "https://example.com/b", 0)));
    let same = table.insert("aaaaaa", "https://example.com/a");
    assert_eq!(same, Ok(record("aaaaaa", "https://example.com/a", 0)));
}

#[test]
fn select_tells_codes_apart() {
    let mut table = Table::new();
    table.insert("Ab3dE9", "https://example.com/a").unwrap();
    table.insert("Ab3dE8", "https://example.com/b").unwrap();
    assert_eq!(table.select("Ab3dE8"), Some(record("Ab3dE8", "https://example.com/b", 0)));
    assert_eq!(table.select("Ab3dE9"), Some(record("Ab3dE9", "https://example.com/a", 0)));
    assert_eq!(table.select("ab3de9"), None);
    assert_eq!(table.select("Ab3dE"), None);
    assert_eq!(table.select("zzzzzz"), None);
}

#[test]
fn increment_raises_the_count_by_one() {
    let mut table = Table::new();
    table.insert("Ab3dE9", "https://example.com/a").unwrap();
    table.insert("Cd4fG7", "https://example.com/b").unwrap();
    assert_eq!(table.increment("Ab3dE9"), Ok(1));
    assert_eq!(table.select("Ab3dE9"), Some(record("Ab3dE9", "https://example.com/a", 1)));
    assert_eq!(table.select("Cd4fG7"), Some(record("Cd4fG7", "https://example.com/b", 0)));
}

#[test]
fn increment_of_a_missing_code_updates_no_row() {
    let mut table = Table::new();
    table.insert("Ab3dE9", "https://example.com/a").unwrap();
    assert_eq!(table.increment("zzzzzz"), Ok(0));
    assert_eq!(table.select("zzzzzz"), None);
    assert_eq!(table.select("Ab3dE9"), Some(record("Ab3dE9", "https://example.com/a", 0)));
}

#[test]
fn many_increments_add_up() {
    let mut table = Table::new();
    table.insert("Ab3dE9", "https://example.com/a").unwrap();
    for _ in 0..1000 {
        assert_eq!(table.increment("Ab3dE9"), Ok(1));
    }
    assert_eq!(table.select("Ab3dE9"), Some(record("Ab3dE9", "https://example.com/a", 1000)));
}

#[test]
fn table_accepts_any_text_as_url() {
    let mut table = Table::new();
    assert_eq!(table.insert("Ab3dE9", ""), Ok(record("Ab3dE9", "", 0)));
    assert_eq!(table.insert("Cd4fG7", "not a url\n"), Ok(record("Cd4fG7", "not a url\n", 0)));
    assert_eq!(table.insert("Xy7_-0", ""), Ok(record("Ab3dE9", "", 0)));
}
