use rand::distr::Alphanumeric;
use rand::Rng;
use zero_db::{Page, Row};

#[test]
fn test_new_initialization() {
    let row_size = Row::max_size();
    let page = Page::new(2 * row_size);
    assert_eq!(page.rows.len(), 0);
    assert_eq!(page.max_rows, 2);
}

#[test]
fn test_add_row_happy_path() {
    let row_size = Row::max_size();
    let mut page = Page::new(row_size);

    let row = generate_test_row();
    let result = page.add_row(row);
    assert!(result.is_ok());
    assert_eq!(page.rows.len(), 1);
}

#[test]
fn test_add_row_size_exceeds() {
    let row_size = Row::max_size();
    let mut page = Page::new(row_size);

    let row = generate_test_row();
    let result = page.add_row(row);
    assert!(result.is_ok());
    assert_eq!(page.rows.len(), 1);

    let row = generate_test_row();
    let result = page.add_row(row);
    assert!(!result.is_ok());
    assert_eq!(result.unwrap_err().to_string(), "Page is full");
}

#[test]
fn test_is_full() {
    let mut page = Page::new(Row::max_size());
    assert_eq!(page.is_full(), false);
    let row = generate_test_row();
    let _result = page.add_row(row);
    assert_eq!(page.is_full(), true);
}

#[test]
fn test_max_rows_per_page() {
    let row_size = Row::max_size();
    assert_eq!(Page::max_rows_per_page(0), 0);
    assert_eq!(Page::max_rows_per_page(row_size), 1);
    assert_eq!(Page::max_rows_per_page(2 * row_size), 2);
}

#[test]
fn page_smaller_than_a_row_is_always_full() {
    let mut page = Page::new(Row::max_size() - 1);
    assert_eq!(page.max_rows, 0);
    assert!(page.is_full());
    assert!(page.add_row(generate_test_row()).is_err());
    assert_eq!(page.rows.len(), 0);
}

#[test]
fn page_of_default_size_holds_thirteen_rows() {
    assert_eq!(Page::max_rows_per_page(4096), 13);
    let mut page = Page::new(4096);
    for _ in 0..13 {
        assert!(page.add_row(generate_test_row()).is_ok());
    }
    assert!(page.is_full());
    assert!(page.add_row(generate_test_row()).is_err());
    assert_eq!(page.rows.len(), 13);
}

fn generate_test_row() -> Row {
    let mut rng = rand::rng();

    Row {
        id: rng.random_range(1..10),
        username: generate_user_name(),
        email: generate_email(),
    }
}

fn generate_user_name() -> heapless::String<32> {
    let mut name = heapless::String::<32>::new();
    name.push_str(generate_string(32).as_str())
        .expect("Failed to generate username");
    name
}

fn generate_email() -> heapless::String<256> {
    let mut email = heapless::String::<256>::new();
    email
        .push_str(generate_string(256).as_str())
        .expect("Failed to generate email");
    email
}

fn generate_string(size: usize) -> String {
    let rng = rand::rng();
    let value: String = rng
        .sample_iter(Alphanumeric)
        .take(size)
        .map(char::from)
        .collect();
    return value;
}
