use heapless::String as HeapLessString;
use zero_db::Row;

#[test]
fn test_row_max_size() {
    let total = std::mem::size_of::<i32>()
        + std::mem::size_of::<HeapLessString<32>>()
        + std::mem::size_of::<HeapLessString<256>>();
    assert_eq!(Row::max_size(), total);
}

#[test]
fn row_max_size_counts_length_prefixes() {
    assert_eq!(Row::max_size(), 4 + (32 + 8) + (256 + 8));
}

#[test]
fn row_copy_keeps_every_field() {
    let row = Row {
        id: -7,
        username: HeapLessString::<32>::try_from("zoë").unwrap(),
        email: HeapLessString::<256>::try_from("z@x.org").unwrap(),
    };
    let copy = row.duplicate();
    assert_eq!(copy, row);
    assert_eq!(copy.username, "zoë");
    assert_eq!(copy.email, "z@x.org");
    assert_eq!(row.clone(), row);
}
