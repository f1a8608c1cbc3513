use pikaboo::energy::EnergyData;
use pikaboo::store::{
    changed, fetch_energy, find_column, sync_energy_data, sync_energy_one, Column, StoreError, Value,
};

fn column(name: Option<&str>, value: Value) -> Column {
    Column { name: name.map(|name| name.to_string()), value }
}

#[test]
fn user_without_a_row_holds_nothing() {
    assert_eq!(fetch_energy(&None), Ok(0));
}

#[test]
fn balance_is_read_from_the_first_energy_column() {
    let row = vec![
        column(Some("user_id"), Value::Integer(7)),
        column(None, Value::Integer(1)),
        column(Some("energy"), Value::Integer(42)),
        column(Some("energy"), Value::Integer(43)),
    ];
    assert_eq!(find_column(&row, "energy"), Some(2));
    assert_eq!(find_column(&row, "user_id"), Some(0));
    assert_eq!(find_column(&row, "Energy"), None);
    assert_eq!(fetch_energy(&Some(row)), Ok(42));
}

#[test]
fn row_without_energy_column_is_an_error() {
    let row = vec![column(Some("user_id"), Value::Integer(7)), column(None, Value::Other)];
    assert_eq!(fetch_energy(&Some(row)), Err(StoreError::MissingColumn));
    assert_eq!(fetch_energy(&Some(Vec::new())), Err(StoreError::MissingColumn));
    assert_eq!(StoreError::MissingColumn.message(), "Could not find column `energy`");
}

#[test]
fn empty_energy_column_is_an_error() {
    let row = vec![column(Some("energy"), Value::Null), column(Some("energy"), Value::Integer(1))];
    assert_eq!(fetch_energy(&Some(row)), Err(StoreError::NullValue));
    assert_eq!(StoreError::NullValue.message(), "Null value");
}

#[test]
fn negative_number_reads_as_its_bits() {
    let row = vec![column(Some("energy"), Value::Integer(-1))];
    assert_eq!(fetch_energy(&Some(row)), Ok(u64::MAX));
    let row = vec![column(Some("energy"), Value::Integer(i64::MIN))];
    assert_eq!(fetch_energy(&Some(row)), Ok(1 << 63));
}

#[test]
fn changed_means_at_least_one_row() {
    assert!(!changed(0));
    assert!(changed(1));
    assert!(changed(u64::MAX));
}

#[test]
fn only_a_dirty_record_is_written_back() {
    assert_eq!(sync_energy_one(EnergyData { user_id: 3, energy: 9, is_dirty: true }), Some((3, 9)));
    assert_eq!(sync_energy_one(EnergyData { user_id: 3, energy: 9, is_dirty: false }), None);
}

#[test]
fn a_batch_is_written_record_by_record() {
    let batch = vec![
        EnergyData { user_id: 3, energy: 9, is_dirty: false },
        EnergyData { user_id: 1, energy: 0, is_dirty: true },
    ];
    assert_eq!(sync_energy_data(&batch), vec![(3, 9), (1, 0)]);
    assert!(sync_energy_data(&Vec::new()).is_empty());
}
