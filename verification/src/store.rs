//! What is written to the store and what is made of its answers.
//!
//! The store itself is reached by the caller. Here are the rows that go out
//! and the reading of the rows that come back.

use crate::energy::EnergyData;
use vstd::prelude::*;

verus! {

/// A value as it stands in a column of a row.
#[derive(Debug, Clone, Copy, PartialEq, Eq, Structural)]
pub enum Value {
    Null,
    Integer(i64),
    /// A text, a blob or a real number.
    Other,
}

/// A column of a row: its name, where it has one, and its value.
#[derive(Debug)]
pub struct Column {
    pub name: Option<String>,
    pub value: Value,
}

/// Why a row could not be read.
#[derive(Debug, Clone, Copy, PartialEq, Eq, Structural)]
pub enum StoreError {
    /// No column of the row is named `energy`.
    MissingColumn,
    /// The column holds no value.
    NullValue,
}

impl StoreError {
    /// The error in words.
    pub fn message(&self) -> (text: &'static str)
        ensures
            text@ == match *self {
                StoreError::MissingColumn => "Could not find column `energy`"@,
                StoreError::NullValue => "Null value"@,
            },
    {
        match self {
            StoreError::MissingColumn => "Could not find column `energy`",
            StoreError::NullValue => "Null value",
        }
    }
}

/// Column `i` is named `wanted`.
pub open spec fn named(columns: Seq<Column>, wanted: Seq<char>, i: int) -> bool {
    &&& 0 <= i < columns.len()
    &&& columns[i].name matches Some(name)
    &&& name@ == wanted
}

/// Column `i` is the first that is named `wanted`.
pub open spec fn first_named(columns: Seq<Column>, wanted: Seq<char>, i: int) -> bool {
    named(columns, wanted, i) && forall|k: int| 0 <= k < i ==> !named(columns, wanted, k)
}

/// The place of the first column named `wanted`, if there is one.
pub fn find_column(columns: &Vec<Column>, wanted: &str) -> (place: Option<usize>)
    ensures
        place matches Some(i) ==> first_named(columns@, wanted@, i as int),
        place is None ==> forall|k: int| 0 <= k < columns.len() ==> !named(columns@, wanted@, k),
{
    let mut i: usize = 0;
    while i < columns.len()
        invariant
            0 <= i <= columns.len(),
            forall|k: int| 0 <= k < i ==> !named(columns@, wanted@, k),
        decreases columns.len() - i,
    {
        if let Some(name) = &columns[i].name {
            if name.as_str().eq(wanted) {
                return Some(i);
            }
        }
        i = i + 1;
    }
    None
}

/// The balance that a row gives: what its first column named `energy`
/// holds.
pub open spec fn energy_of_row(columns: Seq<Column>) -> Result<u64, StoreError> {
    if exists|i: int| first_named(columns, "energy"@, i) {
        let i = choose|i: int| first_named(columns, "energy"@, i);
        match columns[i].value {
            Value::Integer(held) => Ok(held as u64),
            _ => Err(StoreError::NullValue),
        }
    } else {
        Err(StoreError::MissingColumn)
    }
}

/// The row's `energy` column, if it has one, holds a number or nothing.
pub open spec fn readable(columns: Seq<Column>) -> bool {
    forall|i: int| first_named(columns, "energy"@, i) ==> columns[i].value != Value::Other
}

/// The balance that the row of a user gives: nothing for a user without a
/// row, and else what the first column named `energy` holds.
pub fn fetch_energy(row: &Option<Vec<Column>>) -> (energy: Result<u64, StoreError>)
    requires
        row matches Some(columns) ==> readable(columns@),
    ensures
        energy == match *row {
            Some(columns) => energy_of_row(columns@),
            None => Ok(0),
        },
{
    let columns = match row {
        Some(columns) => columns,
        None => return Ok(0),
    };
    let place = match find_column(columns, "energy") {
        Some(place) => place,
        None => return Err(StoreError::MissingColumn),
    };
    proof {
        let i = choose|i: int| first_named(columns@, "energy"@, i);
        assert(first_named(columns@, "energy"@, place as int));
        if i < place {
            assert(!named(columns@, "energy"@, i));
        } else if place < i {
            assert(!named(columns@, "energy"@, place as int));
        }
    }
    match columns[place].value {
        Value::Integer(held) => Ok(#[verifier::truncate] (held as u64)),
        _ => Err(StoreError::NullValue),
    }
}

/// Whether a statement has changed anything, going by the number of rows it
/// reports as changed.
pub fn changed(rows: u64) -> (any: bool)
    ensures
        any == (rows != 0),
{
    rows != 0
}

/// The row that writes back one record: the user and the balance, for a
/// record that owes a write-back, and nothing for one that does not.
pub fn sync_energy_one(item: EnergyData) -> (row: Option<(u64, u64)>)
    ensures
        row == if item.is_dirty {
            Some((item.user_id, item.energy))
        } else {
            None
        },
{
    if !item.is_dirty {
        return None;
    }
    Some((item.user_id, item.energy))
}

/// The rows that write back a batch of records, one for each record in
/// order: the user and the balance.
pub fn sync_energy_data(items: &Vec<EnergyData>) -> (rows: Vec<(u64, u64)>)
    ensures
        rows@ == items@.map_values(|item: EnergyData| (item.user_id, item.energy)),
{
    let mut rows: Vec<(u64, u64)> = Vec::new();
    let mut i: usize = 0;
    while i < items.len()
        invariant
            0 <= i <= items.len(),
            rows@ == items@.take(i as int).map_values(
                |item: EnergyData| (item.user_id, item.energy),
            ),
        decreases items.len() - i,
    {
        rows.push((items[i].user_id, items[i].energy));
        assert(rows@ =~= items@.take(i + 1).map_values(
            |item: EnergyData| (item.user_id, item.energy),
        ));
        i = i + 1;
    }
    assert(items@.take(i as int) =~= items@);
    rows
}

} // verus!
