use vstd::prelude::*;

verus! {

/// A hash table from cell keys to strengths, kept by `bevy::utils::HashMap`.
/// Nothing of its inside is visible to the proofs: they speak of
/// `table_entries` only.
#[verifier::external_body]
pub struct CellTable {
    map: bevy::utils::HashMap<u64, u32>,
}

/// The strength that a table holds under each key it holds.
pub uninterp spec fn table_entries(table: CellTable) -> Map<u64, u32>;

/// `HashMap::new`: a table that holds nothing. Not proved here.
#[verifier::external_body]
pub(crate) fn table_new() -> (fresh: CellTable)
    ensures
        forall|key: u64| !table_entries(fresh).contains_key(key),
{
    CellTable { map: bevy::utils::HashMap::new() }
}

/// `HashMap::get`: the strength held under `key`, if any is. Not proved
/// here.
#[verifier::external_body]
pub(crate) fn table_get(table: &CellTable, key: u64) -> (held: Option<u32>)
    ensures
        held == if table_entries(*table).contains_key(key) {
            Some(table_entries(*table)[key])
        } else {
            None
        },
{
    table.map.get(&key).copied()
}

/// `HashMap::insert`: afterwards the table holds `value` under `key`, and
/// under every other key what it held. Not proved here.
#[verifier::external_body]
pub(crate) fn table_insert(table: &mut CellTable, key: u64, value: u32)
    ensures
        table_entries(*final(table)) == table_entries(*old(table)).insert(key, value),
{
    table.map.insert(key, value);
}

/// `HashMap::remove`: afterwards the table holds nothing under `key`, and
/// under every other key what it held. Not proved here.
#[verifier::external_body]
pub(crate) fn table_remove(table: &mut CellTable, key: u64)
    ensures
        table_entries(*final(table)) == table_entries(*old(table)).remove(key),
{
    table.map.remove(&key);
}

/// `HashMap::keys`: the keys of the table, each once, in whatever order the
/// table hands them out. Not proved here.
#[verifier::external_body]
pub(crate) fn table_keys(table: &CellTable) -> (keys: Vec<u64>)
    ensures
        keys@.no_duplicates(),
        keys@.to_set() == table_entries(*table).dom(),
{
    table.map.keys().copied().collect()
}

} // verus!
