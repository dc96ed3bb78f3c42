//! Dacti packages: adding data to a package, and the package manager's commands.
use vstd::prelude::*;

use crate::io::Write;
use crate::manager::Load;

verus! {

/// Command to the package manager.
pub enum PackageManagerCommand {
    /// Create a new package at the given path.
    Create(String),
}

/// Data to add to a package.
pub struct AddData {
    /// Handle of the package's write side.
    pub write: u64,
    /// Handle of the package's file manager.
    pub file_manager: u64,
    /// The data.
    pub data: Vec<u8>,
    /// The UUID to assign the data.
    pub uuid: u128,
}

/// An entry of a dacti package index: where the data of a region lies.
#[derive(Clone, Copy, Debug, PartialEq, Eq, Structural)]
pub struct IndexEntry {
    pub region_id: u128,
    pub offset: u32,
    pub size: u32,
}

/// Where added data goes: the first 64 KiB of a package are reserved for components and
/// indices.
pub const DATA_START: u64 = 65536;

/// What adding data to a package sends: a load of the index component to the file manager,
/// whose reply goes to the actor that then writes `index_entry` into the index, and the write
/// of the data itself.
pub struct AddDataPlan {
    pub file_manager: u64,
    pub index_load: Load,
    pub index_entry: IndexEntry,
    pub write_to: u64,
    pub write: Write,
}

/// Plans adding data to a package: the data goes at `DATA_START`, and the index entry records
/// its UUID, offset and size. The index component, with identifier `index_component`, is
/// loaded from the file manager, replying to `on_index`.
pub fn start_add_data(data: AddData, index_component: u128, on_index: u64) -> (r: AddDataPlan)
    ensures
        r.file_manager == data.file_manager,
        r.index_load == (Load { id: index_component, on_result: on_index }),
        r.index_entry == (IndexEntry {
            region_id: data.uuid,
            offset: DATA_START as u32,
            size: data.data@.len() as u32,
        }),
        r.write_to == data.write,
        r.write.start == DATA_START,
        r.write.data@ == data.data@,
{
    let data_len = data.data.len() as u32;
    let index_entry = IndexEntry { region_id: data.uuid, offset: DATA_START as u32, size: data_len };
    AddDataPlan {
        file_manager: data.file_manager,
        index_load: Load { id: index_component, on_result: on_index },
        index_entry,
        write_to: data.write,
        write: Write { start: DATA_START, data: data.data },
    }
}

} // verus!
