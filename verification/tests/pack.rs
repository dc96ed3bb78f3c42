use pterodactil::manager::Load;
use pterodactil::pack::{start_add_data, AddData, IndexEntry, PackageManagerCommand, DATA_START};

#[test]
fn added_data_goes_after_reserved_space() {
    let plan = start_add_data(AddData { write: 1, file_manager: 2, data: vec![9u8; 10], uuid: 77 }, 500, 3);
    assert_eq!(plan.file_manager, 2);
    assert_eq!(plan.index_load, Load { id: 500, on_result: 3 });
    assert_eq!(plan.index_entry, IndexEntry { region_id: 77, offset: 65536, size: 10 });
    assert_eq!(plan.write_to, 1);
    assert_eq!(plan.write.start, DATA_START);
    assert_eq!(plan.write.data, vec![9u8; 10]);
    let PackageManagerCommand::Create(path) = PackageManagerCommand::Create("p".to_string());
    assert_eq!(path, "p");
}
