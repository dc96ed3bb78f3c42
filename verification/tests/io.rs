use pterodactil::io::{FileCommand, Read, ReadWriteCmd, Write};
use pterodactil::pack_cli::{AddCommand, Command, CreateCommand};

#[test]
fn command_kinds() {
    let read = FileCommand::Read(Read { start: 0, length: 1, on_result: 2 });
    let write = FileCommand::Write(Write { start: 0, data: vec![1] });
    assert_eq!(read.kind(), "read");
    assert_eq!(write.kind(), "write");
    assert_eq!(ReadWriteCmd::Read { start: 1, length: 2, reply: 3 }.kind(), "read");
    assert_eq!(ReadWriteCmd::Write { start: 1, data: vec![] }.kind(), "write");
}

#[test]
fn cli_command_names() {
    let create = Command::Create(CreateCommand { package: "a.pack".to_string() });
    let add = Command::Add(AddCommand { package: "a.pack".to_string(), input: "x".to_string(), uuid: 5 });
    assert_eq!(create.name(), "create");
    assert_eq!(add.name(), "add");
}
