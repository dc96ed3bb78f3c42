//! Pterodactil: verified building blocks for reading and writing daicon tables,
//! for in-memory files, and for the small schedulers that drive them.

pub mod codec;
pub mod family;
pub mod fetch;
pub mod source;
pub mod file;
pub mod io;
pub mod manager;
pub mod pack;
pub mod pack_cli;
pub mod package;
pub mod relay;
pub mod schedule;
pub mod set_task;
pub mod table;
pub mod tools;
pub mod viewer;
pub mod world;
