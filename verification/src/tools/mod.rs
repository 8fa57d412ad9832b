pub mod args;
pub mod edit_file;
pub mod read_file;
pub mod grep;
pub mod glob_tool;
pub mod list_files;
pub mod run_command;
pub mod write_file;
pub mod registry;
