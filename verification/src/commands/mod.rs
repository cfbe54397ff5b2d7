pub mod ssh_commands;
