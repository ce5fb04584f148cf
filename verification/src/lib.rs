//! Bishop's deploy-companion logic: parsing of `.env` files, ssh_config,
//! remote descriptors and git URLs, the error catalog, ssh and terminal
//! command lines, deploy runs and remote service commands, the settings
//! store, deploy history migrations, pasted files, and the tray menu.

pub mod text;
pub mod env_vars;
pub mod types;
pub mod project;
pub mod errors;
pub mod terminal;
pub mod store;
pub mod hosts;
pub mod codec;
pub mod paste;
pub mod scrollback;
pub mod sorting;
pub mod remote;
pub mod containers;
pub mod ssh;
pub mod deploy;
pub mod onepassword;
pub mod sample;
pub mod ssh_test;
pub mod scaffold;
pub mod db;
pub mod audit;
pub mod tray;
pub mod quoting;
