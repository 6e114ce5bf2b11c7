//! The rules behind the Cordial launcher: which links it takes, which build it
//! starts, which profile it starts it in, where a session is kept and what the
//! update window says.

pub mod browser_account;
pub mod choice;
pub mod deep_link;
pub mod install;
pub mod multi_instance_warning;
pub mod order;
pub mod profile;
pub mod secrets;
pub mod text;
pub mod title_bar;
pub mod updater;
pub mod version;
pub mod webview;
pub mod window;
