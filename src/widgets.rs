//! State behind the interface's widgets: text inputs, lists with a highlighted
//! row, the yes/no toggle and the connection dialog.
pub mod confirmation_toggle;
pub mod connect_dialog;
pub mod database_list;
pub mod database_name_input;
pub mod search_dialog;
pub mod selection;
pub mod user_list;
