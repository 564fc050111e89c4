pub mod seq_util;
pub mod text;
pub mod keys;
pub mod inject;
pub mod presets;
pub mod act;
pub mod vibration;
pub mod config;
pub mod device;
pub mod slots;
pub mod capture;
pub mod pad_mapping;
pub mod inject_round;
pub mod pe_export;
pub mod dialogs;
pub mod switch_key;
pub mod hid_ids;
pub mod gp_flow;
