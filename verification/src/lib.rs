pub mod text;
pub mod pathstr;
pub mod regex_ops;
pub mod filename;
pub mod version;
pub mod recipe;
pub mod paths;
pub mod state;
pub mod archive;
pub mod desktop;
pub mod install;
pub mod install_run;
pub mod configure;
pub mod checksum;
pub mod laws;
