pub mod answers;
pub mod blocks;
pub mod config;
pub mod derfile;
pub mod error;
pub mod load;
pub mod manifest;
pub mod paths;
pub mod resolve;
pub mod template;
pub mod text;
