pub mod bench;
pub mod cert;
pub mod clock;
pub mod content;
pub mod data;
pub mod discovery;
pub mod interact;
pub mod jsonio;
pub mod laws;
pub mod matcher;
pub mod render;
pub mod reporters;
pub mod vars;
pub mod runner;
pub mod rx;
pub mod sender;
pub mod shell;
pub mod table;
pub mod text;
