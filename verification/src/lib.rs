pub mod text;
pub mod model;
pub mod parser;
pub mod writer;
pub mod ipaddr;
pub mod validate;
pub mod help;
pub mod key;
pub mod input;
pub mod roundtrip;
pub mod reading;
pub mod state;
pub mod app;
