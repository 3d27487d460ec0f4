pub mod cdp;
pub mod cli;
pub mod dom;
pub mod extract;
pub mod fetch;
pub mod js;
pub mod json;
pub mod messages;
pub mod select;
pub mod session;
pub mod snapshot;
pub mod sort;
pub mod text;
pub mod textmap;
pub mod urls;
pub mod webarena;
