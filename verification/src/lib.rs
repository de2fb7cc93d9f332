pub mod address;
pub mod attachment;
pub mod counts;
pub mod edges;
pub mod header;
pub mod naming;
pub mod parse;
pub mod report;
pub mod textfmt;
