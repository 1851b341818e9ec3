pub mod coverage;
pub mod encode;
pub mod jsonfields;
pub mod numerals;
pub mod policy;
pub mod request;
pub mod service;
pub mod supervisor;
