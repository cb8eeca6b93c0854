pub mod inventory;
pub mod county;
pub mod search;
