pub mod richards;
pub mod som;
