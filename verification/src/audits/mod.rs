pub mod docs;
