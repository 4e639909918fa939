//! Dense integer matrices, their product computed cell by cell, and the
//! task protocol that lets a pool of workers compute those cells.
pub mod dispatch;
pub mod error;
pub mod matrix;
pub mod metric;
pub mod text;
pub mod vector;
