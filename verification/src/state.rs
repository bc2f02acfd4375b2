//! What the server keeps: rows read from the database, e-mails to send, and what
//! every page is compiled with.
pub mod compiler;
pub mod db_objects;
pub mod mail;
pub mod s3;
pub mod storage;
