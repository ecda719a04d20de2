pub mod etl_stream;
pub mod file_protocol;
pub mod table;
