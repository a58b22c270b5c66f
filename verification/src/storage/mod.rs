pub mod csv_reader;
pub mod csv_writer;
