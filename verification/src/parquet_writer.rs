//! Arrow/Parquet persistence for passive Thornwave observations.
//!
//! The writer batches samples into Arrow record batches and writes them to Parquet
//! files. Active files use a `.parquet.inprogress` suffix and are renamed to `.parquet`
//! only after the Parquet footer has been written successfully by closing the writer.
pub mod files;
pub mod layout;
pub mod naming;
pub mod rolling;
pub mod run;
pub mod table;
pub mod task;

pub use crate::parquet_writer::files::{partition_directory, roll_window_start, unique_file_paths};
pub use crate::parquet_writer::table::{arrow_schema, samples_to_record_batch};
pub use crate::parquet_writer::task::ParquetWriterConfig;
