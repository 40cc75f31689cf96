//! A small data-pipeline core: tables are built from literal columns, composed
//! by renaming, joining and projecting, handed to a query engine as a plan, and
//! written out as a columnar file.

pub mod batch;
pub mod bridge;
pub mod columnar;
pub mod datasets;
pub mod engine;
pub mod error;
pub mod schema;
pub mod sink;
pub mod table;

pub use datasets::{get_data, get_df1, get_df2, run};
pub use error::Error;
pub use sink::{write_batches_to_file, write_df_to_file};
pub use table::process_batches;
