pub mod csv_input;
pub mod csv_output;
pub mod record;
pub mod text;
pub mod round_trip;
