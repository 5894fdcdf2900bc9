pub mod text;
pub mod number;
pub mod alert;
pub mod cpu;
pub mod logfile;
pub mod cpu_load;
pub mod memory;
pub mod battery;
pub mod network;
pub mod temperature;
pub mod json;
pub mod ip;
pub mod status;
pub mod laws;
pub mod reading_laws;
pub mod cpu_laws;
pub mod segment_laws;
pub mod text_laws;
