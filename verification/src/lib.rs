//! Turns the CSV recordings of a measuring tool into an HTML page that plots
//! every recorded attribute over time.
pub mod text;
pub mod file_parser;
pub mod file_questionary;
pub mod html_file_parser;
