//! Reading the binary class-file format.

pub mod attribute_info;
pub mod attribute_view;
pub mod class_file_stream;
pub mod diagnostics;
pub mod error;
pub mod format;
pub mod lemmas;
