//! Generation of a C++ bridge to a dynamically loaded library, from the
//! exported-function declarations of a generated C header.
pub mod text;
pub mod signature;
pub mod bridge;
pub mod laws;
pub mod plugin;
