//! Core logic of a comic and e-book server: OPDS link descriptions and the
//! bookkeeping of a library scan.

pub mod text;
pub mod paths;
pub mod xml_writer;

pub mod model;
pub mod series_map;
pub mod library_scanner;
pub mod precheck;
pub mod opds_link;
