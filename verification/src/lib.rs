//! Marshaling between native collections and the flat `{size, pointer}`
//! descriptors of a foreign inference engine, over a model of foreign memory
//! in which every pointer is an index into an arena of buffers.

pub mod enum_variables;
pub mod ownership;
pub mod utf8;
pub mod errors;
pub mod memory;
pub mod sequence;
pub mod descriptor;
pub mod scalar;
pub mod nested;
pub mod region;
pub mod nested_laws;
pub mod text;
pub mod text_laws;
pub mod result;
pub mod heap;
pub mod batch;
pub mod type_bridge;
pub mod heap_laws;
pub mod classify;
pub mod classify_laws;
pub mod segmentation;
pub mod segmentation_laws;
pub mod detection;
pub mod detection_laws;
pub mod ocr;
pub mod ocr_laws;
