//! What the document routes decide: the format of a payload, the steps of
//! an addition, the page of a listing and the shape of a retrieved document.

pub mod addition;
pub mod payload;
pub mod projection;
pub mod retrieval;
pub mod store;
