//! Decoding, aggregation and rendering of dictionary lookup responses.
//!
//! A response body is markup whose root element lists tagged fragments of a
//! dictionary entry. The pipeline is: text, then markup tokens ([`markup`]),
//! then fragments ([`decode`]), then one aggregated record ([`record`]), then
//! the text shown to the user ([`render`]). [`lookup`] runs the pipeline from
//! end to end, and [`request`] builds the address that a response is
//! requested from.

pub mod decode;
pub mod fragment;
pub mod lookup;
pub mod markup;
pub mod record;
pub mod render;
pub mod request;
