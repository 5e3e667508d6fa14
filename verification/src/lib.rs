//! Incremental construction of URL strings.
//!
//! A [`URLBuilder`] accumulates the parts of a URL — protocol, host,
//! port, path segments and query parameters — through chainable
//! setter calls, and renders them into one string on
//! [`URLBuilder::build`], which consumes the builder. Every operation
//! carries a contract over a mathematical view of the accumulated
//! state ([`UrlParts`]), and the rendering is proved to spell exactly
//! the text that [`render_url`] describes.
//!
//! Nothing is validated or escaped: the builder concatenates whatever
//! text it is given, and an empty protocol or host is rendered as-is.
//! A port of 0 is a sentinel meaning "no port", so the port segment is
//! omitted for it. Query parameters are kept in the order their names
//! were first added — a deliberate, documented refinement of an
//! unordered mapping — and a second value for the same name replaces
//! the first in place, so rendering is deterministic. Every rendered
//! parameter is followed by `&`, the last one included.

mod builder;
mod digits;
mod laws;
mod model;
mod render;

pub use builder::URLBuilder;
pub use digits::decimal_string;
pub use laws::lemma_insert_param_wf;
pub use laws::lemma_last_value_wins;
pub use laws::lemma_nonzero_port_after_host;
pub use laws::lemma_param_appears;
pub use laws::lemma_params_text_is_chunks;
pub use laws::lemma_query_marks;
pub use laws::lemma_render_protocol_host;
pub use laws::lemma_route_append;
pub use laws::lemma_route_text_in_order;
pub use laws::lemma_zero_port_omitted;
pub use model::has_param;
pub use model::insert_param;
pub use model::params_wf;
pub use model::UrlParts;
pub use render::dec_digits;
pub use render::digit_char;
pub use render::param_chunk;
pub use render::params_text;
pub use render::port_text;
pub use render::query_text;
pub use render::render_url;
pub use render::route_text;
pub use render::scheme_sep;
