//! Isomorphic function-splitting toolkit: a build-time transform that turns a
//! single annotated function into a server-resident callable plus a
//! client-resident stub, an extractor that lifts inline event handlers into
//! addressable entry points, the deterministic identifier scheme both sides
//! agree on, the dispatch-resolution rules, and the fail-soft remote-call
//! protocol — together with the HTML component tree the rendered pages are
//! built from.

pub mod dispatch;
pub mod extract;
pub mod hash;
pub mod html;
pub mod page;
pub mod rpc;
pub mod split;
pub mod strutil;
pub mod wire;

pub use hash::hash_id;
pub use hash::stable_hash;
pub use html::body;
pub use html::br;
pub use html::button;
pub use html::div;
pub use html::head;
pub use html::html;
pub use html::img;
pub use html::meta;
pub use html::p;
pub use html::render_to_string;
pub use html::span;
pub use html::style;
pub use html::title;
pub use html::Component;
pub use html::Element;
pub use html::Node;
pub use page::render_page;
pub use page::replace_all;
