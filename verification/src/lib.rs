//! A small HTTP client's core: turning command-line arguments into a request,
//! and a received response into styled output.
//!
//! Nothing here touches the network or the terminal. The caller sends the
//! request that is planned here, and prints the spans that are rendered here.

pub mod args;
pub mod render;
pub mod request;
pub mod text;

pub use args::{parse_kv_pair, parse_url, ArgError, Get, KvPair, Post, SubCommand};
pub use render::{
    get_content_type, render_body, render_headers, render_resp, render_status, text_of,
    FormattingError, Header, HttpVersion, MediaType, ResponseView, Span, Style,
};
pub use request::{get_request, plan, post_request, Method, Request, RequestBody};
