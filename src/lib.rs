//! The fetching and parsing core of a read-it-later service: redirect
//! resolution, the status and header reader, the incremental page-title
//! scanner and the feed renderers. Every step here works on values handed
//! in; the sockets, the TLS sessions and the clock live with the caller.

pub mod bytes;
pub mod error;
pub mod text;
pub mod title;
pub mod lines;
pub mod response;
pub mod address;
pub mod fetch;
pub mod article;
pub mod feed;
pub mod html;
pub mod rss;
pub mod tls;
