//! Fetching and reading encyclopedia articles: the request and response
//! framing of the transport, the rules that turn a parsed page into an article
//! record, and the resolution of a search query into article addresses.

pub mod dom;
pub mod extract;
pub mod http;
pub mod images;
pub mod links;
pub mod page;
pub mod report;
pub mod search;
pub mod sequences;
pub mod session;
pub mod summary;
pub mod text;
pub mod transport;
pub mod url;
