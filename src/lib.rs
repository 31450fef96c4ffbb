//! A reading-view service: it turns a request path naming a web page into a
//! clean HTML page holding the article found there, or into an error page.

pub mod template;
pub mod page;
pub mod pipeline;
pub mod assets;
