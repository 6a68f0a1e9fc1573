//! The reactive state core of a document viewer: stores that reduce actions
//! into state and report what each subscriber is to be told, and the page
//! worker that decides which pages of the open document to render next.

pub mod books_state;
pub mod domain;
pub mod global_state;
pub mod page_cache;
pub mod pages_state;
pub mod pdfium_manager;
pub mod pixels;
pub mod registry;
