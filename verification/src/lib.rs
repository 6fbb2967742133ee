//! Locates the "Spanish" language section inside a parsed HTML document and
//! extracts its part-of-speech subsections under two mutually exclusive page
//! layouts, normalizing heading levels so callers see one consistent shape.

pub mod dom;
pub mod extract;
pub mod headings;
pub mod laws;
pub mod lookup;
pub mod vocab;
