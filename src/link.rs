use crate::meta::{opt_text, text_or_empty};
use crate::text::joined;
use vstd::prelude::*;

verus! {

/// What the Java side is given of a link: every field a text, empty where
/// unknown.
#[derive(Clone, Debug, PartialEq, Eq)]
pub struct LinkData {
    pub title: String,
    pub description: String,
    pub url: String,
    pub image: String,
}

/// The Open Graph preview of a page, each field as the page gave it.
#[derive(Clone, Debug, PartialEq, Eq)]
pub struct LinkPreview {
    pub title: Option<String>,
    pub description: Option<String>,
    pub url: Option<String>,
    pub image: Option<String>,
}

fn text_or_default(o: Option<String>) -> (r: String)
    ensures
        r@ == text_or_empty(opt_text(o)),
{
    match o {
        Some(s) => s,
        None => String::new(),
    }
}

impl LinkData {
    /// The data of a fetched preview; a missing field becomes empty.
    pub fn from_preview(preview: LinkPreview) -> (r: LinkData)
        ensures
            r.title@ == text_or_empty(opt_text(preview.title)),
            r.description@ == text_or_empty(opt_text(preview.description)),
            r.url@ == text_or_empty(opt_text(preview.url)),
            r.image@ == text_or_empty(opt_text(preview.image)),
    {
        LinkData {
            title: text_or_default(preview.title),
            description: text_or_default(preview.description),
            url: text_or_default(preview.url),
            image: text_or_default(preview.image),
        }
    }

    /// The data of a stored link file, which keeps no preview image.
    pub fn from_link(title: String, description: Option<String>, url: String) -> (r: LinkData)
        ensures
            r.title@ == title@,
            r.description@ == text_or_empty(opt_text(description)),
            r.url@ == url@,
            r.image@ == Seq::<char>::empty(),
    {
        LinkData { title, description: text_or_default(description), url, image: String::new() }
    }
}

/// The name of the file that stores the link whose identity is spelled `id`.
pub fn link_file_name(id: &str) -> (r: String)
    ensures
        r@ == id@ + ".link"@,
{
    joined(id, ".link")
}

} // verus!
