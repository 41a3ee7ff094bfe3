//! Extraction of a user's bookmarks from the default web browser.
//!
//! The library normalizes two storage formats — the JSON bookmark tree of
//! Chromium-family browsers and the relational store of Gecko-family
//! browsers — into one flat list of `Bookmark` records. All decisions
//! (browser classification, path resolution, profile lookup, tree walking,
//! row filtering) are verified; the surrounding process, file and network
//! I/O is left to the embedding binary, which hands plain values in and out.

use vstd::prelude::*;

pub mod browser;
pub mod chromium;
pub mod extract;
pub mod gecko;
pub mod prompt;

verus! {

/// One canonical bookmark record: a display name and a URL.
#[derive(Debug, Clone)]
pub struct Bookmark {
    pub name: String,
    pub url: String,
}

/// The mathematical model of a bookmark: name and URL as character sequences.
pub struct BookmarkModel {
    pub name: Seq<char>,
    pub url: Seq<char>,
}

impl View for Bookmark {
    type V = BookmarkModel;

    open spec fn view(&self) -> BookmarkModel {
        BookmarkModel { name: self.name@, url: self.url@ }
    }
}

impl DeepView for Bookmark {
    type V = BookmarkModel;

    open spec fn deep_view(&self) -> BookmarkModel {
        self.view()
    }
}

} // verus!
