//! Building the analysis prompt handed to the external analysis collaborator.
//!
//! The extraction result is rendered as one line per bookmark, framed by a
//! fixed instruction header and footer. Only the text is built here; the
//! network call that carries it is the embedding binary's business.

use vstd::prelude::*;
use vstd::string::StrSliceExecFns;
use vstd::string::StringExecFns;
use crate::Bookmark;
use crate::BookmarkModel;

verus! {

pub open spec fn prompt_header() -> Seq<char> {
    "You are an insightful analyst. Based on someone's browser bookmarks, provide a thoughtful reflection about their interests, habits, and personality. Be creative and engaging.\n\nBookmarks:\n"@
}

pub open spec fn prompt_footer() -> Seq<char> {
    "\n\nProvide a 2-3 paragraph reflection:"@
}

/// The line one bookmark contributes.
pub open spec fn line_of(b: BookmarkModel) -> Seq<char> {
    "- "@ + b.name + ": "@ + b.url
}

/// The bookmark lines joined with single newlines.
pub open spec fn lines_of(bs: Seq<BookmarkModel>) -> Seq<char>
    decreases bs.len(),
{
    if bs.len() == 0 {
        Seq::empty()
    } else if bs.len() == 1 {
        line_of(bs[0])
    } else {
        lines_of(bs.drop_last()) + "\n"@ + line_of(bs.last())
    }
}

/// The whole prompt.
pub open spec fn prompt_spec(bs: Seq<BookmarkModel>) -> Seq<char> {
    prompt_header() + lines_of(bs) + prompt_footer()
}

/// Builds the analysis prompt: every bookmark as one `- name: url` line,
/// in list order, under the fixed instruction text.
pub fn build_analysis_prompt(bookmarks: &Vec<Bookmark>) -> (r: String)
    ensures
        r@ == prompt_spec(bookmarks.deep_view()),
{
    let mut list = String::new();
    let mut i: usize = 0;
    while i < bookmarks.len()
        invariant
            i <= bookmarks.len(),
            bookmarks.deep_view().len() == bookmarks@.len(),
            list@ == lines_of(bookmarks.deep_view().subrange(0, i as int)),
        decreases bookmarks.len() - i,
    {
        if i > 0 {
            list.append("\n");
        }
        list.append("- ");
        list.append(bookmarks[i].name.as_str());
        list.append(": ");
        list.append(bookmarks[i].url.as_str());
        proof {
            let bv = bookmarks.deep_view();
            assert(bv.subrange(0, i + 1).drop_last() =~= bv.subrange(0, i as int));
            assert(bv.subrange(0, i + 1).last() == bv[i as int]);
            assert(list@ =~= lines_of(bv.subrange(0, i + 1)));
        }
        i += 1;
    }
    proof {
        assert(bookmarks.deep_view().subrange(0, bookmarks@.len() as int) =~= bookmarks.deep_view());
    }
    let mut out = String::from_str(
        "You are an insightful analyst. Based on someone's browser bookmarks, provide a thoughtful reflection about their interests, habits, and personality. Be creative and engaging.\n\nBookmarks:\n",
    );
    out.append(list.as_str());
    out.append("\n\nProvide a 2-3 paragraph reflection:");
    proof {
        assert(out@ =~= prompt_spec(bookmarks.deep_view()));
    }
    out
}

} // verus!
