//! Browser-family identification and bookmark-storage path resolution.
//!
//! The default-browser handler is reported by the operating system as a
//! free-text identifier. Classification lowercases it (ASCII) and matches
//! the five known tokens by substring, in a fixed priority order.

use vstd::prelude::*;

verus! {

/// One of the recognized browser families, or `Unknown`.
#[derive(Debug, Clone, Copy, PartialEq, Eq, Structural)]
pub enum Browser {
    Chrome,
    Firefox,
    Brave,
    Edge,
    Zen,
    Unknown,
}

/// ASCII lowercasing of one byte; other bytes are unchanged.
pub open spec fn lower_byte(b: u8) -> u8 {
    if 65 <= b && b <= 90 {
        (b + 32) as u8
    } else {
        b
    }
}

/// ASCII lowercasing of a byte sequence.
pub open spec fn lower_bytes(s: Seq<u8>) -> Seq<u8> {
    s.map_values(|b: u8| lower_byte(b))
}

/// Whether `tok` occurs as a contiguous subsequence of `s`.
pub open spec fn contains_token(s: Seq<u8>, tok: Seq<u8>) -> bool {
    exists|i: int|
        0 <= i && i + tok.len() <= s.len() && #[trigger] s.subrange(i, i + tok.len() as int) == tok
}

pub open spec fn zen_token() -> Seq<u8> {
    seq![122, 101, 110]
}

pub open spec fn chrome_token() -> Seq<u8> {
    seq![99, 104, 114, 111, 109, 101]
}

pub open spec fn firefox_token() -> Seq<u8> {
    seq![102, 105, 114, 101, 102, 111, 120]
}

pub open spec fn brave_token() -> Seq<u8> {
    seq![98, 114, 97, 118, 101]
}

pub open spec fn edge_token() -> Seq<u8> {
    seq![101, 100, 103, 101]
}

/// Classification of the identifier bytes: the first matching token, in the
/// priority order zen, chrome, firefox, brave, edge, decides the family.
pub open spec fn classify_spec(s: Seq<u8>) -> Browser {
    let l = lower_bytes(s);
    if contains_token(l, zen_token()) {
        Browser::Zen
    } else if contains_token(l, chrome_token()) {
        Browser::Chrome
    } else if contains_token(l, firefox_token()) {
        Browser::Firefox
    } else if contains_token(l, brave_token()) {
        Browser::Brave
    } else if contains_token(l, edge_token()) {
        Browser::Edge
    } else {
        Browser::Unknown
    }
}

/// An identifier containing "zen" classifies as `Zen`, whatever other tokens
/// (such as "chrome") it also contains: "zen" is tested first.
pub proof fn lemma_zen_priority(s: Seq<u8>)
    requires
        contains_token(lower_bytes(s), zen_token()),
    ensures
        classify_spec(s) == Browser::Zen,
{
}

fn lower_vec(s: &Vec<u8>) -> (r: Vec<u8>)
    ensures
        r@ == lower_bytes(s@),
{
    let mut r: Vec<u8> = Vec::new();
    let mut i: usize = 0;
    while i < s.len()
        invariant
            i <= s.len(),
            r@.len() == i as int,
            forall|j: int| 0 <= j < i ==> r@[j] == lower_byte(s@[j]),
        decreases s.len() - i,
    {
        let b = s[i];
        if 65 <= b && b <= 90 {
            r.push(b + 32);
        } else {
            r.push(b);
        }
        i += 1;
    }
    proof {
        assert(r@ =~= lower_bytes(s@));
    }
    r
}

fn contains_sub(hay: &Vec<u8>, needle: &Vec<u8>) -> (r: bool)
    ensures
        r == contains_token(hay@, needle@),
{
    if needle.len() > hay.len() {
        return false;
    }
    let bound = hay.len() - needle.len();
    let mut i: usize = 0;
    while i <= bound
        invariant
            bound == hay@.len() - needle@.len(),
            i <= bound + 1,
            forall|k: int|
                0 <= k < i ==> #[trigger] hay@.subrange(k, k + needle@.len() as int) != needle@,
        decreases bound + 1 - i,
    {
        let mut j: usize = 0;
        while j < needle.len() && hay[i + j] == needle[j]
            invariant
                j <= needle.len(),
                i + needle.len() <= hay.len(),
                forall|k: int| 0 <= k < j ==> hay@[i + k] == needle@[k],
            decreases needle.len() - j,
        {
            j += 1;
        }
        if j == needle.len() {
            proof {
                assert(hay@.subrange(i as int, i + needle@.len() as int) =~= needle@);
            }
            return true;
        }
        proof {
            assert(hay@.subrange(i as int, i + needle@.len() as int)[j as int] == hay@[i + j]);
        }
        i += 1;
    }
    proof {
        assert forall|k: int| !(0 <= k && k + needle@.len() <= hay@.len()
            && #[trigger] hay@.subrange(k, k + needle@.len() as int) == needle@) by {
            if 0 <= k && k + needle@.len() <= hay@.len() {
                assert(k < i);
            }
        }
    }
    false
}

impl Browser {
    /// Classifies the output of the OS default-browser query. `None` stands
    /// for a failed query and yields `Unknown`.
    pub fn detect(output: Option<&Vec<u8>>) -> (b: Browser)
        ensures
            output is None ==> b == Browser::Unknown,
            output matches Some(s) ==> b == classify_spec(s@),
    {
        match output {
            None => Browser::Unknown,
            Some(s) => {
                let low = lower_vec(s);
                let mut tok: Vec<u8> = Vec::new();
                tok.push(122);
                tok.push(101);
                tok.push(110);
                proof {
                    assert(tok@ =~= zen_token());
                }
                if contains_sub(&low, &tok) {
                    return Browser::Zen;
                }
                let mut tok: Vec<u8> = Vec::new();
                tok.push(99);
                tok.push(104);
                tok.push(114);
                tok.push(111);
                tok.push(109);
                tok.push(101);
                proof {
                    assert(tok@ =~= chrome_token());
                }
                if contains_sub(&low, &tok) {
                    return Browser::Chrome;
                }
                let mut tok: Vec<u8> = Vec::new();
                tok.push(102);
                tok.push(105);
                tok.push(114);
                tok.push(101);
                tok.push(102);
                tok.push(111);
                tok.push(120);
                proof {
                    assert(tok@ =~= firefox_token());
                }
                if contains_sub(&low, &tok) {
                    return Browser::Firefox;
                }
                let mut tok: Vec<u8> = Vec::new();
                tok.push(98);
                tok.push(114);
                tok.push(97);
                tok.push(118);
                tok.push(101);
                proof {
                    assert(tok@ =~= brave_token());
                }
                if contains_sub(&low, &tok) {
                    return Browser::Brave;
                }
                let mut tok: Vec<u8> = Vec::new();
                tok.push(101);
                tok.push(100);
                tok.push(103);
                tok.push(101);
                proof {
                    assert(tok@ =~= edge_token());
                }
                if contains_sub(&low, &tok) {
                    return Browser::Edge;
                }
                Browser::Unknown
            },
        }
    }
}

/// The fixed bookmark-file suffix under the home directory, for the
/// Chromium-family browsers.
pub open spec fn chromium_suffix(b: Browser) -> Seq<char> {
    match b {
        Browser::Chrome => "/.config/google-chrome/Default/Bookmarks"@,
        Browser::Brave => "/.config/BraveSoftware/Brave-Browser/Default/Bookmarks"@,
        Browser::Edge => "/.config/microsoft-edge/Default/Bookmarks"@,
        _ => Seq::empty(),
    }
}

/// The view of an optional home-directory value.
pub open spec fn opt_string_view(o: Option<&String>) -> Option<Seq<char>> {
    match o {
        None => None,
        Some(s) => Some(s@),
    }
}

/// The base bookmark-storage location of a family: the fixed file for
/// Chromium-family browsers, the home directory itself for Gecko-family
/// browsers, absence for `Unknown` or when the home directory is unknown.
pub open spec fn bookmark_path_spec(b: Browser, home: Option<Seq<char>>) -> Option<Seq<char>> {
    match home {
        None => None,
        Some(h) => match b {
            Browser::Chrome => Some(h + chromium_suffix(Browser::Chrome)),
            Browser::Brave => Some(h + chromium_suffix(Browser::Brave)),
            Browser::Edge => Some(h + chromium_suffix(Browser::Edge)),
            Browser::Firefox => Some(h),
            Browser::Zen => Some(h),
            Browser::Unknown => None,
        },
    }
}

/// `bookmark_path` of `Unknown` is always absent, and for a
/// Chromium-family browser the resolved path is the home directory
/// followed by the family's fixed suffix.
pub proof fn lemma_bookmark_path_shape(b: Browser, home: Option<Seq<char>>)
    ensures
        bookmark_path_spec(Browser::Unknown, home) is None,
        home matches Some(h) ==> ((b == Browser::Chrome || b == Browser::Brave || b
            == Browser::Edge) ==> bookmark_path_spec(b, home) == Some(h + chromium_suffix(b))),
{
}

impl Browser {
    /// Resolves the family to its base storage location. `home` is the value
    /// of the home-directory environment entry, or `None` when it is unset.
    pub fn bookmark_path(&self, home: Option<&String>) -> (r: Option<String>)
        ensures
            r is Some <==> bookmark_path_spec(*self, opt_string_view(home)) is Some,
            r matches Some(p) ==> bookmark_path_spec(*self, opt_string_view(home))
                == Some::<Seq<char>>(p@),
    {
        match home {
            None => None,
            Some(h) => match self {
                Browser::Chrome => {
                    let mut p = h.clone();
                    p.append("/.config/google-chrome/Default/Bookmarks");
                    Some(p)
                },
                Browser::Brave => {
                    let mut p = h.clone();
                    p.append("/.config/BraveSoftware/Brave-Browser/Default/Bookmarks");
                    Some(p)
                },
                Browser::Edge => {
                    let mut p = h.clone();
                    p.append("/.config/microsoft-edge/Default/Bookmarks");
                    Some(p)
                },
                Browser::Firefox => Some(h.clone()),
                Browser::Zen => Some(h.clone()),
                Browser::Unknown => None,
            },
        }
    }
}

} // verus!
