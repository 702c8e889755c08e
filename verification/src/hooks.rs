//! The decisions of the write pipeline's hooks: which files the worker
//! transforms, and the notice that goes in front of a minified page.

use vstd::prelude::*;
use vstd::string::{StrSliceExecFns, StringExecFns};

verus! {

/// The notice in front of every minified page.
pub const MIN_HTML_HEADER: &'static str =
    "<!-- This file is minified, but you can find this site's original source at https://github.com/videogame-hacker/som.codes/ -->\n";

/// `text` ends with `suffix`.
pub open spec fn ends_with(text: Seq<char>, suffix: Seq<char>) -> bool {
    suffix.len() <= text.len() && text.subrange(text.len() - suffix.len(), text.len() as int)
        == suffix
}

/// Whether a file of this name is an HTML page, which the hooks hand to the
/// worker: its name ends with `.html`.
pub fn is_html_name(name: &str) -> (b: bool)
    ensures
        b == ends_with(name@, ".html"@),
{
    proof {
        reveal_strlit(".html");
    }
    let n: usize = name.unicode_len();
    if n < 5 {
        return false;
    }
    let matches = name.get_char(n - 5) == '.' && name.get_char(n - 4) == 'h' && name.get_char(
        n - 3,
    ) == 't' && name.get_char(n - 2) == 'm' && name.get_char(n - 1) == 'l';
    proof {
        let tail = name@.subrange(n - 5, n as int);
        if matches {
            assert(tail =~= ".html"@);
        } else {
            assert(tail[0] == name@[n - 5]);
            assert(tail[1] == name@[n - 4]);
            assert(tail[2] == name@[n - 3]);
            assert(tail[3] == name@[n - 2]);
            assert(tail[4] == name@[n - 1]);
        }
    }
    matches
}

/// A minified page with the notice in front of it.
pub fn with_source_notice(minified: &str) -> (page: String)
    ensures
        page@ == MIN_HTML_HEADER@ + minified@,
{
    let mut page = String::from_str(MIN_HTML_HEADER);
    page.append(minified);
    page
}

} // verus!
