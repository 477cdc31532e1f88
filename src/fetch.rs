//! The archive's addresses and what a fetched page tells before it is read:
//! whether it asks for an account, or is the archive's "not found" page.

use vstd::prelude::*;

use crate::error::Ao3Error;
use crate::scrape::{opt_strs, select_attrs, select_texts, selected_attrs, selected_texts};
use crate::names::strs;
use crate::text::{decimal, decimal_chars, string_of};

verus! {

/// The address of work `id`, or of page `page` of the listing of series `id`.
pub open spec fn page_address(id: Seq<char>, page: Option<usize>) -> Seq<char> {
    match page {
        Some(p) => "https://archiveofourown.org/series/"@ + id + "?page="@ + decimal(p as nat),
        None => "https://archiveofourown.org/works/"@ + id,
    }
}

/// The address of work `id`, or of page `page` of the listing of series `id`.
pub fn page_url(id: &str, page: Option<usize>) -> (r: String)
    ensures
        r@ == page_address(id@, page),
{
    match page {
        Some(p) => String::from_str("https://archiveofourown.org/series/").concat(id).concat(
            "?page=",
        ).concat(string_of(&decimal_chars(p as u64)).as_str()),
        None => String::from_str("https://archiveofourown.org/works/").concat(id),
    }
}

/// Where the archive sends a visitor without an account from a restricted
/// page.
pub open spec fn restricted_address() -> Seq<char> {
    "https://archiveofourown.org/users/login?restricted=true"@
}

/// What a page fetched from `final_url` with HTML `html` tells: `Restricted`
/// when the archive redirected to its login page, `NotFound` when its first
/// heading reads "Error 404", and nothing otherwise.
pub open spec fn page_status(final_url: Seq<char>, html: Seq<char>) -> Result<(), Ao3Error> {
    let headings = selected_texts(html, "h2.heading"@);
    if final_url == restricted_address() {
        Err(Ao3Error::Restricted)
    } else if headings.len() > 0 && headings[0] == "Error 404"@ {
        Err(Ao3Error::NotFound)
    } else {
        Ok(())
    }
}

/// Tells whether a page fetched from `final_url`, with HTML `html`, is a
/// restricted or a missing work or series.
pub fn check_page(final_url: &str, html: &str) -> (r: Result<(), Ao3Error>)
    ensures
        r == page_status(final_url@, html@),
{
    let restricted = String::from_str("https://archiveofourown.org/users/login?restricted=true");
    if String::from_str(final_url) == restricted {
        return Err(Ao3Error::Restricted);
    }
    let headings = select_texts(html, "h2.heading");
    if headings.len() > 0 {
        assert(strs(headings@)[0] == headings@[0]@);
        if headings[0] == String::from_str("Error 404") {
            return Err(Ao3Error::NotFound);
        }
    }
    Ok(())
}

/// The authenticity token of the archive's login form, in `html`.
pub open spec fn token_of(html: Seq<char>) -> Option<Seq<char>> {
    let values = selected_attrs(html, "input[name=authenticity_token]"@, "value"@);
    if values.len() > 0 {
        values[0]
    } else {
        None
    }
}

/// Reads the authenticity token of the login form of the login page `html`.
pub fn auth_token(html: &str) -> (r: Option<String>)
    ensures
        match r {
            Some(t) => token_of(html@) == Some(t@),
            None => token_of(html@) is None,
        },
{
    let values = select_attrs(html, "input[name=authenticity_token]", "value");
    if values.len() == 0 {
        return None;
    }
    assert(opt_strs(values@)[0] == match values@[0] {
        Some(s) => Some(s@),
        None => None,
    });
    match &values[0] {
        Some(t) => Some(t.clone()),
        None => None,
    }
}

} // verus!
