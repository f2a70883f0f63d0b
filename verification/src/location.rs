use vstd::prelude::*;
use vstd::string::StrSliceExecFns;
use vstd::string::StringExecFns;

verus! {

/// True when the final character of `s` is the path separator `/`.
pub open spec fn has_trailing_slash(s: Seq<char>) -> bool {
    s.len() > 0 && s[s.len() - 1] == '/'
}

/// A table root must end in `/` before relative file paths are joined to
/// it. Appends the separator when it is missing and returns the location
/// unchanged otherwise.
pub fn ensure_folder_location(table_location: String) -> (r: String)
    ensures
        has_trailing_slash(table_location@) ==> r@ == table_location@,
        !has_trailing_slash(table_location@) ==> r@ == table_location@ + seq!['/'],
        has_trailing_slash(r@),
{
    let n = table_location.as_str().unicode_len();
    if n > 0 && table_location.as_str().get_char(n - 1) == '/' {
        table_location
    } else {
        proof {
            reveal_strlit("/");
            assert(("/")@ =~= seq!['/']);
        }
        table_location.concat("/")
    }
}

/// What parsing a location as an absolute URL yields: `None` when the text
/// is not an absolute URL, otherwise its path component. A function of the
/// text alone.
pub uninterp spec fn url_path_of(s: Seq<char>) -> Option<Seq<char>>;

/// Relies on `url::Url::parse` and `url::Url::path`: parsing is
/// deterministic in the text, and `path` returns the URL's path component.
#[verifier::external_body]
pub(crate) fn parse_url_path(location: &str) -> (r: Option<String>)
    ensures
        match r {
            Some(p) => url_path_of(location@) == Some(p@),
            None => url_path_of(location@) is None,
        },
{
    match url::Url::parse(location) {
        Ok(u) => Some(u.path().to_string()),
        Err(_) => None,
    }
}

} // verus!
