//! The broadcast that a connection asks for: the path of the address it
//! connects to, without the slashes at either end.
use vstd::prelude::*;
use vstd::string::StrSliceExecFns;

use crate::text::str_to_string;

verus! {

/// `s` without the slashes at its front.
pub open spec fn spec_trim_front(s: Seq<char>) -> Seq<char>
    decreases s.len(),
{
    if s.len() > 0 && s[0] == '/' {
        spec_trim_front(s.skip(1))
    } else {
        s
    }
}

/// `s` without the slashes at its back.
pub open spec fn spec_trim_back(s: Seq<char>) -> Seq<char>
    decreases s.len(),
{
    if s.len() > 0 && s.last() == '/' {
        spec_trim_back(s.drop_last())
    } else {
        s
    }
}

/// `s` without the slashes at either end.
pub open spec fn spec_trim_slashes(s: Seq<char>) -> Seq<char> {
    spec_trim_back(spec_trim_front(s))
}

/// The name of the broadcast that a connection to `path` asks for: the path
/// without the slashes at either end.
pub fn broadcast_name(path: &str) -> (name: String)
    ensures
        name@ == spec_trim_slashes(path@),
{
    let n = path.unicode_len();
    let mut i: usize = 0;
    assert(path@.skip(0) =~= path@);
    while i < n && path.get_char(i) == '/'
        invariant
            n == path@.len(),
            i <= n,
            spec_trim_front(path@) == spec_trim_front(path@.skip(i as int)),
        decreases n - i,
    {
        assert(path@.skip(i as int).skip(1) =~= path@.skip(i + 1));
        i += 1;
    }
    assert(spec_trim_front(path@) == path@.skip(i as int));
    let mut j: usize = n;
    assert(path@.skip(i as int) =~= path@.subrange(i as int, j as int));
    while j > i && path.get_char(j - 1) == '/'
        invariant
            n == path@.len(),
            i <= j <= n,
            spec_trim_slashes(path@) == spec_trim_back(path@.subrange(i as int, j as int)),
        decreases j,
    {
        assert(path@.subrange(i as int, j as int).drop_last() =~= path@.subrange(
            i as int,
            j - 1,
        ));
        j -= 1;
    }
    str_to_string(path.substring_char(i, j))
}

/// What `Url::path` of the `url` crate gives for the URL that `url`
/// spells: its path in percent-encoded form, or nothing where `url` is no
/// absolute URL.
pub uninterp spec fn spec_url_path(url: Seq<char>) -> Option<Seq<char>>;

/// `Url::path` of the `url` crate, on the URL that `url` spells. The
/// contract only names the result; it claims that one text always gives
/// one result.
#[verifier::external_body]
fn url_path(url: &str) -> (r: Result<String, url::ParseError>)
    ensures
        match r {
            Ok(p) => spec_url_path(url@) == Some(p@),
            Err(_) => spec_url_path(url@) is None,
        },
{
    let parsed = url::Url::parse(url)?;
    Ok(parsed.path().to_string())
}

/// The name of the broadcast that a connection asks for, given the path of
/// the address it connects to, if the address has one.
pub fn name_from_path(path: Option<&str>) -> (name: Option<String>)
    ensures
        match name {
            Some(n) => path matches Some(p) && n@ == spec_trim_slashes(p@),
            None => path is None,
        },
{
    match path {
        Some(p) => Some(broadcast_name(p)),
        None => None,
    }
}

/// The name of the broadcast that a connection to the address `url` asks
/// for: the path of the address without the slashes at either end, or
/// nothing where `url` is no absolute URL.
pub fn requested_broadcast(url: &str) -> (name: Option<String>)
    ensures
        match name {
            Some(n) => spec_url_path(url@) matches Some(p) && n@ == spec_trim_slashes(p),
            None => spec_url_path(url@) is None,
        },
{
    match url_path(url) {
        Ok(p) => name_from_path(Some(p.as_str())),
        Err(_) => name_from_path(None),
    }
}

} // verus!
