//! Public information about the token, as the issuer publishes it.
use vstd::prelude::*;

verus! {

/// Failures of the public token information.
#[derive(Debug)]
pub enum PublicInfoError {
    Unavailable(String),
}

/// The text of a public information failure.
pub open spec fn public_info_error_text(e: PublicInfoError) -> Seq<char> {
    match e {
        PublicInfoError::Unavailable(m) => "issuer public information is unavailable: "@ + m@,
    }
}

impl PublicInfoError {
    /// The failure as it is reported.
    pub fn message(&self) -> (r: String)
        ensures
            r@ == public_info_error_text(*self),
    {
        match self {
            PublicInfoError::Unavailable(m) => String::from_str("issuer public information is unavailable: ").concat(
                m.as_str(),
            ),
        }
    }
}

/// The latest of three observation times.
pub open spec fn spec_latest(a: u64, b: u64, c: u64) -> u64 {
    let ab = if a >= b { a } else { b };
    if ab >= c { ab } else { c }
}

/// When the token information was last observed by the issuer: the latest of
/// the token, asset-state and ESG observation times.
pub fn latest_observation(token: u64, state: u64, esg: u64) -> (r: u64)
    ensures
        r == spec_latest(token, state, esg),
        r >= token && r >= state && r >= esg,
        r == token || r == state || r == esg,
{
    let ab = if token >= state { token } else { state };
    if ab >= esg { ab } else { esg }
}

/// `url` without the `/` characters at its end.
pub open spec fn without_trailing_slashes(url: Seq<char>) -> Seq<char>
    decreases url.len(),
{
    if url.len() > 0 && url.last() == '/' {
        without_trailing_slashes(url.drop_last())
    } else {
        url
    }
}

/// A base address as the issuer's addresses are joined to it: without the
/// `/` characters at its end.
pub fn base_url(url: &str) -> (r: String)
    ensures
        r@ == without_trailing_slashes(url@),
{
    let mut n = url.unicode_len();
    assert(url@.take(n as int) =~= url@);
    while n > 0 && url.get_char(n - 1) == '/'
        invariant
            n <= url@.len(),
            without_trailing_slashes(url@) == without_trailing_slashes(url@.take(n as int)),
        decreases n,
    {
        assert(url@.take(n as int).drop_last() =~= url@.take(n - 1));
        n = n - 1;
    }
    if n > 0 {
        assert(url@.take(n as int).last() == url@[n - 1]);
    }
    assert(without_trailing_slashes(url@.take(n as int)) == url@.take(n as int));
    assert(url@.subrange(0, n as int) =~= url@.take(n as int));
    url.substring_char(0, n).to_owned()
}

/// The address of the white paper under the issuer's public site.
pub fn white_paper_url(public_base: &str) -> (r: String)
    ensures
        r@ == public_base@ + "/white-paper"@,
{
    String::from_str(public_base).concat("/white-paper")
}

} // verus!
