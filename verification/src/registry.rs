//! The registry lookup endpoint: one fixed "latest version" URL per
//! package, and the reading of what came back. The lookup itself is network
//! work and stays with the caller; the URL and the verdict on the response
//! are built here.

use crate::error::FetchError;
use vstd::prelude::*;

verus! {

/// The URL whose response carries a package's latest published version.
pub fn lookup_url(package_name: &str) -> (r: String)
    ensures
        r@ == "https://registry.npmjs.org/"@ + package_name@ + "/latest"@,
{
    let r = String::from_str("https://registry.npmjs.org/").concat(package_name).concat("/latest");
    proof {
        assert(r@ =~= "https://registry.npmjs.org/"@ + package_name@ + "/latest"@);
    }
    r
}

/// The verdict on one finished lookup, from what the caller observed.
///
/// `responded` says whether the request produced a response at all, and
/// `timed_out` whether the failure, if any, was the request timeout (a
/// lookup cancelled mid-flight counts as timed out too). `status_success`
/// is the response's success bit, and `body_version` the version its body
/// carried, if one could be read. A timeout wherever it struck is
/// `Timeout`; a request that got no response is `Transport`; a non-success
/// status is `NotFound`; a success whose body carried no version is
/// `Malformed`.
pub fn interpret_lookup(
    responded: bool,
    timed_out: bool,
    status_success: bool,
    body_version: Option<String>,
) -> (r: Result<String, FetchError>)
    ensures
        !responded && timed_out ==> r == Err::<String, FetchError>(FetchError::Timeout),
        !responded && !timed_out ==> r == Err::<String, FetchError>(FetchError::Transport),
        responded && !status_success ==> r == Err::<String, FetchError>(FetchError::NotFound),
        responded && status_success ==> match body_version {
            Some(v) => r == Ok::<String, FetchError>(v),
            None => {
                if timed_out {
                    r == Err::<String, FetchError>(FetchError::Timeout)
                } else {
                    r == Err::<String, FetchError>(FetchError::Malformed)
                }
            },
        },
{
    if !responded {
        if timed_out {
            Err(FetchError::Timeout)
        } else {
            Err(FetchError::Transport)
        }
    } else if !status_success {
        Err(FetchError::NotFound)
    } else {
        match body_version {
            Some(v) => Ok(v),
            None => {
                if timed_out {
                    Err(FetchError::Timeout)
                } else {
                    Err(FetchError::Malformed)
                }
            },
        }
    }
}

} // verus!
