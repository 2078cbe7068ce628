//! What the `list` command was asked to do, and whether it goes online.
use vstd::prelude::*;
use crate::listing::ListError;
use crate::order::string_views;

verus! {

/// The listing the command was asked for.
#[derive(Clone, Debug, PartialEq, Eq)]
pub enum Request {
    /// `list`: all candidates.
    AllCandidates,
    /// `list <candidate>`: the candidate's versions, online when possible.
    Versions(String),
    /// `list <candidate> installed`: the installed versions only.
    Installed(String),
}

/// The one subcommand that `list <candidate>` accepts.
pub open spec fn installed_subcommand() -> Seq<char> {
    "installed"@
}

/// Whether `a` and `b` hold the same text.
pub fn same_text(a: &str, b: &str) -> (r: bool)
    ensures
        r == (a@ == b@),
{
    String::from_str(a) == String::from_str(b)
}

/// The candidate, when it is one of the known candidates; otherwise the error
/// that names it.
pub fn validate_candidate(known: &Vec<String>, candidate: &str) -> (r: Result<String, ListError>)
    ensures
        string_views(known@).contains(candidate@) ==> (r matches Ok(c) && c@ == candidate@),
        !string_views(known@).contains(candidate@) ==> (r matches Err(
            ListError::InvalidCandidate(c),
        ) && c@ == candidate@),
{
    let wanted = String::from_str(candidate);
    let n = known.len();
    let mut i: usize = 0;
    while i < n
        invariant
            n == known@.len(),
            i <= n,
            wanted@ == candidate@,
            forall|k: int| 0 <= k < i ==> known@[k]@ != candidate@,
        decreases n - i,
    {
        if known[i] == wanted {
            assert(string_views(known@)[i as int] == candidate@);
            return Ok(wanted);
        }
        i = i + 1;
    }
    assert(!string_views(known@).contains(candidate@)) by {
        if string_views(known@).contains(candidate@) {
            let k = choose|k: int| 0 <= k < n && string_views(known@)[k] == candidate@;
            assert(known@[k]@ == candidate@);
        }
    }
    Err(ListError::InvalidCandidate(wanted))
}

/// Reads the command line: no candidate lists all candidates; a candidate must
/// be a known one; then no subcommand lists its versions, `installed` its
/// installed versions, and any other word is refused.
pub fn plan_request(
    candidate: Option<String>,
    subcommand: Option<String>,
    known: &Vec<String>,
) -> (r: Result<Request, ListError>)
    ensures
        match candidate {
            None => r matches Ok(Request::AllCandidates),
            Some(c) => if !string_views(known@).contains(c@) {
                r matches Err(ListError::InvalidCandidate(x)) && x@ == c@
            } else {
                match subcommand {
                    None => r matches Ok(Request::Versions(x)) && x@ == c@,
                    Some(s) => if s@ == installed_subcommand() {
                        r matches Ok(Request::Installed(x)) && x@ == c@
                    } else {
                        r matches Err(ListError::UnknownSubcommand(x)) && x@ == s@
                    },
                }
            },
        },
{
    match candidate {
        None => Ok(Request::AllCandidates),
        Some(c) => {
            let c = match validate_candidate(known, c.as_str()) {
                Ok(c) => c,
                Err(e) => {
                    return Err(e);
                },
            };
            match subcommand {
                None => Ok(Request::Versions(c)),
                Some(s) => {
                    if same_text(s.as_str(), "installed") {
                        Ok(Request::Installed(c))
                    } else {
                        Err(ListError::UnknownSubcommand(s))
                    }
                },
            }
        },
    }
}

/// Whether offline mode is set: the setting's value is exactly `true`.
pub fn offline_mode(setting: &Option<String>) -> (offline: bool)
    ensures
        offline == (setting.deep_view() == Some("true"@)),
{
    match setting {
        Some(v) => same_text(v.as_str(), "true"),
        None => false,
    }
}

/// Whether the request asks the online service first: listing all candidates
/// or a candidate's versions does, unless offline; listing the installed
/// versions never does.
pub fn should_fetch(request: &Request, offline: bool) -> (fetch: bool)
    ensures
        fetch == (!offline && !(request is Installed)),
{
    match request {
        Request::Installed(_) => false,
        _ => !offline,
    }
}

} // verus!
