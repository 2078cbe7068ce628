//! The requests sent to the SDKMAN candidates service, and the messages that
//! describe a failed request.
use vstd::prelude::*;
use crate::command::same_text;

verus! {

/// The base address of the candidates service.
pub open spec fn candidates_api() -> Seq<char> {
    "https://api.sdkman.io/2"@
}

fn api_base() -> (s: String)
    ensures
        s@ == candidates_api(),
{
    String::from_str("https://api.sdkman.io/2")
}

/// The address of the online list of all candidates.
pub fn candidates_list_url() -> (url: String)
    ensures
        url@ == candidates_api() + "/candidates/list"@,
{
    api_base().concat("/candidates/list")
}

/// The address of the online list of a candidate's versions for a platform.
pub fn versions_list_url(candidate: &str, platform: &str) -> (url: String)
    ensures
        url@ == candidates_api() + "/candidates/"@ + candidate@ + "/"@ + platform@
            + "/versions/list"@,
{
    api_base().concat("/candidates/").concat(candidate).concat("/").concat(platform).concat(
        "/versions/list",
    )
}

/// One parameter of a request's query.
#[derive(Clone, Debug, PartialEq, Eq)]
pub struct QueryParam {
    pub key: String,
    pub value: String,
}

/// The query of the version list request: the version in use (empty when there
/// is none) and the comma-separated installed versions.
pub fn versions_query(current: &Option<String>, installed_csv: &str) -> (q: Vec<QueryParam>)
    ensures
        q@.len() == 2,
        q@[0].key@ == "current"@,
        q@[0].value@ == match current {
            Some(c) => c@,
            None => Seq::empty(),
        },
        q@[1].key@ == "installed"@,
        q@[1].value@ == installed_csv@,
{
    let current_value = match current {
        Some(c) => c.clone(),
        None => String::new(),
    };
    let mut q: Vec<QueryParam> = Vec::new();
    q.push(QueryParam { key: String::from_str("current"), value: current_value });
    q.push(QueryParam { key: String::from_str("installed"), value: String::from_str(installed_csv) });
    q
}

/// The user agent the requests are sent with.
pub fn user_agent(version: &str) -> (ua: String)
    ensures
        ua@ == "sdkman-cli-native/"@ + version@,
{
    String::from_str("sdkman-cli-native/").concat(version)
}

/// Whether an HTTP status code is in the success class (200 to 299).
pub fn is_success_status(code: u16) -> (ok: bool)
    ensures
        ok == (200 <= code && code <= 299),
{
    200 <= code && code <= 299
}

/// How a request failed before a response came.
#[derive(Clone, Debug, PartialEq, Eq)]
pub enum HttpFailure {
    /// No response within the time limit.
    Timeout,
    /// No connection could be made.
    Connect,
    /// Any other failure, with its description.
    Other(String),
}

/// The message for a request that got no response.
pub fn http_failure_message(failure: &HttpFailure) -> (msg: String)
    ensures
        msg@ == match failure {
            HttpFailure::Timeout => "Request timed out after 10 seconds"@,
            HttpFailure::Connect => "Failed to connect to API - check your internet connection"@,
            HttpFailure::Other(d) => "Network error: "@ + d@,
        },
{
    match failure {
        HttpFailure::Timeout => String::from_str("Request timed out after 10 seconds"),
        HttpFailure::Connect => String::from_str(
            "Failed to connect to API - check your internet connection",
        ),
        HttpFailure::Other(d) => String::from_str("Network error: ").concat(d.as_str()),
    }
}

/// The message for an HTTP client that could not be created.
pub fn client_failure_message(detail: &str) -> (msg: String)
    ensures
        msg@ == "Failed to create HTTP client: "@ + detail@,
{
    String::from_str("Failed to create HTTP client: ").concat(detail)
}

/// The message for a response whose status is not a success; `status` is the
/// status as printed, such as `404 Not Found`.
pub fn status_failure_message(status: &str) -> (msg: String)
    ensures
        msg@ == "API request failed with status: "@ + status@,
{
    String::from_str("API request failed with status: ").concat(status)
}

/// The message for a response whose body could not be read.
pub fn read_failure_message(detail: &str) -> (msg: String)
    ensures
        msg@ == "Failed to read response: "@ + detail@,
{
    String::from_str("Failed to read response: ").concat(detail)
}

/// The service's name for a platform, from the operating system and the
/// processor architecture as Rust names them; `exotic` for any other.
pub open spec fn platform_model(os: Seq<char>, arch: Seq<char>) -> Seq<char> {
    if os == "linux"@ && arch == "x86_64"@ {
        "linuxx64"@
    } else if os == "linux"@ && arch == "aarch64"@ {
        "linuxarm64"@
    } else if os == "linux"@ && arch == "arm"@ {
        "linuxarm32hf"@
    } else if os == "linux"@ && arch == "x86"@ {
        "linuxx32"@
    } else if os == "macos"@ && arch == "x86_64"@ {
        "darwinx64"@
    } else if os == "macos"@ && arch == "aarch64"@ {
        "darwinarm64"@
    } else if os == "windows"@ && arch == "x86_64"@ {
        "windowsx64"@
    } else {
        "exotic"@
    }
}

/// Whether `s` ends with `suffix`.
pub open spec fn ends_with(s: Seq<char>, suffix: Seq<char>) -> bool {
    suffix.len() <= s.len() && s.skip(s.len() - suffix.len()) == suffix
}

/// Whether `s` starts with `prefix`.
pub open spec fn starts_with(s: Seq<char>, prefix: Seq<char>) -> bool {
    prefix.len() <= s.len() && s.take(prefix.len() as int) == prefix
}

/// Each platform name other than `exotic` comes from one system only.
proof fn lemma_platform_inverse(os: Seq<char>, arch: Seq<char>)
    ensures
        platform_model(os, arch) == "linuxx64"@ ==> os == "linux"@ && arch == "x86_64"@,
        platform_model(os, arch) == "linuxarm64"@ ==> os == "linux"@ && arch == "aarch64"@,
        platform_model(os, arch) == "linuxarm32hf"@ ==> os == "linux"@ && arch == "arm"@,
        platform_model(os, arch) == "linuxx32"@ ==> os == "linux"@ && arch == "x86"@,
        platform_model(os, arch) == "darwinx64"@ ==> os == "macos"@ && arch == "x86_64"@,
        platform_model(os, arch) == "darwinarm64"@ ==> os == "macos"@ && arch == "aarch64"@,
        platform_model(os, arch) == "windowsx64"@ ==> os == "windows"@ && arch == "x86_64"@,
{
    reveal_strlit("linuxx64");
    reveal_strlit("linuxarm64");
    reveal_strlit("linuxarm32hf");
    reveal_strlit("linuxx32");
    reveal_strlit("darwinx64");
    reveal_strlit("darwinarm64");
    reveal_strlit("windowsx64");
    reveal_strlit("exotic");
    assert("linuxx64"@ != "linuxarm64"@) by {
        assert("linuxx64"@.len() != "linuxarm64"@.len());
    }
    assert("linuxx64"@ != "linuxarm32hf"@) by {
        assert("linuxx64"@.len() != "linuxarm32hf"@.len());
    }
    assert("linuxx64"@ != "linuxx32"@) by {
        assert("linuxx64"@[6] != "linuxx32"@[6]);
    }
    assert("linuxx64"@ != "darwinx64"@) by {
        assert("linuxx64"@.len() != "darwinx64"@.len());
    }
    assert("linuxx64"@ != "darwinarm64"@) by {
        assert("linuxx64"@.len() != "darwinarm64"@.len());
    }
    assert("linuxx64"@ != "windowsx64"@) by {
        assert("linuxx64"@.len() != "windowsx64"@.len());
    }
    assert("linuxx64"@ != "exotic"@) by {
        assert("linuxx64"@.len() != "exotic"@.len());
    }
    assert("linuxarm64"@ != "linuxarm32hf"@) by {
        assert("linuxarm64"@.len() != "linuxarm32hf"@.len());
    }
    assert("linuxarm64"@ != "linuxx32"@) by {
        assert("linuxarm64"@.len() != "linuxx32"@.len());
    }
    assert("linuxarm64"@ != "darwinx64"@) by {
        assert("linuxarm64"@.len() != "darwinx64"@.len());
    }
    assert("linuxarm64"@ != "darwinarm64"@) by {
        assert("linuxarm64"@.len() != "darwinarm64"@.len());
    }
    assert("linuxarm64"@ != "windowsx64"@) by {
        assert("linuxarm64"@[0] != "windowsx64"@[0]);
    }
    assert("linuxarm64"@ != "exotic"@) by {
        assert("linuxarm64"@.len() != "exotic"@.len());
    }
    assert("linuxarm32hf"@ != "linuxx32"@) by {
        assert("linuxarm32hf"@.len() != "linuxx32"@.len());
    }
    assert("linuxarm32hf"@ != "darwinx64"@) by {
        assert("linuxarm32hf"@.len() != "darwinx64"@.len());
    }
    assert("linuxarm32hf"@ != "darwinarm64"@) by {
        assert("linuxarm32hf"@.len() != "darwinarm64"@.len());
    }
    assert("linuxarm32hf"@ != "windowsx64"@) by {
        assert("linuxarm32hf"@.len() != "windowsx64"@.len());
    }
    assert("linuxarm32hf"@ != "exotic"@) by {
        assert("linuxarm32hf"@.len() != "exotic"@.len());
    }
    assert("linuxx32"@ != "darwinx64"@) by {
        assert("linuxx32"@.len() != "darwinx64"@.len());
    }
    assert("linuxx32"@ != "darwinarm64"@) by {
        assert("linuxx32"@.len() != "darwinarm64"@.len());
    }
    assert("linuxx32"@ != "windowsx64"@) by {
        assert("linuxx32"@.len() != "windowsx64"@.len());
    }
    assert("linuxx32"@ != "exotic"@) by {
        assert("linuxx32"@.len() != "exotic"@.len());
    }
    assert("darwinx64"@ != "darwinarm64"@) by {
        assert("darwinx64"@.len() != "darwinarm64"@.len());
    }
    assert("darwinx64"@ != "windowsx64"@) by {
        assert("darwinx64"@.len() != "windowsx64"@.len());
    }
    assert("darwinx64"@ != "exotic"@) by {
        assert("darwinx64"@.len() != "exotic"@.len());
    }
    assert("darwinarm64"@ != "windowsx64"@) by {
        assert("darwinarm64"@.len() != "windowsx64"@.len());
    }
    assert("darwinarm64"@ != "exotic"@) by {
        assert("darwinarm64"@.len() != "exotic"@.len());
    }
    assert("windowsx64"@ != "exotic"@) by {
        assert("windowsx64"@.len() != "exotic"@.len());
    }
}

/// A platform's name names the running system: two platforms that are not
/// `exotic` share a name only when both their operating system and their
/// architecture agree; the name of a macOS platform starts with `darwin`, of a
/// Linux one with `linux`, of a Windows one with `windows`; on `x86_64` it ends
/// with `x64`, on `aarch64` with `arm64`.
pub proof fn law_platform_names_the_system(os: Seq<char>, arch: Seq<char>, os2: Seq<char>, arch2: Seq<char>)
    ensures
        platform_model(os, arch) != "exotic"@ && platform_model(os, arch) == platform_model(os2, arch2)
            ==> os == os2 && arch == arch2,
        platform_model(os, arch) != "exotic"@ && os == "macos"@ ==> starts_with(platform_model(os, arch), "darwin"@),
        platform_model(os, arch) != "exotic"@ && os == "linux"@ ==> starts_with(platform_model(os, arch), "linux"@),
        platform_model(os, arch) != "exotic"@ && os == "windows"@ ==> starts_with(platform_model(os, arch), "windows"@),
        platform_model(os, arch) != "exotic"@ && arch == "x86_64"@ ==> ends_with(platform_model(os, arch), "x64"@),
        platform_model(os, arch) != "exotic"@ && arch == "aarch64"@ ==> ends_with(platform_model(os, arch), "arm64"@),
{
    reveal_strlit("linux");
    reveal_strlit("macos");
    reveal_strlit("windows");
    reveal_strlit("x86_64");
    reveal_strlit("aarch64");
    reveal_strlit("arm");
    reveal_strlit("x86");
    reveal_strlit("linuxx64");
    reveal_strlit("linuxarm64");
    reveal_strlit("linuxarm32hf");
    reveal_strlit("linuxx32");
    reveal_strlit("darwinx64");
    reveal_strlit("darwinarm64");
    reveal_strlit("windowsx64");
    reveal_strlit("exotic");
    reveal_strlit("darwin");
    reveal_strlit("windows");
    reveal_strlit("x64");
    reveal_strlit("arm64");
    assert("macos"@ != "linux"@) by {
        assert("macos"@[0] != "linux"@[0]);
    }
    assert("arm"@ != "x86"@) by {
        assert("arm"@[0] != "x86"@[0]);
    }
    assert("macos"@ != "windows"@) by {
        assert("macos"@.len() != "windows"@.len());
    }
    assert("linux"@ != "windows"@) by {
        assert("linux"@.len() != "windows"@.len());
    }
    assert("x86_64"@ != "aarch64"@) by {
        assert("x86_64"@.len() != "aarch64"@.len());
    }
    assert("x86_64"@ != "arm"@) by {
        assert("x86_64"@.len() != "arm"@.len());
    }
    assert("x86_64"@ != "x86"@) by {
        assert("x86_64"@.len() != "x86"@.len());
    }
    assert("aarch64"@ != "arm"@) by {
        assert("aarch64"@.len() != "arm"@.len());
    }
    assert("aarch64"@ != "x86"@) by {
        assert("aarch64"@.len() != "x86"@.len());
    }
    lemma_platform_inverse(os, arch);
    lemma_platform_inverse(os2, arch2);
    let p = platform_model(os, arch);
    if p != "exotic"@ {
        if os == "macos"@ {
            if arch == "x86_64"@ {
                assert(p == "darwinx64"@);
                assert(p.take(6) =~= "darwin"@);
            } else {
                assert(p == "darwinarm64"@);
                assert(p.take(6) =~= "darwin"@);
            }
        }
        if os == "linux"@ {
            assert(p.take(5) =~= "linux"@);
        }
        if os == "windows"@ {
            assert(p.take(7) =~= "windows"@);
        }
        if arch == "x86_64"@ {
            assert(p.skip(p.len() - 3) =~= "x64"@);
        }
        if arch == "aarch64"@ {
            if os == "linux"@ {
                assert(p == "linuxarm64"@);
                assert(p.skip(p.len() - 5) =~= "arm64"@);
            } else {
                assert(p == "darwinarm64"@);
                assert(p.skip(p.len() - 5) =~= "arm64"@);
            }
        }
    }
}

/// The service's name for the platform `os`/`arch`.
pub fn platform_id(os: &str, arch: &str) -> (p: String)
    ensures
        p@ == platform_model(os@, arch@),
{
    if same_text(os, "linux") && same_text(arch, "x86_64") {
        String::from_str("linuxx64")
    } else if same_text(os, "linux") && same_text(arch, "aarch64") {
        String::from_str("linuxarm64")
    } else if same_text(os, "linux") && same_text(arch, "arm") {
        String::from_str("linuxarm32hf")
    } else if same_text(os, "linux") && same_text(arch, "x86") {
        String::from_str("linuxx32")
    } else if same_text(os, "macos") && same_text(arch, "x86_64") {
        String::from_str("darwinx64")
    } else if same_text(os, "macos") && same_text(arch, "aarch64") {
        String::from_str("darwinarm64")
    } else if same_text(os, "windows") && same_text(arch, "x86_64") {
        String::from_str("windowsx64")
    } else {
        String::from_str("exotic")
    }
}

} // verus!
