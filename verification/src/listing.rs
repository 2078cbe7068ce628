//! What the `list` command shows: the local list of candidates, the versions
//! installed for a candidate, the notices printed when the online service cannot
//! be reached, and the error messages.
use vstd::prelude::*;
use crate::order::{sorted_descending, string_views, sort_descending};
use crate::text::{
    Line, Span, Style, lines_view, line_text, single, rule_line, rule, single_line, empty_line, push_line,
    span, line_of,
};

verus! {

/// Why a listing cannot be shown. Each of these ends the command with exit code 1.
#[derive(Clone, Debug, PartialEq, Eq)]
pub enum ListError {
    /// The candidate is not among the known candidates.
    InvalidCandidate(String),
    /// The word after the candidate is not a known subcommand.
    UnknownSubcommand(String),
    /// The candidate has no directory of installed versions.
    NotInstalled(String),
    /// The candidate's directory could not be read.
    ReadFailed(String),
}

/// What was found where a candidate's versions are installed.
#[derive(Clone, Debug, PartialEq, Eq)]
pub enum InstalledScan {
    /// The candidate directory does not exist, or is not a directory.
    Missing,
    /// The candidate directory exists but could not be read.
    Unreadable,
    /// The names of the installed versions, in the order the directory gave them.
    Found(Vec<String>),
}

/// Which online listing could not be fetched.
#[derive(Clone, Copy, Debug, PartialEq, Eq)]
pub enum FetchKind {
    Candidates,
    Versions,
}

/// What the command prints, and how it ends.
#[derive(Clone, Debug, PartialEq, Eq)]
pub struct Screen {
    pub stdout: Vec<Line>,
    pub stderr: Vec<Line>,
    pub exit_code: i32,
}

// ----- models -----

/// The message shown for an unknown candidate.
pub open spec fn invalid_candidate_message(c: Seq<char>) -> Seq<(Seq<char>, Style)> {
    seq![(c, Style::Bold), (" is not a valid candidate."@, Style::Plain)]
}

/// The message shown for an unknown subcommand.
pub open spec fn unknown_subcommand_message(s: Seq<char>) -> Seq<(Seq<char>, Style)> {
    seq![
        ("Unknown subcommand: '"@, Style::Plain),
        (s, Style::Bold),
        ("'. Valid subcommands: "@, Style::Plain),
        ("installed"@, Style::Italic),
    ]
}

/// The message shown for a candidate that is not installed.
pub open spec fn not_installed_message(c: Seq<char>) -> Seq<(Seq<char>, Style)> {
    seq![(c, Style::Bold), (" is not installed."@, Style::Plain)]
}

/// The message shown when a candidate's directory cannot be read.
pub open spec fn read_failed_message(c: Seq<char>) -> Seq<(Seq<char>, Style)> {
    seq![("Failed to read "@, Style::Plain), (c, Style::Bold), (" versions."@, Style::Plain)]
}

/// The model of an error's message line.
pub open spec fn error_message(e: ListError) -> Seq<(Seq<char>, Style)> {
    match e {
        ListError::InvalidCandidate(c) => invalid_candidate_message(c@),
        ListError::UnknownSubcommand(s) => unknown_subcommand_message(s@),
        ListError::NotInstalled(c) => not_installed_message(c@),
        ListError::ReadFailed(c) => read_failed_message(c@),
    }
}

/// The hint on how to list a candidate's versions.
pub open spec fn usage_hint() -> Seq<(Seq<char>, Style)> {
    seq![
        ("Use "@, Style::Plain),
        ("sdk list <candidate>"@, Style::Italic),
        (" to see versions for a specific candidate"@, Style::Plain),
    ]
}

/// The row of one candidate in the local listing.
pub open spec fn candidate_row(name: Seq<char>) -> Seq<(Seq<char>, Style)> {
    single("   "@ + name, Style::Plain)
}

/// The listing of the candidates known locally, in the order given.
pub open spec fn local_candidates_model(names: Seq<Seq<char>>) -> Seq<Seq<(Seq<char>, Style)>> {
    seq![
        rule_line(),
        single("Available Candidates (local cache)"@, Style::Yellow),
        rule_line(),
        Seq::empty(),
    ] + names.map_values(|n: Seq<char>| candidate_row(n)) + seq![
        Seq::empty(),
        rule_line(),
        usage_hint(),
        single("Note: For full candidate details with descriptions, use the online version"@, Style::Dimmed),
        rule_line(),
    ]
}

/// The row of one installed version: `>` marks the version in use, `*` the others.
pub open spec fn version_row(current: Option<Seq<char>>, version: Seq<char>) -> Seq<(Seq<char>, Style)> {
    if current == Some(version) {
        single(" > "@ + version, Style::Plain)
    } else {
        single(" * "@ + version, Style::Plain)
    }
}

/// The heading of the installed-versions listing.
pub open spec fn installed_heading(candidate: Seq<char>) -> Seq<char> {
    "Offline: only showing installed "@ + candidate + " versions"@
}

/// The listing of installed versions, shown in the order given.
pub open spec fn installed_listing_model(
    candidate: Seq<char>,
    current: Option<Seq<char>>,
    order: Seq<Seq<char>>,
) -> Seq<Seq<(Seq<char>, Style)>> {
    seq![rule_line(), single(installed_heading(candidate), Style::Yellow), rule_line()] + (if order.len()
        == 0 {
        seq![single("   None installed!"@, Style::Yellow)]
    } else {
        order.map_values(|v: Seq<char>| version_row(current, v))
    }) + seq![
        rule_line(),
        single("* - installed                                                                   "@, Style::Plain),
        single("> - currently in use                                                            "@, Style::Plain),
        rule_line(),
    ]
}

/// Whether a row's text starts with the in-use mark `" > "`.
pub open spec fn marked_in_use(row: Seq<(Seq<char>, Style)>) -> bool {
    line_text(row).take(3) == " > "@
}

/// The text of a one-span line is that span's text.
proof fn lemma_single_text(t: Seq<char>, style: Style)
    ensures
        line_text(single(t, style)) == t,
{
    let l = single(t, style);
    let e = Seq::<(Seq<char>, Style)>::empty();
    assert(l.drop_last() =~= e);
    assert(line_text(e) =~= Seq::<char>::empty());
    assert(l.last().0 == t);
    assert(line_text(l) == line_text(l.drop_last()) + l.last().0);
    assert(Seq::<char>::empty() + t =~= t);
}

/// In the listing of installed versions, the row of version `v` reads
/// `" > "` and `v` when `v` is the version in use, and `" * "` and `v`
/// otherwise; so the row of any version other than the one in use is not
/// marked, and of distinct versions at most one row is marked in use.
pub proof fn law_only_version_in_use_is_marked(
    candidate: Seq<char>,
    current: Option<Seq<char>>,
    order: Seq<Seq<char>>,
)
    ensures
        forall|k: int|
            0 <= k < order.len() ==> line_text(
                #[trigger] installed_listing_model(candidate, current, order)[3 + k],
            ) == (if current == Some(order[k]) {
                " > "@
            } else {
                " * "@
            }) + order[k],
        forall|k: int|
            0 <= k < order.len() ==> (marked_in_use(
                #[trigger] installed_listing_model(candidate, current, order)[3 + k],
            ) <==> current == Some(order[k])),
        order.no_duplicates() ==> forall|k1: int, k2: int|
            0 <= k1 < order.len() && 0 <= k2 < order.len() && marked_in_use(
                #[trigger] installed_listing_model(candidate, current, order)[3 + k1],
            ) && marked_in_use(#[trigger] installed_listing_model(candidate, current, order)[3 + k2])
                ==> k1 == k2,
{
    reveal_strlit(" > ");
    reveal_strlit(" * ");
    let m = installed_listing_model(candidate, current, order);
    assert forall|k: int| 0 <= k < order.len() implies line_text(#[trigger] m[3 + k]) == (if current
        == Some(order[k]) {
        " > "@
    } else {
        " * "@
    }) + order[k] && (marked_in_use(m[3 + k]) <==> current == Some(order[k])) by {
        assert(m[3 + k] == version_row(current, order[k]));
        let mark = if current == Some(order[k]) {
            " > "@
        } else {
            " * "@
        };
        lemma_single_text(mark + order[k], Style::Plain);
        assert((mark + order[k]).take(3) =~= mark);
        assert(" > "@ != " * "@) by {
            assert(" > "@[1] != " * "@[1]);
        }
    }
    if order.no_duplicates() {
        assert forall|k1: int, k2: int|
            0 <= k1 < order.len() && 0 <= k2 < order.len() && marked_in_use(#[trigger] m[3 + k1])
                && marked_in_use(#[trigger] m[3 + k2]) implies k1 == k2 by {
            assert(current == Some(order[k1]));
            assert(current == Some(order[k2]));
        }
    }
}

/// `order` holds exactly the names of `names`, largest first.
pub open spec fn descending_arrangement(order: Seq<Seq<char>>, names: Seq<Seq<char>>) -> bool {
    &&& order.to_multiset() == names.to_multiset()
    &&& sorted_descending(order)
}

/// The notice printed when an online listing could not be fetched.
pub open spec fn fallback_notice_model(kind: FetchKind, error: Seq<char>, debug: bool) -> Seq<
    Seq<(Seq<char>, Style)>,
> {
    let warning = match kind {
        FetchKind::Candidates => "Unable to fetch online candidates, showing local cache only."@,
        FetchKind::Versions => "Unable to fetch online versions, showing installed only."@,
    };
    if debug {
        seq![single(warning, Style::Yellow), seq![("Debug"@, Style::Dimmed), (": "@ + error, Style::Plain)]]
    } else {
        seq![single(warning, Style::Yellow)]
    }
}

// ----- implementation -----

fn text_span(s: &str, style: Style) -> (r: Span)
    ensures
        r@ == (s@, style),
{
    Span { text: String::from_str(s), style }
}

fn literal_line(s: &str, style: Style) -> (l: Line)
    ensures
        l@ == single(s@, style),
{
    single_line(String::from_str(s), style)
}

impl ListError {
    /// The message printed on standard error for this error.
    pub fn message(&self) -> (l: Line)
        ensures
            l@ == error_message(*self),
    {
        let mut spans: Vec<Span> = Vec::new();
        match self {
            ListError::InvalidCandidate(c) => {
                spans.push(span(c.clone(), Style::Bold));
                spans.push(text_span(" is not a valid candidate.", Style::Plain));
            },
            ListError::UnknownSubcommand(s) => {
                spans.push(text_span("Unknown subcommand: '", Style::Plain));
                spans.push(span(s.clone(), Style::Bold));
                spans.push(text_span("'. Valid subcommands: ", Style::Plain));
                spans.push(text_span("installed", Style::Italic));
            },
            ListError::NotInstalled(c) => {
                spans.push(span(c.clone(), Style::Bold));
                spans.push(text_span(" is not installed.", Style::Plain));
            },
            ListError::ReadFailed(c) => {
                spans.push(text_span("Failed to read ", Style::Plain));
                spans.push(span(c.clone(), Style::Bold));
                spans.push(text_span(" versions.", Style::Plain));
            },
        }
        let l = line_of(spans);
        assert(l@ =~= error_message(*self));
        l
    }

    /// The exit code the command ends with after this error.
    pub fn exit_code(&self) -> (code: i32)
        ensures
            code == 1,
    {
        1
    }
}

/// The listing of the candidates known locally, one per row in the order given,
/// framed by rules, with a usage hint.
pub fn local_candidates_listing(candidates: &Vec<String>) -> (lines: Vec<Line>)
    ensures
        lines_view(lines@) == local_candidates_model(string_views(candidates@)),
{
    let ghost names = string_views(candidates@);
    let mut lines: Vec<Line> = Vec::new();
    push_line(&mut lines, rule());
    push_line(&mut lines, literal_line("Available Candidates (local cache)", Style::Yellow));
    push_line(&mut lines, rule());
    push_line(&mut lines, empty_line());
    let ghost head = lines_view(lines@);
    let n = candidates.len();
    let mut i: usize = 0;
    while i < n
        invariant
            n == candidates@.len(),
            names == string_views(candidates@),
            i <= n,
            lines_view(lines@) == head + names.take(i as int).map_values(
                |v: Seq<char>| candidate_row(v),
            ),
        decreases n - i,
    {
        let row = single_line(String::from_str("   ").concat(candidates[i].as_str()), Style::Plain);
        push_line(&mut lines, row);
        assert(names.take(i + 1).map_values(|v: Seq<char>| candidate_row(v)) =~= names.take(
            i as int,
        ).map_values(|v: Seq<char>| candidate_row(v)).push(candidate_row(names[i as int])));
        i = i + 1;
    }
    assert(names.take(n as int) =~= names);
    push_line(&mut lines, empty_line());
    push_line(&mut lines, rule());
    let mut hint: Vec<Span> = Vec::new();
    hint.push(text_span("Use ", Style::Plain));
    hint.push(text_span("sdk list <candidate>", Style::Italic));
    hint.push(text_span(" to see versions for a specific candidate", Style::Plain));
    let hint_line = line_of(hint);
    assert(hint_line@ =~= usage_hint());
    push_line(&mut lines, hint_line);
    push_line(
        &mut lines,
        literal_line(
            "Note: For full candidate details with descriptions, use the online version",
            Style::Dimmed,
        ),
    );
    push_line(&mut lines, rule());
    assert(lines_view(lines@) =~= local_candidates_model(names));
    lines
}

/// The row of an installed version.
fn version_line(current: &Option<String>, version: &String) -> (l: Line)
    ensures
        l@ == version_row(current.deep_view(), version@),
{
    let in_use = match current {
        Some(c) => *c == *version,
        None => false,
    };
    if in_use {
        single_line(String::from_str(" > ").concat(version.as_str()), Style::Plain)
    } else {
        single_line(String::from_str(" * ").concat(version.as_str()), Style::Plain)
    }
}

/// The installed versions of a candidate, largest name first, the one in use
/// marked `>` and every other one `*`; or the error when the candidate's
/// directory is missing or unreadable.
pub fn list_installed_versions(
    candidate: &str,
    current: &Option<String>,
    scan: InstalledScan,
) -> (r: Result<Vec<Line>, ListError>)
    ensures
        match scan {
            InstalledScan::Missing => r matches Err(ListError::NotInstalled(c)) && c@ == candidate@,
            InstalledScan::Unreadable => r matches Err(ListError::ReadFailed(c)) && c@ == candidate@,
            InstalledScan::Found(versions) => r matches Ok(lines) && exists|order: Seq<Seq<char>>|
                descending_arrangement(order, string_views(versions@)) && lines_view(lines@)
                    == installed_listing_model(candidate@, current.deep_view(), order),
        },
{
    let versions = match scan {
        InstalledScan::Missing => {
            return Err(ListError::NotInstalled(String::from_str(candidate)));
        },
        InstalledScan::Unreadable => {
            return Err(ListError::ReadFailed(String::from_str(candidate)));
        },
        InstalledScan::Found(v) => v,
    };
    let ghost input = string_views(versions@);
    let sorted = sort_descending(versions);
    let ghost order = string_views(sorted@);
    let mut lines: Vec<Line> = Vec::new();
    push_line(&mut lines, rule());
    let heading = String::from_str("Offline: only showing installed ").concat(candidate).concat(
        " versions",
    );
    push_line(&mut lines, single_line(heading, Style::Yellow));
    push_line(&mut lines, rule());
    let ghost head = lines_view(lines@);
    let ghost cur = current.deep_view();
    let n = sorted.len();
    if n == 0 {
        push_line(&mut lines, literal_line("   None installed!", Style::Yellow));
    } else {
        let mut i: usize = 0;
        while i < n
            invariant
                n == sorted@.len(),
                order == string_views(sorted@),
                cur == current.deep_view(),
                i <= n,
                lines_view(lines@) == head + order.take(i as int).map_values(
                    |v: Seq<char>| version_row(cur, v),
                ),
            decreases n - i,
        {
            push_line(&mut lines, version_line(current, &sorted[i]));
            assert(order.take(i + 1).map_values(|v: Seq<char>| version_row(cur, v)) =~= order.take(
                i as int,
            ).map_values(|v: Seq<char>| version_row(cur, v)).push(version_row(cur, order[i as int])));
            i = i + 1;
        }
        assert(order.take(n as int) =~= order);
    }
    push_line(&mut lines, rule());
    push_line(
        &mut lines,
        literal_line(
            "* - installed                                                                   ",
            Style::Plain,
        ),
    );
    push_line(
        &mut lines,
        literal_line(
            "> - currently in use                                                            ",
            Style::Plain,
        ),
    );
    push_line(&mut lines, rule());
    assert(lines_view(lines@) =~= installed_listing_model(candidate@, cur, order));
    assert(descending_arrangement(order, input));
    Ok(lines)
}

/// The notice printed on standard error when an online listing could not be
/// fetched: a warning, and with `debug` the error itself.
pub fn fallback_notice(kind: FetchKind, error: &str, debug: bool) -> (lines: Vec<Line>)
    ensures
        lines_view(lines@) == fallback_notice_model(kind, error@, debug),
{
    let mut lines: Vec<Line> = Vec::new();
    let warning = match kind {
        FetchKind::Candidates => literal_line(
            "Unable to fetch online candidates, showing local cache only.",
            Style::Yellow,
        ),
        FetchKind::Versions => literal_line(
            "Unable to fetch online versions, showing installed only.",
            Style::Yellow,
        ),
    };
    push_line(&mut lines, warning);
    if debug {
        let mut spans: Vec<Span> = Vec::new();
        spans.push(text_span("Debug", Style::Dimmed));
        spans.push(span(String::from_str(": ").concat(error), Style::Plain));
        let l = line_of(spans);
        assert(l@ =~= seq![("Debug"@, Style::Dimmed), (": "@ + error@, Style::Plain)]);
        push_line(&mut lines, l);
    }
    assert(lines_view(lines@) =~= fallback_notice_model(kind, error@, debug));
    lines
}


/// The model of a screen that shows a fetched response as it came.
pub open spec fn shows_response(s: Screen, body: Seq<char>) -> bool {
    &&& lines_view(s.stdout@) == seq![single(body, Style::Plain)]
    &&& s.stderr@.len() == 0
    &&& s.exit_code == 0
}

fn response_screen(body: String) -> (s: Screen)
    ensures
        shows_response(s, body@),
{
    let mut stdout: Vec<Line> = Vec::new();
    push_line(&mut stdout, single_line(body, Style::Plain));
    assert(lines_view(stdout@) =~= seq![single(body@, Style::Plain)]);
    Screen { stdout, stderr: Vec::new(), exit_code: 0 }
}

/// The `list` command without a candidate. `fetched` is the online listing when
/// one was asked for (`None` when offline): a response is shown as it came; when
/// there is none, the local candidates are listed, after a notice on standard
/// error if the fetch failed.
pub fn list_all_candidates(
    candidates: &Vec<String>,
    fetched: Option<Result<String, String>>,
    debug: bool,
) -> (s: Screen)
    ensures
        match fetched {
            Some(Ok(body)) => shows_response(s, body@),
            Some(Err(e)) => lines_view(s.stdout@) == local_candidates_model(string_views(candidates@))
                && lines_view(s.stderr@) == fallback_notice_model(FetchKind::Candidates, e@, debug)
                && s.exit_code == 0,
            None => lines_view(s.stdout@) == local_candidates_model(string_views(candidates@))
                && s.stderr@.len() == 0 && s.exit_code == 0,
        },
{
    match fetched {
        Some(Ok(body)) => response_screen(body),
        Some(Err(e)) => {
            let stderr = fallback_notice(FetchKind::Candidates, e.as_str(), debug);
            Screen { stdout: local_candidates_listing(candidates), stderr, exit_code: 0 }
        },
        None => Screen { stdout: local_candidates_listing(candidates), stderr: Vec::new(), exit_code: 0 },
    }
}

/// The `list <candidate>` command. `fetched` is the online version listing when
/// one was asked for (`None` when offline): a response is shown as it came;
/// when there is none, the installed versions are listed, after a notice on
/// standard error if the fetch failed; a missing or unreadable candidate
/// directory ends the command with its error message and exit code 1.
pub fn list_candidate_versions(
    candidate: &str,
    current: &Option<String>,
    scan: InstalledScan,
    fetched: Option<Result<String, String>>,
    debug: bool,
) -> (s: Screen)
    ensures
        match fetched {
            Some(Ok(body)) => shows_response(s, body@),
            _ => {
                let notice = match fetched {
                    Some(Err(e)) => fallback_notice_model(FetchKind::Versions, e@, debug),
                    _ => Seq::empty(),
                };
                match scan {
                    InstalledScan::Missing => s.stdout@.len() == 0 && lines_view(s.stderr@)
                        == notice.push(not_installed_message(candidate@)) && s.exit_code == 1,
                    InstalledScan::Unreadable => s.stdout@.len() == 0 && lines_view(s.stderr@)
                        == notice.push(read_failed_message(candidate@)) && s.exit_code == 1,
                    InstalledScan::Found(versions) => lines_view(s.stderr@) == notice && s.exit_code
                        == 0 && exists|order: Seq<Seq<char>>|
                        descending_arrangement(order, string_views(versions@)) && lines_view(
                            s.stdout@,
                        ) == installed_listing_model(candidate@, current.deep_view(), order),
                }
            },
        },
{
    let mut stderr: Vec<Line> = match fetched {
        Some(Ok(body)) => {
            return response_screen(body);
        },
        Some(Err(e)) => fallback_notice(FetchKind::Versions, e.as_str(), debug),
        None => Vec::new(),
    };
    assert(fetched is None ==> lines_view(stderr@) =~= Seq::<Seq<(Seq<char>, Style)>>::empty());
    match list_installed_versions(candidate, current, scan) {
        Ok(lines) => Screen { stdout: lines, stderr, exit_code: 0 },
        Err(e) => {
            let code = e.exit_code();
            push_line(&mut stderr, e.message());
            Screen { stdout: Vec::new(), stderr, exit_code: code }
        },
    }
}

} // verus!
