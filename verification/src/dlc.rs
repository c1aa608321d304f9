//! Git hosting addresses for downloadable content: parsing a repository URL into its
//! owner, repository and host, the API and raw-file URLs built from them, and what a
//! directory listing response means.
use vstd::prelude::*;
use crate::modern_chunk_writer::ends_with;
use crate::models::strings_view;
use crate::text::{str_eq, str_split_once_char, string_push_str, to_owned_string};
use serde_json::Value;

verus! {

/// An entry of a repository directory listing.
pub struct GitEntry {
    pub name: String,
    pub is_dir: bool,
}

/// What `url::Url::parse` makes of a string: its host (where it has one) and its path,
/// or the parse error's message.
pub uninterp spec fn url_parse_view(s: Seq<char>) -> Result<(Option<Seq<char>>, Seq<char>), Seq<char>>;

/// The view of a parsed URL's host and path, or of its error message.
pub open spec fn parsed_view(p: Result<(Option<String>, String), String>) -> Result<(Option<Seq<char>>, Seq<char>), Seq<char>> {
    match p {
        Ok((Some(h), path)) => Ok((Some(h@), path@)),
        Ok((None, path)) => Ok((None, path@)),
        Err(e) => Err(e@),
    }
}

/// Parses `s` with `url::Url::parse` and reads the host (`Url::host_str`) and path
/// (`Url::path`) of the result, or the parse error's text (its `Display`). The result
/// is named: it is taken to depend on `s` alone.
#[verifier::external_body]
fn url_host_and_path(s: &str) -> (r: Result<(Option<String>, String), String>)
    ensures
        parsed_view(r) == url_parse_view(s@),
{
    match url::Url::parse(s) {
        Ok(u) => Ok((u.host_str().map(str::to_string), u.path().to_string())),
        Err(e) => Err(e.to_string()),
    }
}

/// `s` with every leading `c` removed.
pub open spec fn trim_leading(s: Seq<char>, c: char) -> Seq<char>
    decreases s.len(),
{
    if s.len() > 0 && s[0] == c { trim_leading(s.drop_first(), c) } else { s }
}

/// `s` with every trailing copy of `p` removed.
pub open spec fn trim_trailing(s: Seq<char>, p: Seq<char>) -> Seq<char>
    decreases s.len(),
{
    if p.len() > 0 && ends_with(s, p) { trim_trailing(s.subrange(0, s.len() - p.len()), p) } else { s }
}

/// `str::trim_start_matches` with a character: `s` without its leading run of `c`.
#[verifier::external_body]
fn str_trim_start_char(s: &str, c: char) -> (r: &str)
    ensures
        r@ == trim_leading(s@, c),
{
    s.trim_start_matches(c)
}

/// `str::trim_end_matches` with a non-empty string: `s` with trailing copies of `p`
/// removed, repeatedly.
#[verifier::external_body]
fn str_trim_end_str<'a>(s: &'a str, p: &str) -> (r: &'a str)
    requires
        p@.len() > 0,
    ensures
        r@ == trim_trailing(s@, p@),
{
    s.trim_end_matches(p)
}

/// The path part of a contents API URL: empty for the repository root (an empty
/// path, `.` or `/`), else `/` and the path without its leading slashes.
pub open spec fn api_path(path: Seq<char>) -> Seq<char> {
    if path.len() == 0 || path == "."@ || path == "/"@ { Seq::empty() } else { "/"@ + trim_leading(path, '/') }
}

/// The contents API URL of a directory of a repository: GitHub's API, or the
/// Gitea/Forgejo API of the host.
pub open spec fn api_url(host: Seq<char>, owner: Seq<char>, repo: Seq<char>, path: Seq<char>, branch: Seq<char>, is_github: bool) -> Seq<char> {
    if is_github {
        "https://api.github.com/repos/"@ + owner + "/"@ + repo + "/contents"@ + api_path(path) + "?ref="@ + branch
    } else {
        "https://"@ + host + "/api/v1/repos/"@ + owner + "/"@ + repo + "/contents"@ + api_path(path) + "?ref="@ + branch
    }
}

/// The URL of the contents API listing `path` in a repository at `branch`.
pub fn get_api_url(host: &str, owner: &str, repo: &str, path: &str, branch: &str, is_github: bool) -> (r: String)
    ensures
        r@ == api_url(host@, owner@, repo@, path@, branch@, is_github),
{
    let mut suffix = String::new();
    if !(str_eq(path, "") || str_eq(path, ".") || str_eq(path, "/")) {
        string_push_str(&mut suffix, "/");
        string_push_str(&mut suffix, str_trim_start_char(path, '/'));
    }
    proof {
        reveal_strlit("");
    }
    assert(suffix@ == api_path(path@)) by {
        if path@.len() == 0 {
            assert(path@ == ""@);
        }
    }
    let mut url = String::new();
    if is_github {
        string_push_str(&mut url, "https://api.github.com/repos/");
    } else {
        string_push_str(&mut url, "https://");
        string_push_str(&mut url, host);
        string_push_str(&mut url, "/api/v1/repos/");
    }
    string_push_str(&mut url, owner);
    string_push_str(&mut url, "/");
    string_push_str(&mut url, repo);
    string_push_str(&mut url, "/contents");
    string_push_str(&mut url, suffix.as_str());
    string_push_str(&mut url, "?ref=");
    string_push_str(&mut url, branch);
    assert(url@ =~= api_url(host@, owner@, repo@, path@, branch@, is_github));
    url
}

/// The URL of the raw contents of a file of a repository at `branch`.
pub open spec fn raw_url(host: Seq<char>, owner: Seq<char>, repo: Seq<char>, branch: Seq<char>, path: Seq<char>, is_github: bool) -> Seq<char> {
    if is_github {
        "https://raw.githubusercontent.com/"@ + owner + "/"@ + repo + "/"@ + branch + "/"@ + path
    } else {
        "https://"@ + host + "/"@ + owner + "/"@ + repo + "/raw/branch/"@ + branch + "/"@ + path
    }
}

/// The URL of the raw contents of the file `path` of a repository at `branch`.
pub fn get_raw_url(host: &str, owner: &str, repo: &str, branch: &str, path: &str, is_github: bool) -> (r: String)
    ensures
        r@ == raw_url(host@, owner@, repo@, branch@, path@, is_github),
{
    let mut url = String::new();
    if is_github {
        string_push_str(&mut url, "https://raw.githubusercontent.com/");
        string_push_str(&mut url, owner);
        string_push_str(&mut url, "/");
        string_push_str(&mut url, repo);
        string_push_str(&mut url, "/");
    } else {
        string_push_str(&mut url, "https://");
        string_push_str(&mut url, host);
        string_push_str(&mut url, "/");
        string_push_str(&mut url, owner);
        string_push_str(&mut url, "/");
        string_push_str(&mut url, repo);
        string_push_str(&mut url, "/raw/branch/");
    }
    string_push_str(&mut url, branch);
    string_push_str(&mut url, "/");
    string_push_str(&mut url, path);
    assert(url@ =~= raw_url(host@, owner@, repo@, branch@, path@, is_github));
    url
}

/// The non-empty parts of a path between its slashes, in order.
pub open spec fn path_segments(s: Seq<char>) -> Seq<Seq<char>>
    decreases s.len(),
{
    match s.index_of_first('/') {
        Some(i) => if 0 <= i < s.len() {
            let rest = path_segments(s.subrange(i + 1, s.len() as int));
            if i == 0 { rest } else { seq![s.subrange(0, i)] + rest }
        } else {
            Seq::empty()
        },
        None => if s.len() == 0 { Seq::empty() } else { seq![s] },
    }
}

proof fn lemma_first_slash(a: Seq<char>, b: Seq<char>)
    requires
        !a.contains('/'),
    ensures
        (a + seq!['/'] + b).index_of_first('/') == Some(a.len() as int),
{
    let s = a + seq!['/'] + b;
    assert(s[a.len() as int] == '/');
    assert(s.contains('/'));
    s.index_of_first_ensures('/');
    let i = s.index_of_first('/')->0;
    if i < a.len() {
        assert(s[i] == a[i]);
        assert(a.contains('/'));
    }
}

/// The non-empty parts of a path between its slashes.
fn split_path(path: &str) -> (r: Vec<String>)
    ensures
        r@.map_values(|x: String| x@) == path_segments(path@),
{
    let mut segments: Vec<String> = Vec::new();
    let mut rest: &str = path;
    let mut done = false;
    while !done
        invariant
            done ==> segments@.map_values(|x: String| x@) == path_segments(path@),
            !done ==> segments@.map_values(|x: String| x@) + path_segments(rest@) == path_segments(path@),
        decreases rest@.len() + if done { 0int } else { 1int },
    {
        proof {
            reveal_strlit("");
        }
        match str_split_once_char(rest, '/') {
            Some((seg, tail)) => {
                let ghost old_rest = rest@;
                let ghost before = segments@.map_values(|x: String| x@);
                proof {
                    lemma_first_slash(seg@, tail@);
                    assert(old_rest.subrange(seg@.len() as int + 1, old_rest.len() as int) =~= tail@);
                    assert(old_rest.subrange(0, seg@.len() as int) =~= seg@);
                }
                if !str_eq(seg, "") {
                    segments.push(to_owned_string(seg));
                    proof {
                        if seg@.len() == 0 {
                            assert(seg@ =~= ""@);
                        }
                        assert(segments@.map_values(|x: String| x@) =~= before.push(seg@));
                        assert(before + path_segments(old_rest) =~= before.push(seg@) + path_segments(tail@));
                    }
                } else {
                    assert(seg@.len() == 0);
                }
                rest = tail;
            },
            None => {
                let ghost before = segments@.map_values(|x: String| x@);
                proof {
                    rest@.index_of_first_ensures('/');
                }
                if !str_eq(rest, "") {
                    segments.push(to_owned_string(rest));
                    proof {
                        if rest@.len() == 0 {
                            assert(rest@ =~= ""@);
                        }
                        assert(segments@.map_values(|x: String| x@) =~= before.push(rest@));
                        assert(before + seq![rest@] =~= before.push(rest@));
                    }
                } else {
                    assert(before + Seq::<Seq<char>>::empty() =~= before);
                }
                done = true;
            },
        }
    }
    segments
}

/// The parts of a repository URL after parsing: the owner and repository (without a
/// trailing `.git`) from the first two path segments, the host, and whether the host
/// is GitHub's; or the error message.
pub open spec fn git_url_parts(parsed: Result<(Option<Seq<char>>, Seq<char>), Seq<char>>)
    -> Result<(Seq<char>, Seq<char>, Seq<char>, bool), Seq<char>>
{
    match parsed {
        Err(e) => Err("Invalid URL: "@ + e),
        Ok((None, _)) => Err("No host in URL"@),
        Ok((Some(host), path)) => {
            let segs = path_segments(path);
            if segs.len() < 2 {
                Err("Invalid repo URL: need owner and repo"@)
            } else {
                Ok((segs[0], trim_trailing(segs[1], ".git"@), host, host == "github.com"@ || host == "raw.githubusercontent.com"@))
            }
        },
    }
}

/// The view of repository URL parts.
pub open spec fn parts_view(r: Result<(String, String, String, bool), String>) -> Result<(Seq<char>, Seq<char>, Seq<char>, bool), Seq<char>> {
    match r {
        Ok((o, p, h, g)) => Ok((o@, p@, h@, g)),
        Err(e) => Err(e@),
    }
}

/// Reads the parts of a repository URL from its parsed host and path (or parse error).
pub fn git_url_from_parsed(parsed: Result<(Option<String>, String), String>) -> (r: Result<(String, String, String, bool), String>)
    ensures
        parts_view(r) == git_url_parts(parsed_view(parsed)),
{
    proof {
        reveal_strlit(".git");
    }
    match parsed {
        Err(e) => {
            let mut m = to_owned_string("Invalid URL: ");
            string_push_str(&mut m, e.as_str());
            Err(m)
        },
        Ok((None, _)) => Err(to_owned_string("No host in URL")),
        Ok((Some(host), path)) => {
            let segments = split_path(path.as_str());
            proof {
                assert(segments@.map_values(|x: String| x@).len() == segments@.len());
            }
            if segments.len() < 2 {
                return Err(to_owned_string("Invalid repo URL: need owner and repo"));
            }
            proof {
                assert(segments@.map_values(|x: String| x@)[0] == segments@[0]@);
                assert(segments@.map_values(|x: String| x@)[1] == segments@[1]@);
            }
            let owner = to_owned_string(segments[0].as_str());
            let repo = to_owned_string(str_trim_end_str(segments[1].as_str(), ".git"));
            let is_github = str_eq(host.as_str(), "github.com") || str_eq(host.as_str(), "raw.githubusercontent.com");
            Ok((owner, repo, host, is_github))
        },
    }
}

/// Parses a repository URL into its owner, repository (without a trailing `.git`),
/// host, and whether the host is GitHub's. Fails on a URL that does not parse, one
/// without a host, or one whose path has fewer than two segments.
pub fn parse_git_url(url: &str) -> (r: Result<(String, String, String, bool), String>)
    ensures
        parts_view(r) == git_url_parts(url_parse_view(url@)),
{
    git_url_from_parsed(url_host_and_path(url))
}

/// The shape of a contents-API response, as read from its JSON text: for an array, the
/// `name` and `type` of each element (where they are strings); for an object, its
/// `type` and `path` (where they are strings); anything else.
pub enum Listing {
    Entries(Vec<(Option<String>, Option<String>)>),
    Object { kind: Option<String>, path: Option<String> },
    Other,
}

/// A [`Listing`] over character sequences.
pub enum ListingView {
    Entries(Seq<(Option<Seq<char>>, Option<Seq<char>>)>),
    Object { kind: Option<Seq<char>>, path: Option<Seq<char>> },
    Other,
}

/// The characters of an optional string.
pub open spec fn opt_text(o: Option<String>) -> Option<Seq<char>> {
    match o {
        Some(s) => Some(s@),
        None => None,
    }
}

/// The elements of a listing array over character sequences.
pub open spec fn items_view(items: Seq<(Option<String>, Option<String>)>) -> Seq<(Option<Seq<char>>, Option<Seq<char>>)> {
    items.map_values(|p: (Option<String>, Option<String>)| (opt_text(p.0), opt_text(p.1)))
}

impl View for Listing {
    type V = ListingView;

    open spec fn view(&self) -> ListingView {
        match self {
            Listing::Entries(items) => ListingView::Entries(items_view(items@)),
            Listing::Object { kind, path } => ListingView::Object { kind: opt_text(*kind), path: opt_text(*path) },
            Listing::Other => ListingView::Other,
        }
    }
}

/// What `serde_json::from_str` makes of a response text, read as a listing; or the
/// parse error's message.
pub uninterp spec fn listing_json(text: Seq<char>) -> Result<ListingView, Seq<char>>;

/// The view of a parsed listing or of its error message.
pub open spec fn listing_result_view(r: Result<Listing, String>) -> Result<ListingView, Seq<char>> {
    match r {
        Ok(l) => Ok(l@),
        Err(e) => Err(e@),
    }
}

/// Parses a response text with `serde_json::from_str` into a `serde_json::Value` and
/// reads its shape: the string fields `name` and `type` of each element of an array
/// (`Value::get`, `Value::as_str`), the string fields `type` and `path` of an object;
/// or the parse error's text (its `Display`). The result is named: it is taken to
/// depend on the text alone.
#[verifier::external_body]
fn parse_listing(text: &str) -> (r: Result<Listing, String>)
    ensures
        listing_result_view(r) == listing_json(text@),
{
    match serde_json::from_str::<Value>(text) {
        Ok(Value::Array(a)) => Ok(Listing::Entries(a.iter().map(|e| (
            e.get("name").and_then(Value::as_str).map(str::to_string),
            e.get("type").and_then(Value::as_str).map(str::to_string),
        )).collect())),
        Ok(v @ Value::Object(_)) => Ok(Listing::Object {
            kind: v.get("type").and_then(Value::as_str).map(str::to_string),
            path: v.get("path").and_then(Value::as_str).map(str::to_string),
        }),
        Ok(_) => Ok(Listing::Other),
        Err(e) => Err(e.to_string()),
    }
}

/// The entries of a listing array: each element that has both a name and a type, a
/// directory when the type is `dir`.
pub open spec fn spec_entries(items: Seq<(Option<Seq<char>>, Option<Seq<char>>)>) -> Seq<(Seq<char>, bool)>
    decreases items.len(),
{
    if items.len() == 0 {
        Seq::empty()
    } else {
        let prev = spec_entries(items.drop_last());
        match items.last() {
            (Some(n), Some(k)) => prev.push((n, k == "dir"@)),
            _ => prev,
        }
    }
}

/// Directory entries as names and directory flags.
pub open spec fn entries_view(v: Seq<GitEntry>) -> Seq<(Seq<char>, bool)> {
    v.map_values(|e: GitEntry| (e.name@, e.is_dir))
}

/// What one directory-listing request decides.
pub enum ListingStep {
    /// The listing is complete.
    Done(Vec<GitEntry>),
    /// The path names a directory object: list this path instead.
    Follow(String),
    /// The request failed, with this message.
    Failed(String),
}

/// A [`ListingStep`] over character sequences.
pub enum StepView {
    Done(Seq<(Seq<char>, bool)>),
    Follow(Seq<char>),
    Failed(Seq<char>),
}

/// The view of a listing step.
pub open spec fn step_view(s: ListingStep) -> StepView {
    match s {
        ListingStep::Done(v) => StepView::Done(entries_view(v@)),
        ListingStep::Follow(p) => StepView::Follow(p@),
        ListingStep::Failed(e) => StepView::Failed(e@),
    }
}

/// What a listing response decides: an array gives its entries; an object of type
/// `dir` is followed through its `path` (empty when it has none); anything else lists
/// as empty.
pub open spec fn listing_decision(l: ListingView) -> StepView {
    match l {
        ListingView::Entries(items) => StepView::Done(spec_entries(items)),
        ListingView::Object { kind, path } => if kind == Some("dir"@) {
            StepView::Follow(match path {
                Some(p) => p,
                None => Seq::empty(),
            })
        } else {
            StepView::Done(Seq::empty())
        },
        ListingView::Other => StepView::Done(Seq::empty()),
    }
}

fn entries_of(items: &Vec<(Option<String>, Option<String>)>) -> (r: Vec<GitEntry>)
    ensures
        entries_view(r@) == spec_entries(items_view(items@)),
{
    proof {
        reveal_strlit("dir");
    }
    let mut r: Vec<GitEntry> = Vec::new();
    let mut i: usize = 0;
    while i < items.len()
        invariant
            i <= items@.len(),
            entries_view(r@) == spec_entries(items_view(items@).take(i as int)),
        decreases items@.len() - i,
    {
        let ghost before = r@;
        proof {
            assert(items_view(items@).take(i + 1).drop_last() =~= items_view(items@).take(i as int));
            assert(items_view(items@).take(i + 1).last() == items_view(items@)[i as int]);
        }
        if let (Some(name), Some(kind)) = &items[i] {
            r.push(GitEntry { name: to_owned_string(name.as_str()), is_dir: str_eq(kind.as_str(), "dir") });
            assert(entries_view(r@) =~= entries_view(before).push((name@, kind@ == "dir"@)));
        }
        i += 1;
    }
    assert(items_view(items@).take(items@.len() as int) =~= items_view(items@));
    r
}

/// Reads the decision of a listing response (see [`listing_decision`]).
pub fn listing_outcome(l: &Listing) -> (r: ListingStep)
    ensures
        step_view(r) == listing_decision(l@),
{
    proof {
        reveal_strlit("dir");
        reveal_strlit("");
    }
    match l {
        Listing::Entries(items) => {
            let v = entries_of(items);
            assert(l@ == ListingView::Entries(items_view(items@)));
            ListingStep::Done(v)
        },
        Listing::Object { kind, path } => {
            let is_dir = match kind {
                Some(k) => str_eq(k.as_str(), "dir"),
                None => false,
            };
            if is_dir {
                let p = match path {
                    Some(p) => to_owned_string(p.as_str()),
                    None => to_owned_string(""),
                };
                assert(path.is_none() ==> p@ =~= Seq::<char>::empty());
                ListingStep::Follow(p)
            } else {
                let v: Vec<GitEntry> = Vec::new();
                assert(entries_view(v@) =~= Seq::empty());
                ListingStep::Done(v)
            }
        },
        Listing::Other => {
            let v: Vec<GitEntry> = Vec::new();
            assert(entries_view(v@) =~= Seq::empty());
            ListingStep::Done(v)
        },
    }
}

/// What a listing request decides from its HTTP status and, after a success, its
/// parsed text: a failed status lists as empty for 404 and is an error otherwise; a
/// text that does not parse is an error; else [`listing_decision`].
pub open spec fn listing_response(success: bool, status: u16, status_text: Seq<char>, parsed: Result<ListingView, Seq<char>>) -> StepView {
    if !success {
        if status == 404 { StepView::Done(Seq::empty()) } else { StepView::Failed("Git API returned "@ + status_text) }
    } else {
        match parsed {
            Ok(l) => listing_decision(l),
            Err(e) => StepView::Failed("Failed to parse response: "@ + e),
        }
    }
}

/// Decides one directory-listing request from whether its status was a success, the
/// status code and its text, and the response text (read only after a success).
pub fn listing_step(success: bool, status: u16, status_text: &str, body: &str) -> (r: ListingStep)
    ensures
        step_view(r) == listing_response(success, status, status_text@, listing_json(body@)),
{
    if !success {
        if status == 404 {
            let v: Vec<GitEntry> = Vec::new();
            assert(entries_view(v@) =~= Seq::empty());
            return ListingStep::Done(v);
        }
        let mut m = to_owned_string("Git API returned ");
        string_push_str(&mut m, status_text);
        return ListingStep::Failed(m);
    }
    match parse_listing(body) {
        Ok(l) => listing_outcome(&l),
        Err(e) => {
            let mut m = to_owned_string("Failed to parse response: ");
            string_push_str(&mut m, e.as_str());
            ListingStep::Failed(m)
        },
    }
}

/// The path of `name` inside the directory `dir` (the name alone at the root).
pub open spec fn full_path(dir: Seq<char>, name: Seq<char>) -> Seq<char> {
    if dir.len() == 0 { name } else { dir + "/"@ + name }
}

fn join_path(dir: &str, name: &str) -> (r: String)
    ensures
        r@ == full_path(dir@, name@),
{
    proof {
        reveal_strlit("");
    }
    if str_eq(dir, "") {
        to_owned_string(name)
    } else {
        assert(dir@.len() != 0) by {
            if dir@.len() == 0 {
                assert(dir@ =~= ""@);
            }
        }
        let mut p = to_owned_string(dir);
        string_push_str(&mut p, "/");
        string_push_str(&mut p, name);
        p
    }
}

/// The files and the directories found in the elements of a listing array of `dir`:
/// each element with a name and a type goes to the directories when its type is
/// `dir`, else to the files, as a path inside `dir`.
pub open spec fn collect_items(dir: Seq<char>, items: Seq<(Option<Seq<char>>, Option<Seq<char>>)>) -> (Seq<Seq<char>>, Seq<Seq<char>>)
    decreases items.len(),
{
    if items.len() == 0 {
        (Seq::empty(), Seq::empty())
    } else {
        let (f, d) = collect_items(dir, items.drop_last());
        match items.last() {
            (Some(n), Some(k)) => if k == "dir"@ {
                (f, d.push(full_path(dir, n)))
            } else {
                (f.push(full_path(dir, n)), d)
            },
            _ => (f, d),
        }
    }
}

/// The files and the directories a listing of `dir` adds: those of an array; for an
/// object, `dir` itself, as a directory when its type is `dir` and as a file otherwise;
/// nothing for anything else.
pub open spec fn collected(dir: Seq<char>, l: ListingView) -> (Seq<Seq<char>>, Seq<Seq<char>>) {
    match l {
        ListingView::Entries(items) => collect_items(dir, items),
        ListingView::Object { kind, path } => if kind == Some("dir"@) {
            (Seq::empty(), seq![dir])
        } else {
            (seq![dir], Seq::empty())
        },
        ListingView::Other => (Seq::empty(), Seq::empty()),
    }
}

fn collect_entries(dir: &str, items: &Vec<(Option<String>, Option<String>)>, files: &mut Vec<String>, pending: &mut Vec<String>)
    ensures
        strings_view(final(files)@) == strings_view(old(files)@) + collect_items(dir@, items_view(items@)).0,
        strings_view(final(pending)@) == strings_view(old(pending)@) + collect_items(dir@, items_view(items@)).1,
{
    proof {
        reveal_strlit("dir");
    }
    let ghost f0 = strings_view(files@);
    let ghost d0 = strings_view(pending@);
    assert(items_view(items@).take(0) =~= Seq::empty());
    assert(f0 + Seq::<Seq<char>>::empty() =~= f0);
    assert(d0 + Seq::<Seq<char>>::empty() =~= d0);
    let mut i: usize = 0;
    while i < items.len()
        invariant
            i <= items@.len(),
            strings_view(files@) == f0 + collect_items(dir@, items_view(items@).take(i as int)).0,
            strings_view(pending@) == d0 + collect_items(dir@, items_view(items@).take(i as int)).1,
        decreases items@.len() - i,
    {
        let ghost fb = files@;
        let ghost db = pending@;
        proof {
            assert(items_view(items@).take(i + 1).drop_last() =~= items_view(items@).take(i as int));
            assert(items_view(items@).take(i + 1).last() == items_view(items@)[i as int]);
        }
        if let (Some(name), Some(kind)) = &items[i] {
            let p = join_path(dir, name.as_str());
            if str_eq(kind.as_str(), "dir") {
                pending.push(p);
                assert(strings_view(pending@) =~= strings_view(db).push(p@));
            } else {
                files.push(p);
                assert(strings_view(files@) =~= strings_view(fb).push(p@));
            }
        }
        i += 1;
    }
    assert(items_view(items@).take(items@.len() as int) =~= items_view(items@));
}

/// Adds what a listing of `dir` holds to the files found and the directories still to
/// list (see [`collected`]).
pub fn collect_step(dir: &str, l: &Listing, files: &mut Vec<String>, pending: &mut Vec<String>)
    ensures
        strings_view(final(files)@) == strings_view(old(files)@) + collected(dir@, l@).0,
        strings_view(final(pending)@) == strings_view(old(pending)@) + collected(dir@, l@).1,
{
    proof {
        reveal_strlit("dir");
    }
    let ghost f0 = strings_view(files@);
    let ghost d0 = strings_view(pending@);
    match l {
        Listing::Entries(items) => collect_entries(dir, items, files, pending),
        Listing::Object { kind, path: _ } => {
            let is_dir = match kind {
                Some(k) => str_eq(k.as_str(), "dir"),
                None => false,
            };
            if is_dir {
                pending.push(to_owned_string(dir));
                assert(strings_view(pending@) =~= d0 + seq![dir@]);
                assert(strings_view(files@) =~= f0 + Seq::<Seq<char>>::empty());
            } else {
                files.push(to_owned_string(dir));
                assert(strings_view(files@) =~= f0 + seq![dir@]);
                assert(strings_view(pending@) =~= d0 + Seq::<Seq<char>>::empty());
            }
        },
        Listing::Other => {
            assert(strings_view(files@) =~= f0 + Seq::<Seq<char>>::empty());
            assert(strings_view(pending@) =~= d0 + Seq::<Seq<char>>::empty());
        },
    }
}

/// What one request of a recursive listing of `dir` gives: an error for a failed
/// status or a text that does not parse, else what the listing adds (see [`collected`]).
pub open spec fn collect_outcome(dir: Seq<char>, success: bool, status_text: Seq<char>, parsed: Result<ListingView, Seq<char>>)
    -> Result<(Seq<Seq<char>>, Seq<Seq<char>>), Seq<char>>
{
    if !success {
        Err("Failed to list "@ + dir + ": HTTP "@ + status_text)
    } else {
        match parsed {
            Ok(l) => Ok(collected(dir, l)),
            Err(e) => Err("Failed to parse: "@ + e),
        }
    }
}

/// Handles one response of a recursive listing of `dir`: from whether its status was a
/// success, the status text and the response text (read only after a success), either
/// adds to the files found and the directories still to list, or fails and leaves both
/// as they were.
pub fn collect_response(
    dir: &str,
    success: bool,
    status_text: &str,
    body: &str,
    files: &mut Vec<String>,
    pending: &mut Vec<String>,
) -> (r: Result<(), String>)
    ensures
        match collect_outcome(dir@, success, status_text@, listing_json(body@)) {
            Ok((f, d)) => r is Ok && strings_view(final(files)@) == strings_view(old(files)@) + f
                && strings_view(final(pending)@) == strings_view(old(pending)@) + d,
            Err(m) => (r matches Err(e) && e@ == m) && final(files)@ == old(files)@ && final(pending)@ == old(pending)@,
        },
{
    if !success {
        let mut m = to_owned_string("Failed to list ");
        string_push_str(&mut m, dir);
        string_push_str(&mut m, ": HTTP ");
        string_push_str(&mut m, status_text);
        return Err(m);
    }
    match parse_listing(body) {
        Ok(l) => {
            collect_step(dir, &l, files, pending);
            Ok(())
        },
        Err(e) => {
            let mut m = to_owned_string("Failed to parse: ");
            string_push_str(&mut m, e.as_str());
            Err(m)
        },
    }
}

} // verus!
