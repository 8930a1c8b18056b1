//! File-system paths as text, and what the standard library says of them.
use vstd::prelude::*;

verus! {

/// `base` joined with `part` by `std::path::Path::join` for the platform
/// the crate is built for (an absolute `part` replaces `base`).
pub uninterp spec fn path_joined(base: Seq<char>, part: Seq<char>) -> Seq<char>;

/// A single path component written plainly: not empty, not `.` or `..`,
/// and free of separators (`/`, `\`) and drive colons, so that it has
/// neither a root nor a prefix on any platform.
pub open spec fn plain_name(s: Seq<char>) -> bool {
    &&& s.len() > 0
    &&& s != "."@
    &&& s != ".."@
    &&& forall|i: int| 0 <= i < s.len() ==> #[trigger] s[i] != '/' && s[i] != '\\' && s[i] != ':'
}

/// `std::path::Path::join`, as text. The joined path is named, not
/// described, except for the case the documentation of `Path::join` and
/// `PathBuf::push` spells out: a relative part with neither root nor prefix
/// is appended (after a separator where one is needed), so the result ends
/// with it.
#[verifier::external_body]
pub(crate) fn join_path(base: &str, part: &str) -> (r: String)
    ensures
        r@ == path_joined(base@, part@),
        plain_name(part@) ==> r@.len() >= part@.len() && r@.skip(r@.len() - part@.len()) == part@,
{
    std::path::Path::new(base).join(part).to_string_lossy().into_owned()
}

/// The directory holding `path`, as `std::path::Path::parent` gives it
/// (`None` for a root or an empty path).
pub uninterp spec fn parent_of(path: Seq<char>) -> Option<Seq<char>>;

/// `std::path::Path::parent`, as text. The result is named, not described.
#[verifier::external_body]
pub(crate) fn parent_dir(path: &str) -> (r: Option<String>)
    ensures
        crate::model::opt_view(r) == parent_of(path@),
{
    std::path::Path::new(path).parent().map(|p| p.to_string_lossy().into_owned())
}

/// `std::path::MAIN_SEPARATOR`. Which character it is depends on the
/// platform the crate is built for, so nothing is promised of it here.
#[verifier::external_body]
pub(crate) fn main_separator() -> (c: char) {
    std::path::MAIN_SEPARATOR
}

/// The user's home directory (`dirs::home_dir`), as text. Nothing is
/// promised of the value: it comes from the environment.
#[verifier::external_body]
pub(crate) fn home_dir() -> (r: Option<String>) {
    dirs::home_dir().map(|p| p.to_string_lossy().into_owned())
}

/// The extension of the file `path` names, as `std::path::Path::extension`
/// gives it (when it is UTF-8).
pub uninterp spec fn extension_of(path: Seq<char>) -> Option<Seq<char>>;

/// `std::path::Path::extension`, as text. The result is named, not
/// described.
#[verifier::external_body]
pub(crate) fn file_extension(path: &str) -> (r: Option<String>)
    ensures
        crate::model::opt_view(r) == extension_of(path@),
{
    std::path::Path::new(path).extension().and_then(|s| s.to_str()).map(|s| s.to_string())
}

/// Transcripts are the `.jsonl` files under a provider's root.
pub fn is_transcript_path(path: &str) -> (r: bool)
    ensures
        r == (extension_of(path@) == Some("jsonl"@)),
{
    match file_extension(path) {
        Some(e) => crate::text::str_eq(e.as_str(), "jsonl"),
        None => false,
    }
}

/// How deep below a provider's root discovery looks for transcripts.
pub const DISCOVERY_DEPTH: usize = 8;

/// Whether discovery descends into the directory named `name`: a subagent's
/// transcripts belong to their parent and must not replace its lifecycle.
pub fn descends_into(name: &str) -> (r: bool)
    ensures
        r == (name@ != "subagents"@),
{
    !crate::text::str_eq(name, "subagents")
}

} // verus!
