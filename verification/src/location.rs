use vstd::prelude::*;
use vstd::string::*;

use crate::error::{IoFailure, SaveError};

verus! {

/// Where a saved resource's `.ron` file should live on disk.
#[derive(Debug, Clone, PartialEq, Eq)]
pub enum SaveLocation {
    /// Relative to the directory containing the running executable.
    ExeRelative(String),
    /// The OS-standard application data directory
    /// (e.g. `~/.local/share/<app>` on Linux, `%APPDATA%\<org>\<app>\data` on Windows).
    AppData { qualifier: String, organization: String, application: String, sub: String },
    /// Any path chosen by the caller, used as-is.
    Custom(String),
}

/// The path conventions of a platform, as `std::path` follows them there.
#[derive(Debug, Clone, Copy, PartialEq, Eq, Structural)]
pub enum PathStyle {
    /// Only `/` separates components; there are no drive prefixes.
    Unix,
    /// `/` and `\` separate components; `X:` starts a path with a drive, and
    /// joining inserts `\`.
    Windows,
}

/// The characters that separate path components in `style`.
pub open spec fn is_separator(style: PathStyle, c: char) -> bool {
    c == '/' || (style == PathStyle::Windows && c == '\\')
}

/// The separator that joining inserts in `style`.
pub open spec fn main_separator(style: PathStyle) -> char {
    if style == PathStyle::Windows {
        '\\'
    } else {
        '/'
    }
}

pub open spec fn is_ascii_letter(c: char) -> bool {
    ('a' <= c && c <= 'z') || ('A' <= c && c <= 'Z')
}

/// The path starts at a root (`/x`; on Windows also `\x` and `\\server\share`,
/// and the verbatim and device prefixes, which all start with a separator).
pub open spec fn is_rooted(style: PathStyle, p: Seq<char>) -> bool {
    p.len() > 0 && is_separator(style, p[0])
}

/// On Windows, the path starts with a drive (`C:x`, `C:\x`).
pub open spec fn has_drive_prefix(style: PathStyle, p: Seq<char>) -> bool {
    style == PathStyle::Windows && p.len() >= 2 && is_ascii_letter(p[0]) && p[1] == ':'
}

/// On Windows, the path is a drive and nothing else (`C:`).
pub open spec fn is_bare_drive(style: PathStyle, p: Seq<char>) -> bool {
    has_drive_prefix(style, p) && p.len() == 2
}

/// A whole component `..` starts at index `i`.
pub open spec fn parent_component_at(style: PathStyle, p: Seq<char>, i: int) -> bool {
    &&& 0 <= i
    &&& i + 2 <= p.len()
    &&& p[i] == '.'
    &&& p[i + 1] == '.'
    &&& (i == 0 || is_separator(style, p[i - 1]))
    &&& (i + 2 == p.len() || is_separator(style, p[i + 2]))
}

pub open spec fn has_parent_component(style: PathStyle, p: Seq<char>) -> bool {
    exists|i: int| parent_component_at(style, p, i)
}

/// A sub path stays inside the directory it is joined to: among its components
/// there is no prefix (a drive), no root and no `..`.
pub open spec fn is_valid_sub_path(style: PathStyle, p: Seq<char>) -> bool {
    !is_rooted(style, p) && !has_drive_prefix(style, p) && !has_parent_component(style, p)
}

/// On Windows, the path starts with the verbatim prefix `\\?\`.
pub open spec fn is_verbatim(style: PathStyle, p: Seq<char>) -> bool {
    &&& style == PathStyle::Windows
    &&& p.len() >= 4
    &&& p[0] == '\\'
    &&& p[1] == '\\'
    &&& p[2] == '?'
    &&& p[3] == '\\'
}

/// `done` followed by the finished component `seg`, each component written as
/// `\` and its name; empty components and `.` are dropped.
pub open spec fn with_component(done: Seq<char>, seg: Seq<char>) -> Seq<char> {
    if seg.len() == 0 || seg == seq!['.'] {
        done
    } else {
        done + seq!['\\'] + seg
    }
}

/// The components of a Windows relative path, `.` left out, each written as `\`
/// and its name: `done` holds the finished ones, `seg` the one being read, `rest`
/// what is left to read.
pub open spec fn verbatim_tail(done: Seq<char>, seg: Seq<char>, rest: Seq<char>) -> Seq<char>
    decreases rest.len(),
{
    if rest.len() == 0 {
        with_component(done, seg)
    } else if is_separator(PathStyle::Windows, rest[0]) {
        verbatim_tail(with_component(done, seg), Seq::empty(), rest.drop_first())
    } else {
        verbatim_tail(done, seg.push(rest[0]), rest.drop_first())
    }
}

/// The components that joining `sub` to a verbatim path appends.
pub open spec fn verbatim_components(sub: Seq<char>) -> Seq<char> {
    verbatim_tail(Seq::empty(), Seq::empty(), sub)
}

/// `b` without its trailing backslashes.
pub open spec fn without_trailing_backslashes(b: Seq<char>) -> Seq<char>
    decreases b.len(),
{
    if b.len() > 0 && b.last() == '\\' {
        without_trailing_backslashes(b.drop_last())
    } else {
        b
    }
}

/// `base` joined with the relative path `sub`, as `PathBuf::join` does it. On a
/// verbatim base (`\\?\...`) the components of `sub` are appended one by one with
/// `\`, `.` left out. Otherwise a separator goes between them unless `base` is
/// empty, ends in a separator, or is a bare drive.
///
/// Two corners of the verbatim case are left as the general rule has them:
/// `PathBuf::join` also rebuilds a verbatim base from its own components, which
/// merges doubled backslashes inside it, and it does so too when `sub` has no
/// component but `.`.
pub open spec fn joined(style: PathStyle, base: Seq<char>, sub: Seq<char>) -> Seq<char> {
    if is_verbatim(style, base) && verbatim_components(sub).len() > 0 {
        without_trailing_backslashes(base) + verbatim_components(sub)
    } else if base.len() == 0 || is_separator(style, base.last()) || is_bare_drive(style, base) {
        base + sub
    } else {
        base + seq![main_separator(style)] + sub
    }
}

pub open spec fn home_unavailable_text() -> Seq<char> {
    "could not determine a home directory on this platform"@
}

pub open spec fn exe_has_no_parent_text() -> Seq<char> {
    "executable path has no parent directory"@
}

/// The placeholder path under which a failure to find the executable is reported.
pub open spec fn current_exe_label() -> Seq<char> {
    "<current_exe>"@
}

/// The characters of `s`, in order.
fn chars_of(s: &str) -> (cs: Vec<char>)
    ensures
        cs@ == s@,
{
    let n = s.unicode_len();
    let mut cs: Vec<char> = Vec::new();
    for i in 0..n
        invariant
            n == s@.len(),
            cs@ == s@.subrange(0, i as int),
    {
        let c = s.get_char(i);
        cs.push(c);
        assert(cs@ =~= s@.subrange(0, i + 1));
    }
    assert(cs@ =~= s@);
    cs
}

fn is_separator_char(style: PathStyle, c: char) -> (b: bool)
    ensures
        b == is_separator(style, c),
{
    c == '/' || (style == PathStyle::Windows && c == '\\')
}

fn is_ascii_letter_char(c: char) -> (b: bool)
    ensures
        b == is_ascii_letter(c),
{
    ('a' <= c && c <= 'z') || ('A' <= c && c <= 'Z')
}

/// Whether some whole component of `cs` is `..`.
fn contains_parent_component(style: PathStyle, cs: &Vec<char>) -> (found: bool)
    ensures
        found == has_parent_component(style, cs@),
{
    let n = cs.len();
    let mut i: usize = 0;
    while n >= 2 && i <= n - 2
        invariant
            n == cs@.len(),
            i <= n,
            forall|j: int| 0 <= j < i ==> !parent_component_at(style, cs@, j),
        decreases n - i,
    {
        if cs[i] == '.' && cs[i + 1] == '.' && (i == 0 || is_separator_char(style, cs[i - 1])) && (i
            + 2 == n || is_separator_char(style, cs[i + 2])) {
            assert(parent_component_at(style, cs@, i as int));
            return true;
        }
        i = i + 1;
    }
    false
}

/// Accepts `sub` exactly when, read with the conventions of `style`, it has no
/// root, no drive prefix and no `..` component.
pub fn validate_sub_path(sub: &String, style: PathStyle) -> (r: Result<(), SaveError>)
    ensures
        r is Ok <==> is_valid_sub_path(style, sub@),
        r is Err ==> r == Err::<(), SaveError>(SaveError::InvalidSubPath(*sub)),
{
    let cs = chars_of(sub.as_str());
    let n = cs.len();
    let rooted = n > 0 && is_separator_char(style, cs[0]);
    let drive = style == PathStyle::Windows && n >= 2 && is_ascii_letter_char(cs[0]) && cs[1] == ':';
    if rooted || drive || contains_parent_component(style, &cs) {
        return Err(SaveError::InvalidSubPath(sub.clone()));
    }
    Ok(())
}

/// Appends to `done` the component `cs[start..end]` of `sub`, written as `\\` and
/// its name, unless it is empty or `.`.
fn push_component(done: &mut String, sub: &str, cs: &Vec<char>, start: usize, end: usize)
    requires
        cs@ == sub@,
        start <= end <= cs@.len(),
    ensures
        final(done)@ == with_component(old(done)@, cs@.subrange(start as int, end as int)),
{
    let ghost seg = cs@.subrange(start as int, end as int);
    if end == start || (end == start + 1 && cs[start] == '.') {
        proof {
            if end == start + 1 {
                assert(seg =~= seq!['.']);
            }
        }
    } else {
        proof {
            reveal_strlit("\\");
            assert(seg.len() != 0);
            if seg == seq!['.'] {
                assert(seg[0] == cs@[start as int]);
            }
        }
        let ghost before = done@;
        done.append("\\");
        done.append(sub.substring_char(start, end));
        assert(done@ =~= before + seq!['\\'] + seg);
    }
}

/// The components of `sub`, `.` left out, each written as `\\` and its name.
fn verbatim_components_of(sub: &String) -> (t: String)
    ensures
        t@ == verbatim_components(sub@),
{
    let cs = chars_of(sub.as_str());
    let n = cs.len();
    let mut done = String::new();
    let mut start: usize = 0;
    let mut i: usize = 0;
    proof {
        assert(cs@.skip(0) =~= cs@);
        assert(cs@.subrange(0, 0) =~= Seq::<char>::empty());
    }
    while i < n
        invariant
            n == cs@.len(),
            cs@ == sub@,
            start <= i <= n,
            verbatim_tail(done@, cs@.subrange(start as int, i as int), cs@.skip(i as int))
                == verbatim_components(sub@),
        decreases n - i,
    {
        let ghost seg = cs@.subrange(start as int, i as int);
        let ghost rest = cs@.skip(i as int);
        let ghost before = done@;
        proof {
            assert(rest[0] == cs@[i as int]);
            assert(rest.drop_first() =~= cs@.skip(i + 1));
        }
        if is_separator_char(PathStyle::Windows, cs[i]) {
            push_component(&mut done, sub.as_str(), &cs, start, i);
            i = i + 1;
            start = i;
            proof {
                assert(cs@.subrange(start as int, i as int) =~= Seq::<char>::empty());
                assert(verbatim_tail(before, seg, rest) == verbatim_tail(
                    with_component(before, seg),
                    Seq::empty(),
                    rest.drop_first(),
                ));
            }
        } else {
            i = i + 1;
            proof {
                assert(cs@.subrange(start as int, i as int) =~= seg.push(rest[0]));
                assert(verbatim_tail(before, seg, rest) == verbatim_tail(
                    before,
                    seg.push(rest[0]),
                    rest.drop_first(),
                ));
            }
        }
    }
    let ghost before = done@;
    let ghost seg = cs@.subrange(start as int, n as int);
    proof {
        assert(cs@.skip(n as int).len() == 0);
        assert(verbatim_tail(before, seg, cs@.skip(n as int)) == with_component(before, seg));
    }
    push_component(&mut done, sub.as_str(), &cs, start, n);
    done
}

/// `base` without its trailing backslashes.
fn strip_trailing_backslashes(base: &String) -> (t: String)
    ensures
        t@ == without_trailing_backslashes(base@),
{
    let cs = chars_of(base.as_str());
    let mut k = cs.len();
    proof {
        assert(cs@.subrange(0, k as int) =~= base@);
    }
    while k > 0 && cs[k - 1] == '\\'
        invariant
            k <= cs@.len(),
            cs@ == base@,
            without_trailing_backslashes(cs@.subrange(0, k as int)) == without_trailing_backslashes(base@),
        decreases k,
    {
        proof {
            assert(cs@.subrange(0, k as int).drop_last() =~= cs@.subrange(0, k - 1));
        }
        k = k - 1;
    }
    String::from_str(base.as_str().substring_char(0, k))
}

/// `base` joined with `sub` as `PathBuf::join` does it for a relative `sub` under
/// `style`: on a verbatim base the components of `sub` are appended with `\\`;
/// otherwise the separator of `style` goes between them unless `base` is empty,
/// already ends in a separator, or is a bare drive.
pub fn join_path(base: &String, sub: &String, style: PathStyle) -> (p: String)
    ensures
        p@ == joined(style, base@, sub@),
{
    let cs = chars_of(base.as_str());
    let n = cs.len();
    if style == PathStyle::Windows && n >= 4 && cs[0] == '\\' && cs[1] == '\\' && cs[2] == '?'
        && cs[3] == '\\' {
        let tail = verbatim_components_of(sub);
        if tail.as_str().unicode_len() > 0 {
            let mut p = strip_trailing_backslashes(base);
            p.append(tail.as_str());
            return p;
        }
    }
    let bare_drive = style == PathStyle::Windows && n == 2 && is_ascii_letter_char(cs[0]) && cs[1] == ':';
    let mut p = base.clone();
    if n > 0 && !is_separator_char(style, cs[n - 1]) && !bare_drive {
        match style {
            PathStyle::Windows => {
                p.append("\\");
                proof {
                    reveal_strlit("\\");
                }
            },
            PathStyle::Unix => {
                p.append("/");
                proof {
                    reveal_strlit("/");
                }
            },
        }
    }
    p.append(sub.as_str());
    p
}

/// Resolves a sub path of the application data directory; `data_dir` is that
/// directory, or `None` where the platform gives no home directory.
pub fn resolve_app_data_dir(data_dir: Option<String>, sub: &String, style: PathStyle) -> (r: Result<String, SaveError>)
    ensures
        !is_valid_sub_path(style, sub@) ==> r == Err::<String, SaveError>(SaveError::InvalidSubPath(*sub)),
        is_valid_sub_path(style, sub@) && data_dir is None ==> (r matches Err(SaveError::LocationUnavailable(
            m,
        )) && m@ == home_unavailable_text()),
        is_valid_sub_path(style, sub@) && data_dir is Some ==> (r matches Ok(p) && p@ == joined(
            style,
            data_dir->0@,
            sub@,
        )),
{
    validate_sub_path(sub, style)?;
    match data_dir {
        None => Err(SaveError::LocationUnavailable(String::from_str("could not determine a home directory on this platform"))),
        Some(dir) => Ok(join_path(&dir, sub, style)),
    }
}

/// `dir` is a data directory that `directories::ProjectDirs::from(qualifier,
/// organization, application)` can give. Which one it gives depends on the user's
/// environment; this only ties the directory to the names it was asked for.
pub uninterp spec fn is_project_data_dir(qualifier: Seq<char>, organization: Seq<char>, application: Seq<char>, dir: Seq<char>) -> bool;

/// `directories::ProjectDirs::from(qualifier, organization, application)` can find
/// no home directory, and so no project directories. Whether it can depends on the
/// user's environment; this only ties the outcome to the names it was asked for.
pub uninterp spec fn project_dirs_unavailable(qualifier: Seq<char>, organization: Seq<char>, application: Seq<char>) -> bool;

/// Calls `directories::ProjectDirs::from(qualifier, organization, application)` and
/// hands back the project's data directory (`ProjectDirs::data_dir`) as text, or
/// `None` when that function finds no home directory. Claimed: a directory that
/// comes back is one for these three names, and `None` comes back only where no
/// project directories can be found for them. Which directory it is is not claimed:
/// it comes from the user's environment (`$HOME`, `$XDG_DATA_HOME`, the platform's
/// known folders) at the time of the call. A directory whose name is not valid
/// Unicode comes back with its invalid parts replaced (`to_string_lossy`), since
/// the library keeps paths as text.
#[verifier::external_body]
fn project_data_dir(qualifier: &str, organization: &str, application: &str) -> (dir: Option<String>)
    ensures
        dir matches Some(d) ==> is_project_data_dir(qualifier@, organization@, application@, d@),
        dir is None ==> project_dirs_unavailable(qualifier@, organization@, application@),
{
    directories::ProjectDirs::from(qualifier, organization, application).map(
        |dirs| dirs.data_dir().to_string_lossy().into_owned(),
    )
}

impl SaveLocation {
    /// Resolves the location to a file path under the path conventions `style`.
    /// `exe_dir` is what looking up the running executable gave: its directory,
    /// `None` when the executable's path has no parent, or the failure of the
    /// lookup; only `ExeRelative` reads it.
    pub fn resolve(&self, exe_dir: &Result<Option<String>, IoFailure>, style: PathStyle) -> (r: Result<String, SaveError>)
        ensures
            *self matches SaveLocation::Custom(p) ==> r == Ok::<String, SaveError>(p),
            *self matches SaveLocation::ExeRelative(sub) ==> {
                if !is_valid_sub_path(style, sub@) {
                    r == Err::<String, SaveError>(SaveError::InvalidSubPath(sub))
                } else {
                    match exe_dir {
                        Err(f) => r matches Err(SaveError::Io { path, kind, message })
                            && path@ == current_exe_label() && kind == f.kind && message == f.message,
                        Ok(None) => r matches Err(SaveError::LocationUnavailable(m))
                            && m@ == exe_has_no_parent_text(),
                        Ok(Some(d)) => r matches Ok(p) && p@ == joined(style, d@, sub@),
                    }
                }
            },
            *self matches SaveLocation::AppData { qualifier, organization, application, sub } ==> {
                if !is_valid_sub_path(style, sub@) {
                    r == Err::<String, SaveError>(SaveError::InvalidSubPath(sub))
                } else {
                    ||| r matches Err(SaveError::LocationUnavailable(m)) && m@ == home_unavailable_text()
                        && project_dirs_unavailable(qualifier@, organization@, application@)
                    ||| exists|d: Seq<char>|
                        #[trigger] is_project_data_dir(qualifier@, organization@, application@, d)
                            && joined(style, d, sub@) == r->Ok_0@ && r is Ok
                }
            },
    {
        match self {
            SaveLocation::ExeRelative(sub) => {
                validate_sub_path(sub, style)?;
                match exe_dir {
                    Err(f) => Err(
                        SaveError::Io {
                            path: String::from_str("<current_exe>"),
                            kind: f.kind,
                            message: f.message.clone(),
                        },
                    ),
                    Ok(None) => Err(SaveError::LocationUnavailable(String::from_str("executable path has no parent directory"))),
                    Ok(Some(dir)) => Ok(join_path(dir, sub, style)),
                }
            },
            SaveLocation::AppData { qualifier, organization, application, sub } => {
                let dirs = project_data_dir(qualifier.as_str(), organization.as_str(), application.as_str());
                let r = resolve_app_data_dir(dirs, sub, style);
                proof {
                    if is_valid_sub_path(style, sub@) && dirs is Some {
                        assert(is_project_data_dir(qualifier@, organization@, application@, dirs->0@));
                        assert(joined(style, dirs->0@, sub@) == r->Ok_0@);
                    }
                }
                r
            },
            SaveLocation::Custom(path) => Ok(path.clone()),
        }
    }
}

} // verus!
