//! Where the app keeps its files: the root data directory (a `myquest`
//! folder in the user's documents, or the working directory) and the paths of
//! the habits, todos and timeline files under it.
use crate::text::push_str;
use vstd::prelude::*;

verus! {

/// What `Path::new(base).join(part)` gives, as text.
pub uninterp spec fn path_joined(base: Seq<char>, part: Seq<char>) -> Seq<char>;

/// `Path::join`. Trusted: the result is the standard library's join of
/// `part` onto `base` (converted to text), named `path_joined`.
#[verifier::external_body]
pub(crate) fn join_path(base: &str, part: &str) -> (r: String)
    ensures
        r@ == path_joined(base@, part@),
{
    std::path::Path::new(base).join(part).to_string_lossy().into_owned()
}

/// What `Path::new(p).extension()` gives, as text.
pub uninterp spec fn extension_of(p: Seq<char>) -> Option<Seq<char>>;

/// `Path::extension`. Trusted: the result is the standard library's
/// extension of the path (converted to text), named `extension_of`.
#[verifier::external_body]
pub(crate) fn path_extension(p: &str) -> (r: Option<String>)
    ensures
        r is None ==> extension_of(p@) is None,
        r matches Some(e) ==> extension_of(p@) == Some(e@),
{
    std::path::Path::new(p).extension().map(|e| e.to_string_lossy().into_owned())
}

/// What `Path::new(p).file_name()` gives, as text.
pub uninterp spec fn file_name_of(p: Seq<char>) -> Option<Seq<char>>;

/// `Path::file_name`. Trusted: the result is the standard library's final
/// component of the path (converted to text), named `file_name_of`.
#[verifier::external_body]
pub(crate) fn path_file_name(p: &str) -> (r: Option<String>)
    ensures
        r is None ==> file_name_of(p@) is None,
        r matches Some(n) ==> file_name_of(p@) == Some(n@),
{
    std::path::Path::new(p).file_name().map(|n| n.to_string_lossy().into_owned())
}

/// What `Path::new(p).file_stem()` gives, as text.
pub uninterp spec fn file_stem_of(p: Seq<char>) -> Option<Seq<char>>;

/// `Path::file_stem`. Trusted: the result is the standard library's file
/// name without its extension (converted to text), named `file_stem_of`.
#[verifier::external_body]
pub(crate) fn path_file_stem(p: &str) -> (r: Option<String>)
    ensures
        r is None ==> file_stem_of(p@) is None,
        r matches Some(n) ==> file_stem_of(p@) == Some(n@),
{
    std::path::Path::new(p).file_stem().map(|n| n.to_string_lossy().into_owned())
}

/// The user's directories (`directories::UserDirs`), carried through opaque.
#[verifier::external_type_specification]
#[verifier::external_body]
pub struct ExUserDirs(directories::UserDirs);

/// `directories::UserDirs::new`. Trusted: the user's directories, when the
/// platform has a home directory; which come back rests on the environment,
/// so nothing is claimed.
#[verifier::external_body]
fn user_dirs() -> (r: Option<directories::UserDirs>) {
    directories::UserDirs::new()
}

/// `UserDirs::home_dir`. Trusted: the user's home directory as text; it rests
/// on the environment, so nothing is claimed.
#[verifier::external_body]
fn home_dir(dirs: &directories::UserDirs) -> (r: String) {
    dirs.home_dir().to_string_lossy().into_owned()
}

/// `UserDirs::document_dir`. Trusted: the user's documents directory as
/// text, if the platform has one; it rests on the environment, so nothing is
/// claimed.
#[verifier::external_body]
fn document_dir(dirs: &directories::UserDirs) -> (r: Option<String>) {
    dirs.document_dir().map(|p| p.to_string_lossy().into_owned())
}

/// The user's folders as the platform reports them: the documents folder, if
/// there is one, and the home folder.
#[derive(Debug, Clone)]
pub struct UserFolders {
    pub documents: Option<String>,
    pub home: String,
}

/// The folder the data directory goes in: the documents folder, or the home
/// folder when there is none.
pub open spec fn base_choice(documents: Option<Seq<char>>, home: Seq<char>) -> Seq<char> {
    match documents {
        Some(d) => d,
        None => home,
    }
}

/// The view of an optional string.
pub open spec fn opt_view(s: Option<String>) -> Option<Seq<char>> {
    match s {
        Some(t) => Some(t@),
        None => None,
    }
}

/// `document_dir().unwrap_or_else(|| home_dir())`: the documents folder, or
/// the home folder when there is none.
pub fn base_dir(documents: Option<String>, home: String) -> (r: String)
    ensures
        r@ == base_choice(opt_view(documents), home@),
{
    match documents {
        Some(d) => d,
        None => home,
    }
}

/// The user's folders, when the platform knows them (`UserDirs::new()`
/// succeeds). Which folders come back rests on the environment.
pub fn user_folders() -> (r: Option<UserFolders>) {
    match user_dirs() {
        Some(dirs) => {
            let documents = document_dir(&dirs);
            let home = home_dir(&dirs);
            Some(UserFolders { documents, home })
        },
        None => None,
    }
}

/// The user's folders together with the folder the data directory goes in,
/// chosen from them; `None` when the user's folders are unknown.
pub fn documents_base() -> (r: Option<(UserFolders, String)>)
    ensures
        r matches Some(fb) ==> fb.1@ == base_choice(opt_view(fb.0.documents), fb.0.home@),
{
    match user_folders() {
        Some(folders) => {
            let base = base_dir(folders.documents.clone(), folders.home.clone());
            Some((folders, base))
        },
        None => None,
    }
}

/// The data directory the app wants: `myquest` inside the chosen base
/// folder; `None` when there is no base folder.
pub fn root_candidate(base: Option<String>) -> (r: Option<String>)
    ensures
        r is None <==> base is None,
        base matches Some(b) ==> r matches Some(p) && p@ == path_joined(b@, "myquest"@),
{
    match base {
        Some(b) => Some(join_path(b.as_str(), "myquest")),
        None => None,
    }
}

/// The data directory in use: the wanted one when it exists (or could be
/// created), the working directory `.` otherwise.
pub open spec fn chosen_root(candidate: Option<Seq<char>>, created: bool) -> Seq<char> {
    match candidate {
        Some(p) => if created {
            p
        } else {
            "."@
        },
        None => "."@,
    }
}

/// Owns the root data directory and derives the data file paths from it.
#[derive(Debug, Clone)]
pub struct PathManager {
    root_dir: String,
}

impl PathManager {
    /// The root data directory.
    pub closed spec fn root(&self) -> Seq<char> {
        self.root_dir@
    }

    /// A path manager rooted at the wanted data directory when it could be
    /// created, at `.` otherwise.
    pub fn new(candidate: Option<String>, created: bool) -> (r: PathManager)
        ensures
            r.root() == chosen_root(
                match candidate {
                    Some(p) => Some(p@),
                    None => None,
                },
                created,
            ),
    {
        let root_dir = match candidate {
            Some(p) => if created {
                p
            } else {
                let mut d = String::new();
                push_str(&mut d, ".");
                d
            },
            None => {
                let mut d = String::new();
                push_str(&mut d, ".");
                d
            },
        };
        PathManager { root_dir }
    }

    /// The root data directory.
    pub fn root_dir(&self) -> (r: String)
        ensures
            r@ == self.root(),
    {
        self.root_dir.clone()
    }

    /// `<root>/habits`.
    pub fn habits_dir(&self) -> (r: String)
        ensures
            r@ == path_joined(self.root(), "habits"@),
    {
        join_path(self.root_dir.as_str(), "habits")
    }

    /// `<root>/timelines`.
    pub fn timelines_dir(&self) -> (r: String)
        ensures
            r@ == path_joined(self.root(), "timelines"@),
    {
        join_path(self.root_dir.as_str(), "timelines")
    }

    /// `<root>/habits/habits.json`.
    pub fn habits_file(&self) -> (r: String)
        ensures
            r@ == path_joined(path_joined(self.root(), "habits"@), "habits.json"@),
    {
        let dir = self.habits_dir();
        join_path(dir.as_str(), "habits.json")
    }

    /// `<root>/todos.json`.
    pub fn todos_file(&self) -> (r: String)
        ensures
            r@ == path_joined(self.root(), "todos.json"@),
    {
        join_path(self.root_dir.as_str(), "todos.json")
    }

    /// `<root>/timelines/<name>.yaml`.
    pub fn timeline_file(&self, name: &str) -> (r: String)
        ensures
            r@ == path_joined(path_joined(self.root(), "timelines"@), name@ + ".yaml"@),
    {
        let dir = self.timelines_dir();
        let mut file = String::new();
        push_str(&mut file, name);
        push_str(&mut file, ".yaml");
        join_path(dir.as_str(), file.as_str())
    }
}

} // verus!
