//! Paths in the form that programs understand best.

use std::path::{Path, PathBuf, StripPrefixError};
use std::sync::Arc;
use vstd::prelude::*;
use vstd::std_specs::convert::FromSpecImpl;
use vstd::utf8;

verus! {

/// A borrowed path of the platform.
#[verifier::external_type_specification]
#[verifier::external_body]
pub struct ExPath(std::path::Path);

/// An owned path of the platform.
#[verifier::external_type_specification]
#[verifier::external_body]
pub struct ExPathBuf(std::path::PathBuf);

/// Why a prefix could not be taken off a path.
#[verifier::external_type_specification]
#[verifier::external_body]
pub struct ExStripPrefixError(std::path::StripPrefixError);

/// A component of a path. Two of them are the same where the platform's `==` on
/// components finds them equal.
pub enum PathPart {
    /// A Windows path prefix, such as a drive. Other platforms have none.
    Prefix(Seq<u8>),
    /// The root directory, after any prefix and before anything else.
    RootDir,
    /// A reference to the current directory.
    CurDir,
    /// A reference to the parent directory.
    ParentDir,
    /// A name.
    Normal(Seq<u8>),
}

/// What a path holds: the components that `Path::components` yields.
pub uninterp spec fn path_parts(path: &Path) -> Seq<PathPart>;

/// The text of a path: the bytes of `Path::as_os_str().as_encoded_bytes()`.
pub uninterp spec fn path_bytes(path: &Path) -> Seq<u8>;

/// What an owned path holds: the path of `PathBuf::as_path`.
pub uninterp spec fn buf_path(path: &PathBuf) -> &Path;

/// The text that `dunce::simplified` makes of a path with the given text and
/// components.
pub uninterp spec fn simplified_bytes(bytes: Seq<u8>, parts: Seq<PathPart>) -> Seq<u8>;

/// Whether the first component is a Windows path prefix.
pub open spec fn has_prefix(parts: Seq<PathPart>) -> bool {
    parts.len() > 0 && parts[0] is Prefix
}

/// Whether the components of a path are in their place: a prefix only at the
/// beginning, a root directory only there or after a prefix, and, in a path without a
/// prefix, a reference to the current directory only at the beginning.
pub open spec fn in_place(parts: Seq<PathPart>) -> bool {
    forall|i: int|
        0 < i < parts.len() ==> {
            &&& !(#[trigger] parts[i] is Prefix)
            &&& parts[i] is RootDir ==> i == 1 && has_prefix(parts)
            &&& parts[i] is CurDir ==> has_prefix(parts)
        }
}

/// Whether the first component is a reference to the current directory.
pub open spec fn has_dot(parts: Seq<PathPart>) -> bool {
    parts.len() > 0 && parts[0] is CurDir
}

/// The text that marks a verbatim path on Windows: two backslashes, a question mark
/// and a backslash.
pub open spec fn verbatim_mark() -> Seq<u8> {
    seq![92u8, 92u8, 63u8, 92u8]
}

/// Whether a text begins as a verbatim path does.
pub open spec fn is_verbatim(bytes: Seq<u8>) -> bool {
    bytes.len() >= 4 && bytes.take(4) == verbatim_mark()
}

/// Whether `out` is the path itself, or, for a verbatim path with a prefix, what is left
/// of its text without the verbatim mark.
pub open spec fn loses_at_most_the_mark(path: &Path, out: &Path) -> bool {
    out == path || {
        &&& has_prefix(path_parts(path))
        &&& is_verbatim(path_bytes(path))
        &&& path_bytes(out) == path_bytes(path).skip(4)
        &&& !is_verbatim(path_bytes(out))
    }
}

/// Whether `out` is the sanitized form of `path`: its text is the simplified one, and at
/// most the verbatim mark is gone.
pub open spec fn sanitizes_to(path: &Path, out: &Path) -> bool {
    &&& path_bytes(out) == simplified_bytes(path_bytes(path), path_parts(path))
    &&& loses_at_most_the_mark(path, out)
}

/// Whether `parts` begins with all of `base`.
pub open spec fn begins_with(parts: Seq<PathPart>, base: Seq<PathPart>) -> bool {
    base.len() <= parts.len() && parts.take(base.len() as int) == base
}

/// The components without a reference to the current directory at their beginning.
pub open spec fn without_dot(parts: Seq<PathPart>) -> Seq<PathPart> {
    if has_dot(parts) {
        parts.skip(1)
    } else {
        parts
    }
}

/// The components of a path adjoined to another: a path with a prefix takes the place
/// of the other, a path with a root that of all but the other's prefix, and any other
/// path is appended.
pub open spec fn adjoined(base: Seq<PathPart>, parts: Seq<PathPart>) -> Seq<PathPart> {
    if has_prefix(parts) || base.len() == 0 {
        parts
    } else if parts.len() > 0 && parts[0] is RootDir {
        if has_prefix(base) {
            base.take(1) + parts
        } else {
            parts
        }
    } else {
        base + without_dot(parts)
    }
}

/// Whether none of the components refers to the parent directory.
pub open spec fn never_climbs(parts: Seq<PathPart>) -> bool {
    forall|i: int| 0 <= i < parts.len() ==> !(#[trigger] parts[i] is ParentDir)
}

/// Whether none of the components refers to the current or the parent directory.
pub open spec fn is_normal(parts: Seq<PathPart>) -> bool {
    forall|i: int|
        0 <= i < parts.len() ==> !(#[trigger] parts[i] is CurDir) && !(parts[i] is ParentDir)
}

/// Whether `path` goes below a verbatim `base` that has more than its prefix and nothing
/// to normalize, and whose prefix is also that of `out`.
pub open spec fn keeps_verbatim(base: &Path, path: &Path, out: &Path) -> bool {
    &&& has_prefix(path_parts(base)) && is_verbatim(path_bytes(base))
    &&& path_parts(base).len() > 1 && is_normal(path_parts(base))
    &&& !has_prefix(path_parts(path))
    &&& begins_with(path_parts(out), path_parts(base).take(1))
}

/// Whether `path` goes below a prefix of `base` as it is: the prefix is also that of
/// `out`. One that is verbatim must have more after it, and nothing to normalize; any
/// other must not be directly followed by a reference to the current directory.
pub open spec fn keeps_prefix(base: &Path, path: &Path, out: &Path) -> bool {
    if is_verbatim(path_bytes(base)) {
        keeps_verbatim(base, path, out) && never_climbs(path_parts(path))
    } else {
        &&& has_prefix(path_parts(base))
        &&& begins_with(path_parts(out), path_parts(base).take(1))
        &&& path_parts(base).len() == 1 ==> !has_dot(path_parts(path))
    }
}

/// Whether `out` is `path` adjoined to `base`, for every path that takes the place of
/// the other, comes out without a prefix, or goes below a prefix as it is. What goes
/// below a verbatim path is normalized: all references to the current and the parent
/// directory are removed.
pub open spec fn joins_to(base: &Path, path: &Path, out: &Path) -> bool {
    &&& has_prefix(path_parts(path)) || !has_prefix(path_parts(out)) || keeps_prefix(
        base,
        path,
        out,
    ) ==> path_parts(out) == adjoined(path_parts(base), path_parts(path))
    &&& keeps_verbatim(base, path, out) ==> is_normal(path_parts(out))
}

/// Whether the components mean the same outside a verbatim path, where a reference to
/// the current directory is normalized away and a slash separates: none of them is such a
/// reference, and no name holds a slash.
pub open spec fn is_plain(parts: Seq<PathPart>) -> bool {
    forall|i: int|
        0 <= i < parts.len() ==> match #[trigger] parts[i] {
            PathPart::CurDir => false,
            PathPart::Normal(name) => !name.contains(47u8),
            _ => true,
        }
}

/// Whether what follows `base` in `whole` can be told by the components of `rest`: taken
/// by itself, it must not come to stand as a prefix, and in a path with a prefix not as a
/// reference to the current directory. In a verbatim path it must mean the same outside
/// of it.
pub open spec fn stands_alone(whole: &Path, base: &Path, rest: &Path) -> bool {
    &&& has_prefix(path_parts(rest)) ==> path_parts(base).len() == 0
    &&& has_prefix(path_parts(whole)) ==> !has_dot(path_parts(rest))
    &&& has_prefix(path_parts(whole)) && is_verbatim(path_bytes(whole)) ==> is_plain(
        path_parts(whole).skip(path_parts(base).len() as int),
    )
}

/// Whether `rest` is what is left of `whole` once `base` is taken off its beginning,
/// wherever that stands alone.
pub open spec fn strips_to(whole: &Path, base: &Path, rest: &Path) -> bool {
    stands_alone(whole, base, rest) ==> path_parts(whole) == path_parts(base) + path_parts(rest)
}

/// Whether a path has a parent: it does unless it is empty or ends in a root or a
/// prefix.
pub open spec fn has_parent(parts: Seq<PathPart>) -> bool {
    parts.len() > 0 && !(parts.last() is RootDir) && !(parts.last() is Prefix)
}

/// The name that a path ends in, if it ends in one.
pub open spec fn name_of(parts: Seq<PathPart>) -> Option<Seq<u8>> {
    if parts.len() > 0 && parts.last() is Normal {
        Some(parts.last()->Normal_0)
    } else {
        None
    }
}

/// Whether `at` is the place of the last dot in a name, beyond its first byte.
pub open spec fn dot_at(name: Seq<u8>, at: int) -> bool {
    &&& 0 < at < name.len()
    &&& name[at] == 46u8
    &&& forall|later: int| at < later < name.len() ==> name[later] != 46u8
}

/// `dunce::simplified`: the path without the mark of a verbatim path where that can be
/// left out, else the path as it is. A path without a Windows prefix, as every path
/// is on other platforms, is returned as it is. As with every path, the components of
/// what is returned are in their place.
#[verifier::external_body]
fn simplified(path: &Path) -> (out: &Path)
    ensures
        path_bytes(out) == simplified_bytes(path_bytes(path), path_parts(path)),
        loses_at_most_the_mark(path, out),
        in_place(path_parts(out)),
{
    dunce::simplified(path)
}

/// `AsRef::<Path>::as_ref` on a path: the path itself. As with every path, its components
/// are in their place.
#[verifier::external_body]
fn as_given(path: &Path) -> (given: &Path)
    ensures
        given == path,
        in_place(path_parts(given)),
{
    path.as_ref()
}

/// The length of the text of a path, as `Path::as_os_str` gives it.
#[verifier::external_body]
fn text_len(path: &Path) -> (len: usize)
    ensures
        len == path_bytes(path).len(),
{
    path.as_os_str().as_encoded_bytes().len()
}

/// `Arc::<Path>::from`: a copy of the path that can be shared. As with every path,
/// its components are in their place: references to the current directory are
/// normalized away but at the beginning, and a root comes before anything else but a
/// prefix.
#[verifier::external_body]
fn share(path: &Path) -> (shared: Arc<Path>)
    ensures
        &*shared == path,
        in_place(path_parts(&shared)),
{
    Arc::from(path)
}

/// `Path::starts_with`, which only considers whole components.
#[verifier::external_body]
fn path_starts_with(path: &Path, base: &Path) -> (starts: bool)
    ensures
        starts == begins_with(path_parts(path), path_parts(base)),
{
    path.starts_with(base)
}

/// `Path::file_name`: the last component where it is a name, as a path of its own.
#[verifier::external_body]
fn path_file_name(path: &Path) -> (name: Option<&Path>)
    ensures
        match name {
            Some(name) => name_of(path_parts(path)) == Some(path_bytes(name)),
            None => name_of(path_parts(path)) is None,
        },
{
    path.file_name().map(Path::new)
}

/// `Path::extension`: what follows the last dot of the name that the path ends in.
/// There is none where there is no such name, or no dot in it but at its first byte.
#[verifier::external_body]
fn path_extension(path: &Path) -> (extension: Option<&Path>)
    ensures
        match extension {
            Some(extension) => name_of(path_parts(path)) is Some && exists|at: int|
                #[trigger] dot_at(name_of(path_parts(path))->0, at) && path_bytes(extension)
                    == name_of(path_parts(path))->0.skip(at + 1),
            None => name_of(path_parts(path)) matches Some(name) ==> forall|at: int|
                !dot_at(name, at),
        },
{
    path.extension().map(Path::new)
}

/// `Path::join`: the path adjoined to the base, and normalized where the base is verbatim.
/// What comes out with another Windows prefix than either path has, what begins with a
/// reference to the current directory directly after a prefix, what is joined onto a
/// verbatim path that has nothing but its prefix or is itself not normalized, and what
/// normalizing makes of a reference to the parent directory are left unsaid.
#[verifier::external_body]
fn path_join(base: &Path, path: &Path) -> (out: PathBuf)
    ensures
        joins_to(base, path, buf_path(&out)),
{
    base.join(path)
}

/// `Path::parent`: the path without its last component, if there is one and it is
/// neither a root nor a prefix.
#[verifier::external_body]
fn path_parent(path: &Path) -> (parent: Option<&Path>)
    ensures
        match parent {
            Some(parent) => has_parent(path_parts(path)) && path_parts(parent) == path_parts(
                path,
            ).drop_last(),
            None => !has_parent(path_parts(path)),
        },
{
    path.parent()
}

/// `Path::strip_prefix`: what is left of the path without the base, which must be at
/// its beginning. On Windows a rest is left unsaid that by itself begins with a prefix,
/// that begins with a reference to the current directory where the path has a prefix, or
/// that holds such a reference or a slash in a name where the path is verbatim.
#[verifier::external_body]
fn path_strip_prefix<'a>(path: &'a Path, base: &Path) -> (rest: Result<&'a Path, StripPrefixError>)
    ensures
        match rest {
            Ok(rest) => begins_with(path_parts(path), path_parts(base)) && strips_to(
                path,
                base,
                rest,
            ),
            Err(_) => !begins_with(path_parts(path), path_parts(base)),
        },
{
    path.strip_prefix(base)
}

/// `Path::to_str`: the text of the path where it is valid Unicode.
#[verifier::external_body]
fn path_to_str(path: &Path) -> (text: Option<&str>)
    ensures
        match text {
            Some(text) => utf8::encode_utf8(text@) == path_bytes(path),
            None => !utf8::valid_utf8(path_bytes(path)),
        },
{
    path.to_str()
}

/// `Path::to_path_buf`: the same path, owned.
#[verifier::external_body]
fn path_to_buf(path: &Path) -> (out: PathBuf)
    ensures
        buf_path(&out) == path,
{
    path.to_path_buf()
}

/// `Path::display`, printed: the text of the path where it is valid Unicode. What is
/// printed for other bytes is left unsaid.
#[verifier::external_body]
fn path_display(path: &Path) -> (text: String)
    ensures
        utf8::valid_utf8(path_bytes(path)) ==> utf8::encode_utf8(text@) == path_bytes(path),
{
    format!("{}", path.display())
}

/// Whether `Path::join` can make `out` of the two paths.
pub closed spec fn joined_by_std(base: &Path, path: &Path, out: PathBuf) -> bool {
    call_ensures(path_join, (base, path), out)
}

/// Whether `Path::parent` can give `parent` for the path.
pub closed spec fn parent_by_std(path: &Path, parent: Option<&Path>) -> bool {
    call_ensures(path_parent, (path,), parent)
}

/// Whether `Path::strip_prefix` can give `rest` for the two paths.
pub closed spec fn stripped_by_std(
    path: &Path,
    base: &Path,
    rest: Result<&Path, StripPrefixError>,
) -> bool {
    call_ensures(path_strip_prefix, (path, base), rest)
}

/// Whether `Path::display` can show the path as `text`.
pub closed spec fn displayed_by_std(path: &Path, text: String) -> bool {
    call_ensures(path_display, (path,), text)
}

/// A path that was sanitized: on Windows the verbatim mark is taken off where it can
/// be left out, elsewhere the path is as it was given. It is borrowed: making one copies
/// nothing.
#[derive(Clone, Copy, PartialEq, Eq, Hash, PartialOrd, Ord)]
pub struct SanitizedPath<'a> {
    path: &'a Path,
}

/// A sanitized path that is shared.
#[derive(PartialEq, Eq, Hash, PartialOrd, Ord)]
pub struct SharedSanitizedPath {
    path: Arc<Path>,
}

impl Clone for SharedSanitizedPath {
    fn clone(&self) -> (shared: Self)
        ensures
            shared.path() == self.path(),
    {
        SharedSanitizedPath { path: self.path.clone() }
    }
}

impl SharedSanitizedPath {
    /// The path itself.
    pub closed spec fn path(&self) -> &Path {
        &*self.path
    }

    /// Whether the components of the path are in their place.
    pub open spec fn wf(&self) -> bool {
        in_place(path_parts(self.path()))
    }

    /// The sanitized path that is shared.
    pub fn as_sanitized(&self) -> (sanitized: SanitizedPath<'_>)
        ensures
            sanitized.path() == self.path(),
    {
        SanitizedPath { path: &self.path }
    }
}

impl<'a> SanitizedPath<'a> {
    /// The path itself.
    pub closed spec fn path(&self) -> &'a Path {
        self.path
    }

    /// Whether the components of the path are in their place.
    pub open spec fn wf(&self) -> bool {
        in_place(path_parts(self.path()))
    }

    /// Sanitizes a path.
    pub fn new(path: &'a Path) -> (sanitized: Self)
        ensures
            sanitized.wf(),
            sanitizes_to(path, sanitized.path()),
            !has_prefix(path_parts(path)) ==> sanitized.path() == path,
    {
        Self::unchecked_new(simplified(path))
    }

    /// Takes a path as it is.
    pub fn unchecked_new(path: &'a Path) -> (sanitized: Self)
        ensures
            sanitized.wf(),
            sanitized.path() == path,
    {
        SanitizedPath { path: as_given(path) }
    }

    /// Sanitizes a shared path. Where that changes nothing, the path stays shared: it is
    /// not copied.
    pub fn from_arc(path: Arc<Path>) -> (sanitized: SharedSanitizedPath)
        ensures
            sanitized.wf(),
            sanitizes_to(&path, sanitized.path()),
            !has_prefix(path_parts(&path)) ==> sanitized.path() == &*path,
    {
        let out = simplified(&path);
        if text_len(out) == text_len(&path) {
            SharedSanitizedPath { path }
        } else {
            SharedSanitizedPath { path: share(out) }
        }
    }

    /// Sanitizes a path, to be shared.
    pub fn new_arc(path: &Path) -> (sanitized: SharedSanitizedPath)
        ensures
            sanitized.wf(),
            sanitizes_to(path, sanitized.path()),
            !has_prefix(path_parts(path)) ==> sanitized.path() == path,
    {
        SharedSanitizedPath { path: share(simplified(path)) }
    }

    /// The path of a shared sanitized path.
    pub fn cast_arc(path: SharedSanitizedPath) -> (inner: Arc<Path>)
        ensures
            &*inner == path.path(),
    {
        path.path
    }

    /// The path of a shared sanitized path.
    pub fn cast_arc_ref(path: &SharedSanitizedPath) -> (inner: &Arc<Path>)
        ensures
            &**inner == path.path(),
    {
        &path.path
    }

    /// Whether the path begins with all components of the prefix.
    pub fn starts_with(&self, prefix: &SanitizedPath<'_>) -> (starts: bool)
        ensures
            starts == begins_with(path_parts(self.path()), path_parts(prefix.path())),
    {
        path_starts_with(self.path, prefix.path)
    }

    /// The path itself.
    pub fn as_path(&self) -> (path: &'a Path)
        ensures
            path == self.path(),
    {
        self.path
    }

    /// The name that the path ends in.
    pub fn file_name(&self) -> (name: Option<&'a Path>)
        ensures
            match name {
                Some(name) => name_of(path_parts(self.path())) == Some(path_bytes(name)),
                None => name_of(path_parts(self.path())) is None,
            },
    {
        path_file_name(self.path)
    }

    /// What follows the last dot of the name that the path ends in, unless the name
    /// has no dot beyond its first byte.
    pub fn extension(&self) -> (extension: Option<&'a Path>)
        ensures
            match extension {
                Some(extension) => name_of(path_parts(self.path())) is Some && exists|at: int|
                    #[trigger] dot_at(name_of(path_parts(self.path()))->0, at) && path_bytes(
                        extension,
                    ) == name_of(path_parts(self.path()))->0.skip(at + 1),
                None => name_of(path_parts(self.path())) matches Some(name) ==> forall|at: int|
                    !dot_at(name, at),
            },
    {
        path_extension(self.path)
    }

    /// The given path adjoined to this one.
    pub fn join(&self, path: &Path) -> (joined: PathBuf)
        ensures
            joins_to(self.path(), path, buf_path(&joined)),
            joined_by_std(self.path(), path, joined),
    {
        path_join(self.path, path)
    }

    /// The path without its last component.
    pub fn parent(&self) -> (parent: Option<Self>)
        ensures
            match parent {
                Some(parent) => parent.wf() && has_parent(path_parts(self.path())) && path_parts(
                    parent.path(),
                ) == path_parts(self.path()).drop_last(),
                None => !has_parent(path_parts(self.path())),
            },
            parent_by_std(
                self.path(),
                match parent {
                    Some(parent) => Some(parent.path()),
                    None => None,
                },
            ),
    {
        match path_parent(self.path) {
            Some(parent) => Some(Self::unchecked_new(parent)),
            None => None,
        }
    }

    /// What is left of the path without the base, which must be at its beginning.
    pub fn strip_prefix(&self, base: &SanitizedPath<'_>) -> (rest: Result<
        &'a Path,
        StripPrefixError,
    >)
        ensures
            match rest {
                Ok(rest) => begins_with(path_parts(self.path()), path_parts(base.path()))
                    && strips_to(self.path(), base.path(), rest),
                Err(_) => !begins_with(path_parts(self.path()), path_parts(base.path())),
            },
            stripped_by_std(self.path(), base.path(), rest),
    {
        path_strip_prefix(self.path, base.as_path())
    }

    /// The text of the path, where it is valid Unicode.
    pub fn to_str(&self) -> (text: Option<&'a str>)
        ensures
            match text {
                Some(text) => utf8::encode_utf8(text@) == path_bytes(self.path()),
                None => !utf8::valid_utf8(path_bytes(self.path())),
            },
    {
        path_to_str(self.path)
    }

    /// The path, owned.
    pub fn to_path_buf(&self) -> (out: PathBuf)
        ensures
            buf_path(&out) == self.path(),
    {
        path_to_buf(self.path)
    }

    /// The path as it is shown: its text, where that is valid Unicode.
    pub fn to_string(&self) -> (text: String)
        ensures
            utf8::valid_utf8(path_bytes(self.path())) ==> utf8::encode_utf8(text@) == path_bytes(
                self.path(),
            ),
            displayed_by_std(self.path(), text),
    {
        path_display(self.path)
    }
}

impl From<&SanitizedPath<'_>> for SharedSanitizedPath {
    fn from(sanitized_path: &SanitizedPath<'_>) -> (shared: SharedSanitizedPath)
        ensures
            shared.path() == sanitized_path.path(),
            shared.wf(),
    {
        SharedSanitizedPath { path: share(sanitized_path.path) }
    }
}

impl FromSpecImpl<&SanitizedPath<'_>> for SharedSanitizedPath {
    open spec fn obeys_from_spec() -> bool {
        false
    }

    open spec fn from_spec(sanitized_path: &SanitizedPath<'_>) -> SharedSanitizedPath {
        arbitrary()
    }
}

impl From<&SanitizedPath<'_>> for PathBuf {
    fn from(sanitized_path: &SanitizedPath<'_>) -> (out: PathBuf)
        ensures
            buf_path(&out) == sanitized_path.path(),
    {
        path_to_buf(sanitized_path.as_path())
    }
}

impl FromSpecImpl<&SanitizedPath<'_>> for PathBuf {
    open spec fn obeys_from_spec() -> bool {
        false
    }

    open spec fn from_spec(sanitized_path: &SanitizedPath<'_>) -> PathBuf {
        arbitrary()
    }
}

impl AsRef<Path> for SanitizedPath<'_> {
    fn as_ref(&self) -> (path: &Path)
        ensures
            path == self.path(),
    {
        self.path
    }
}

/// Without a Windows prefix sanitizing changes nothing, and casting a shared sanitized
/// path gives back the path that it was made from. On other platforms than Windows
/// this is every path.
pub proof fn law_no_prefix_no_change(path: &Path, sanitized: &SharedSanitizedPath, inner: &Path)
    requires
        !has_prefix(path_parts(path)),
        sanitizes_to(path, sanitized.path()),
        inner == sanitized.path(),
    ensures
        sanitized.path() == path,
        inner == path,
{
}

/// Sanitizing a path a second time changes nothing.
pub proof fn law_sanitizing_is_idempotent(path: &Path, once: &Path, twice: &Path)
    requires
        sanitizes_to(path, once),
        sanitizes_to(once, twice),
    ensures
        twice == once,
{
}

/// Sanitizing never makes a path longer, and takes off nothing but the verbatim mark.
pub proof fn law_sanitizing_keeps_the_rest(path: &Path, out: &Path)
    requires
        sanitizes_to(path, out),
    ensures
        path_bytes(path) == path_bytes(out) || path_bytes(path) == verbatim_mark() + path_bytes(
            out,
        ),
{
    if out != path {
        assert(path_bytes(path) =~= path_bytes(path).take(4) + path_bytes(path).skip(4));
    }
}

/// What is left of a path without its beginning, joined onto that beginning, yields
/// the path.
pub proof fn law_join_restores_what_was_stripped(
    whole: &SanitizedPath,
    base: &SanitizedPath,
    rest: &Path,
    joined: &Path,
)
    requires
        whole.wf(),
        !has_prefix(path_parts(whole.path())),
        !has_prefix(path_parts(joined)),
        strips_to(whole.path(), base.path(), rest),
        joins_to(base.path(), rest, joined),
    ensures
        path_parts(joined) == path_parts(whole.path()),
{
    let all = path_parts(whole.path());
    let front = path_parts(base.path());
    let back = path_parts(rest);
    if front.len() > 0 && back.len() > 0 {
        assert(all[front.len() as int] == back[0]);
    } else if front.len() == 0 {
        assert(all =~= back);
    }
}

/// What is left of a path with a Windows prefix without its beginning, joined onto that
/// beginning, yields the path, where what is left stands alone and goes below the prefix
/// as it is.
pub proof fn law_join_restores_below_a_prefix(
    whole: &SanitizedPath,
    base: &SanitizedPath,
    rest: &Path,
    joined: &Path,
)
    requires
        whole.wf(),
        has_prefix(path_parts(whole.path())),
        stands_alone(whole.path(), base.path(), rest),
        path_parts(base.path()).len() == 0 || keeps_prefix(base.path(), rest, joined),
        strips_to(whole.path(), base.path(), rest),
        joins_to(base.path(), rest, joined),
    ensures
        path_parts(joined) == path_parts(whole.path()),
{
    let all = path_parts(whole.path());
    let front = path_parts(base.path());
    let back = path_parts(rest);
    if front.len() == 0 {
        assert(all =~= back);
    } else if back.len() > 0 {
        assert(all[front.len() as int] == back[0]);
        if front.len() == 1 {
            assert(front.take(1) =~= front);
        }
    }
}

/// A path begins with its parent, and the parent with the last component at its end
/// is the path, unless, below a Windows prefix, that is a reference to the current
/// directory, which is not appended.
pub proof fn law_parent_is_a_beginning(path: &SanitizedPath, parent: &SanitizedPath)
    requires
        path.wf(),
        has_parent(path_parts(path.path())),
        path_parts(parent.path()) == path_parts(path.path()).drop_last(),
    ensures
        begins_with(path_parts(path.path()), path_parts(parent.path())),
        !(has_prefix(path_parts(path.path())) && path_parts(path.path()).last() is CurDir)
            ==> adjoined(path_parts(parent.path()), seq![path_parts(path.path()).last()])
            == path_parts(path.path()),
{
    let parts = path_parts(path.path());
    assert(parts.take(parts.len() - 1) =~= parts.drop_last());
    assert(parts.drop_last() + seq![parts.last()] =~= parts);
}

/// Beginning with one another is an order: every path begins with itself, what begins
/// with a longer beginning begins with a shorter one, and two paths that begin with
/// one another have the same components.
pub proof fn law_beginnings_are_ordered(a: Seq<PathPart>, b: Seq<PathPart>, c: Seq<PathPart>)
    ensures
        begins_with(a, a),
        begins_with(a, b) && begins_with(b, c) ==> begins_with(a, c),
        begins_with(a, b) && begins_with(b, a) ==> a == b,
{
    assert(a.take(a.len() as int) =~= a);
    if begins_with(a, b) && begins_with(b, c) {
        assert(a.take(c.len() as int) =~= b.take(c.len() as int));
    }
    if begins_with(a, b) && begins_with(b, a) {
        assert(a.take(b.len() as int) =~= a);
    }
}

/// What is joined, stripped, shown or called a parent here is so by the platform's own
/// functions.
proof fn law_paths_are_the_platforms(
    path: &Path,
    other: &Path,
    joined: PathBuf,
    parent: Option<&Path>,
    rest: Result<&Path, StripPrefixError>,
    text: String,
)
    ensures
        joined_by_std(path, other, joined) ==> call_ensures(path_join, (path, other), joined),
        parent_by_std(path, parent) ==> call_ensures(path_parent, (path,), parent),
        stripped_by_std(path, other, rest) ==> call_ensures(
            path_strip_prefix,
            (path, other),
            rest,
        ),
        displayed_by_std(path, text) ==> call_ensures(path_display, (path,), text),
{
}

/// Sanitizing gives the text that is the simplified one of the path, and that is the
/// path's own, but for two backslashes, a question mark and a backslash at the beginning
/// of a path with a Windows prefix. Once these are gone they do not stand there again.
pub proof fn law_sanitizing_takes_off_the_mark(path: &Path, out: &Path)
    requires
        sanitizes_to(path, out),
    ensures
        path_bytes(out) == simplified_bytes(path_bytes(path), path_parts(path)),
        out == path || {
            &&& path_parts(path).len() > 0
            &&& path_parts(path)[0] is Prefix
            &&& path_bytes(path) == seq![92u8, 92u8, 63u8, 92u8] + path_bytes(out)
            &&& path_bytes(out).len() < 4 || path_bytes(out)[0] != 92u8 || path_bytes(out)[1]
                != 92u8 || path_bytes(out)[2] != 63u8 || path_bytes(out)[3] != 92u8
        },
{
    if out != path {
        assert(path_bytes(path) =~= path_bytes(path).take(4) + path_bytes(path).skip(4));
        let text = path_bytes(out);
        if text.len() >= 4 && text[0] == 92u8 && text[1] == 92u8 && text[2] == 63u8 && text[3]
            == 92u8 {
            assert(text.take(4) =~= verbatim_mark());
        }
    }
}

/// A path begins with another exactly where it is the other and some more components,
/// or none.
pub proof fn law_a_beginning_leaves_a_rest(parts: Seq<PathPart>, base: Seq<PathPart>)
    ensures
        begins_with(parts, base) <==> exists|rest: Seq<PathPart>| parts == #[trigger] (base + rest),
{
    if begins_with(parts, base) {
        assert(parts =~= base + parts.skip(base.len() as int));
    }
    if exists|rest: Seq<PathPart>| parts == #[trigger] (base + rest) {
        let rest = choose|rest: Seq<PathPart>| parts == #[trigger] (base + rest);
        assert(parts.take(base.len() as int) =~= base);
    }
}

/// A path ends in a name, and has a parent, by its last component alone, whatever comes
/// before it: the name of a path that ends in a name is that name, and only a root and a
/// prefix have no parent. An empty path has neither.
pub proof fn law_the_last_component_decides(front: Seq<PathPart>, last: PathPart)
    ensures
        name_of(front.push(last)) == (match last {
            PathPart::Normal(name) => Some(name),
            _ => None,
        }),
        has_parent(front.push(last)) == (match last {
            PathPart::Normal(_) | PathPart::ParentDir | PathPart::CurDir => true,
            PathPart::RootDir | PathPart::Prefix(_) => false,
        }),
        front.push(last).drop_last() == front,
        name_of(Seq::empty()) is None,
        !has_parent(Seq::empty()),
{
    assert(front.push(last).drop_last() =~= front);
}

/// A name is a stem and an extension with the dot between them that has no dot after it,
/// unless the stem is empty: that dot, and no other place, is where the name is parted.
/// A name with no dot beyond its first byte is not parted.
pub proof fn law_names_part_at_the_last_dot(stem: Seq<u8>, extension: Seq<u8>, name: Seq<u8>)
    requires
        stem.len() > 0,
        !extension.contains(46u8),
        forall|i: int| 0 < i < name.len() ==> name[i] != 46u8,
    ensures
        dot_at(stem + seq![46u8] + extension, stem.len() as int),
        forall|at: int|
            #[trigger] dot_at(stem + seq![46u8] + extension, at) ==> at == stem.len(),
        (stem + seq![46u8] + extension).skip(stem.len() + 1int) == extension,
        forall|at: int| !#[trigger] dot_at(name, at),
{
    let whole = stem + seq![46u8] + extension;
    assert forall|later: int| stem.len() < later < whole.len() implies whole[later] != 46u8 by {
        assert(whole[later] == extension[later - stem.len() - 1]);
        assert(extension.contains(extension[later - stem.len() - 1]));
    }
    assert(whole[stem.len() as int] == 46u8);
    assert(whole.skip(stem.len() + 1int) =~= extension);
}

/// Joining paths without a Windows prefix, into one without: a path with a root takes the
/// place of the base, and so does any path that is joined onto an empty one. Every other
/// path comes after all of the base, without a reference to the current directory at its
/// beginning.
pub proof fn law_joining_appends_or_replaces(base: &Path, path: &Path, out: &Path)
    requires
        joins_to(base, path, out),
        forall|i: int| 0 <= i < path_parts(base).len() ==> !(#[trigger] path_parts(base)[i] is Prefix),
        forall|i: int| 0 <= i < path_parts(path).len() ==> !(#[trigger] path_parts(path)[i] is Prefix),
        forall|i: int| 0 <= i < path_parts(out).len() ==> !(#[trigger] path_parts(out)[i] is Prefix),
    ensures
        path_parts(base).len() == 0 ==> path_parts(out) == path_parts(path),
        path_parts(path).len() > 0 && path_parts(path)[0] is RootDir ==> path_parts(out)
            == path_parts(path),
        path_parts(base).len() > 0 && path_parts(path).len() > 0 && path_parts(path)[0]
            is CurDir ==> path_parts(out) == path_parts(base) + path_parts(path).skip(1),
        path_parts(path).len() == 0 ==> path_parts(out) == path_parts(base),
        path_parts(path).len() > 0 && (path_parts(path)[0] is Normal || path_parts(path)[0]
            is ParentDir) ==> path_parts(out) == path_parts(base) + path_parts(path),
{
    let front = path_parts(base);
    let back = path_parts(path);
    if back.len() == 0 {
        assert(front + back =~= front);
    }
    if front.len() == 0 {
        assert(front + back =~= back);
    }
}

/// Joining where Windows prefixes come in: a path with a prefix takes the place of the
/// base. Onto a base with a prefix that is not verbatim, into a path with that prefix, a
/// path with a root replaces all but the prefix, and a path that begins with a name or a
/// reference to the parent directory comes after all of the base.
pub proof fn law_joining_below_a_prefix(base: &Path, path: &Path, out: &Path)
    requires
        joins_to(base, path, out),
    ensures
        path_parts(path).len() > 0 && path_parts(path)[0] is Prefix ==> path_parts(out)
            == path_parts(path),
        path_parts(base).len() > 0 && path_parts(base)[0] is Prefix && !is_verbatim(
            path_bytes(base),
        ) && path_parts(out).len() > 0 && path_parts(out)[0] == path_parts(base)[0] && path_parts(
            path,
        ).len() > 0 ==> match path_parts(path)[0] {
            PathPart::RootDir => path_parts(out) == seq![path_parts(base)[0]] + path_parts(path),
            PathPart::Normal(_) | PathPart::ParentDir => path_parts(out) == path_parts(base)
                + path_parts(path),
            _ => true,
        },
{
    let front = path_parts(base);
    if front.len() > 0 {
        assert(front.take(1) =~= seq![front[0]]);
        if path_parts(out).len() > 0 && path_parts(out)[0] == front[0] {
            assert(path_parts(out).take(1) =~= front.take(1));
        }
    }
}

/// What is left of a path without its beginning is the rest of its components, in a path
/// without a Windows prefix, where what is left does not read as one.
pub proof fn law_stripping_leaves_the_rest(
    whole: &Path,
    base: &Path,
    rest: &Path,
    tail: Seq<PathPart>,
)
    requires
        strips_to(whole, base, rest),
        path_parts(whole) == path_parts(base) + tail,
        forall|i: int|
            0 <= i < path_parts(whole).len() ==> !(#[trigger] path_parts(whole)[i] is Prefix),
        forall|i: int|
            0 <= i < path_parts(rest).len() ==> !(#[trigger] path_parts(rest)[i] is Prefix),
    ensures
        path_parts(rest) == tail,
{
    let front = path_parts(base);
    assert(path_parts(rest) =~= (front + path_parts(rest)).skip(front.len() as int));
    assert(tail =~= (front + tail).skip(front.len() as int));
}

} // verus!
