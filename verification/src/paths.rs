//! Paths as texts, joined as the platform joins them.
use std::path::Path;
use vstd::prelude::*;

verus! {

/// Whether a character separates the parts of a path on some platform.
pub open spec fn separates(c: char) -> bool {
    c == '/' || c == '\\'
}

/// How paths are written where the library runs. There is no way to make one
/// but to ask for the platform at hand.
#[derive(Clone, Copy)]
pub struct Platform {
    separator: char,
    backslash: bool,
}

/// `std::path::MAIN_SEPARATOR` is the character that the platform puts between
/// the parts of a path. Which one that is depends on the platform, so nothing is
/// claimed of it.
#[verifier::external_body]
fn main_separator() -> (r: char) {
    std::path::MAIN_SEPARATOR
}

/// `std::path::is_separator` tells whether a character separates the parts of a
/// path. The answer depends on the platform, so nothing is claimed of it.
#[verifier::external_body]
fn is_native_separator(c: char) -> (r: bool) {
    std::path::is_separator(c)
}

impl Platform {
    /// What is put between two parts of a path.
    pub closed spec fn separator(self) -> char {
        self.separator
    }

    /// Whether backslashes separate the parts of a path too.
    pub closed spec fn backslash_separates(self) -> bool {
        self.backslash
    }

    /// The platform that the library runs on. Nothing is said of what it is.
    pub fn here() -> (r: Self) {
        Platform { separator: main_separator(), backslash: is_native_separator('\\') }
    }

    /// Tells whether backslashes separate the parts of a path too.
    pub fn uses_backslashes(&self) -> (r: bool)
        ensures
            r == self.backslash_separates(),
    {
        self.backslash
    }
}

/// A path extended by `rest` where only slashes separate. A `rest` that begins
/// at the root takes the place of `base`.
pub open spec fn slash_joined(base: Seq<char>, rest: Seq<char>) -> Seq<char> {
    if rest.len() > 0 && rest[0] == '/' {
        rest
    } else if base.len() == 0 || base.last() == '/' {
        base + rest
    } else {
        base.push('/') + rest
    }
}

/// Whether `rest` names neither a root nor a drive, and `base` is neither a bare
/// drive nor of the kind that is taken word for word, as `\\?\C:\assets` is.
pub open spec fn plain_join(base: Seq<char>, rest: Seq<char>) -> bool {
    &&& rest.len() > 0
    &&& !separates(rest[0])
    &&& rest.len() > 1 ==> rest[1] != ':'
    &&& base.len() > 0 ==> base.last() != ':'
    &&& base.len() > 2 ==> !(separates(base[0]) && separates(base[1]) && base[2] == '?')
}

/// A path extended by `rest`, with `separator` between the two unless one is
/// there.
pub open spec fn plainly_joined(separator: char, base: Seq<char>, rest: Seq<char>) -> Seq<char> {
    if base.len() == 0 || separates(base.last()) {
        base + rest
    } else {
        base.push(separator) + rest
    }
}

/// What a path extended by `rest` is where backslashes separate too and
/// `separator` is put between parts. Drives, roots and paths that are taken word
/// for word all have rules of their own there.
pub uninterp spec fn backslash_joined(
    separator: char,
    base: Seq<char>,
    rest: Seq<char>,
) -> Seq<char>;

/// A path extended by `rest`.
pub open spec fn path_joined(platform: Platform, base: Seq<char>, rest: Seq<char>) -> Seq<char> {
    if !platform.backslash_separates() {
        slash_joined(base, rest)
    } else if plain_join(base, rest) {
        plainly_joined(platform.separator(), base, rest)
    } else {
        backslash_joined(platform.separator(), base, rest)
    }
}

/// `std::path::Path::join` extends a path. Where only slashes separate, an
/// absolute `rest` takes the place of `base`, and otherwise a slash goes between
/// the two unless one is there. Where backslashes separate too, the platform's
/// separator goes between the two in plain cases, and the result has a name in
/// the others. A `Platform` is always that of the machine, so it says which of
/// these holds.
#[verifier::external_body]
fn native_join(platform: Platform, base: &str, rest: &str) -> (r: String)
    ensures
        !platform.backslash_separates() ==> r@ == slash_joined(base@, rest@),
        platform.backslash_separates() && plain_join(base@, rest@) ==> r@ == plainly_joined(
            platform.separator(),
            base@,
            rest@,
        ),
        platform.backslash_separates() && !plain_join(base@, rest@) ==> r@ == backslash_joined(
            platform.separator(),
            base@,
            rest@,
        ),
{
    Path::new(base).join(rest).to_string_lossy().into_owned()
}

/// Extends the path `base` by `rest`.
pub fn join_path(platform: Platform, base: &str, rest: &str) -> (r: String)
    ensures
        r@ == path_joined(platform, base@, rest@),
{
    native_join(platform, base, rest)
}

/// Whether joining `name` to `base` leads below `base`.
pub open spec fn stays_below(platform: Platform, base: Seq<char>, name: Seq<char>) -> bool {
    if platform.backslash_separates() {
        plain_join(base, name)
    } else {
        name.len() > 0 ==> name[0] != '/'
    }
}

/// Where a name stays below `base`, it stands at the end of the joined path,
/// behind something that does not depend on it.
pub proof fn lemma_name_at_the_end(
    platform: Platform,
    base: Seq<char>,
    name: Seq<char>,
    other: Seq<char>,
) -> (front: Seq<char>)
    requires
        stays_below(platform, base, name),
        stays_below(platform, base, other),
    ensures
        path_joined(platform, base, name) == front + name,
        path_joined(platform, base, other) == front + other,
{
    if platform.backslash_separates() {
        if base.len() == 0 || separates(base.last()) {
            base
        } else {
            base.push(platform.separator())
        }
    } else if base.len() == 0 || base.last() == '/' {
        base
    } else {
        base.push('/')
    }
}

} // verus!
