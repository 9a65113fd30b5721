//! Setting up the directory walk that looks for assets.
use crate::config::InputConfig;
use crate::error::SyncError;
use crate::paths::separates;
use ignore::overrides::{Override, OverrideBuilder};
use ignore::WalkBuilder;
use vstd::prelude::*;

verus! {

/// A set of globs under construction.
#[verifier::external_type_specification]
#[verifier::external_body]
pub struct ExOverrideBuilder(OverrideBuilder);

/// A set of globs that a directory walk is limited to.
#[verifier::external_type_specification]
#[verifier::external_body]
pub struct ExOverride(Override);

/// A directory walk under construction.
#[verifier::external_type_specification]
#[verifier::external_body]
pub struct ExWalkBuilder(WalkBuilder);

/// What a directory walk leaves out of its own accord.
pub enum WalkFilter {
    /// Hidden files that no glob names.
    Hidden,
    /// What ignore files in parent directories name.
    Parents,
    /// What `.ignore` files name.
    Ignore,
    /// What `.gitignore` files name.
    GitIgnore,
    /// What the global gitignore file names.
    GitGlobal,
    /// What `.git/info/exclude` files name.
    GitExclude,
}

/// The globs that one line of input comes to: none for a comment or a blank
/// line, one for a glob. There is no such sequence for a line that is no glob.
/// The platform is fixed: what separates the parts of a path there has a say in
/// which lines are globs.
pub uninterp spec fn line_globs(line: Seq<char>) -> Option<Seq<Seq<char>>>;

/// Whether a matcher can be made of some globs. The platform is fixed: a matcher
/// may not get too large, and its size depends on the width of pointers.
pub uninterp spec fn globs_compile(globs: Seq<Seq<char>>) -> bool;

/// The globs that a set under construction holds, in order.
pub uninterp spec fn builder_globs(builder: OverrideBuilder) -> Seq<Seq<char>>;

/// The directory that the globs of a set under construction are relative to.
pub uninterp spec fn builder_root(builder: OverrideBuilder) -> Seq<char>;

/// Whether a set under construction has the options that it was made with:
/// case counts, and a bracket that is not closed is an error.
pub uninterp spec fn default_options(builder: OverrideBuilder) -> bool;

/// The globs of a set, in order.
pub uninterp spec fn override_globs(overrides: Override) -> Seq<Seq<char>>;

/// The directory that the globs of a set are relative to.
pub uninterp spec fn override_root(overrides: Override) -> Seq<char>;

/// The directories that a walk starts from, in order.
pub uninterp spec fn walk_roots(walk: WalkBuilder) -> Seq<Seq<char>>;

/// The globs that a walk is limited to, in order.
pub uninterp spec fn walk_globs(walk: WalkBuilder) -> Seq<Seq<char>>;

/// The directory that a walk's globs are relative to.
pub uninterp spec fn walk_globs_root(walk: WalkBuilder) -> Seq<char>;

/// What a walk leaves out of its own accord.
pub uninterp spec fn walk_filters(walk: WalkBuilder) -> Set<WalkFilter>;

/// Whether the first part of a path is the current directory, as in `.` and
/// `./assets`, but not in `..`, `../assets` or `.hidden`.
pub open spec fn starts_here(path: Seq<char>) -> bool {
    path.len() > 0 && path[0] == '.' && (path.len() == 1 || separates(path[1]))
}

/// Whether a path is `./` and a rest that neither begins nor ends with a dot
/// or a separator, as in `./assets`.
pub open spec fn plainly_here(path: Seq<char>) -> bool {
    &&& path.len() > 2
    &&& path[0] == '.' && path[1] == '/'
    &&& path[2] != '.' && !separates(path[2])
    &&& path.last() != '.' && !separates(path.last())
}

/// Whether a text is made of dots and separators.
pub open spec fn only_here(s: Seq<char>) -> bool {
    forall|i: int| 0 <= i < s.len() ==> #[trigger] s[i] == '.' || separates(s[i])
}

/// Whether `at` is `path` with nothing but dots and separators cut off its
/// ends.
pub open spec fn cut_from(at: Seq<char>, path: Seq<char>) -> bool {
    exists|from: int, to: int|
        0 <= from <= to <= path.len() && at == #[trigger] path.subrange(from, to) && only_here(
            path.take(from),
        ) && only_here(path.skip(to))
}

/// Whether globs that are meant for the directory `root` are relative to `at`:
/// to `root` itself, or to `assets` where `root` is `./assets`. How much is cut
/// off other texts that begin with the current directory, such as `.` or
/// `.//assets/`, is up to the platform, but only dots and separators are.
pub open spec fn stands_for(at: Seq<char>, root: Seq<char>) -> bool {
    if !starts_here(root) {
        at == root
    } else {
        &&& cut_from(at, root)
        &&& plainly_here(root) ==> at == root.skip(2)
    }
}

/// `ignore`'s `OverrideBuilder::new` makes a set without globs, relative to
/// the directory that it is given, and with the options that such sets have by
/// default. It cuts `./` off the front of that directory. Of texts that
/// platforms cut differently, it is only said that no names are cut.
#[verifier::external_body]
fn new_overrides(root: &str) -> (r: OverrideBuilder)
    ensures
        builder_globs(r) == Seq::<Seq<char>>::empty(),
        stands_for(builder_root(r), root@),
        default_options(r),
{
    OverrideBuilder::new(root)
}

/// `ignore`'s `OverrideBuilder::add` puts what a line comes to behind the globs
/// that are there. A line that is no glob is an error and changes nothing. Which
/// lines are globs depends on the options, and these are the default ones.
#[verifier::external_body]
fn add_glob(builder: &mut OverrideBuilder, line: &str) -> (r: Result<(), ignore::Error>)
    requires
        default_options(*old(builder)),
    ensures
        r is Ok <==> line_globs(line@) is Some,
        builder_globs(*final(builder)) == match line_globs(line@) {
            Some(globs) => builder_globs(*old(builder)) + globs,
            None => builder_globs(*old(builder)),
        },
        builder_root(*final(builder)) == builder_root(*old(builder)),
        default_options(*final(builder)),
{
    match builder.add(line) {
        Ok(_) => Ok(()),
        Err(e) => Err(e),
    }
}

/// `ignore`'s `OverrideBuilder::build` makes a matcher of the globs, or is an
/// error if it cannot. It always can where there are no globs, and the matcher
/// is then relative to no directory.
#[verifier::external_body]
fn build_globs(builder: &OverrideBuilder) -> (r: Result<Override, ignore::Error>)
    requires
        default_options(*builder),
    ensures
        r is Ok <==> builder_globs(*builder).len() == 0 || globs_compile(builder_globs(*builder)),
        r matches Ok(overrides) ==> {
            &&& override_globs(overrides) == builder_globs(*builder)
            &&& override_root(overrides) == if builder_globs(*builder).len() == 0 {
                Seq::empty()
            } else {
                builder_root(*builder)
            }
        },
{
    builder.build()
}

/// `ignore`'s `WalkBuilder::new` makes a walk that starts from one directory,
/// is limited to no globs and leaves out all that it can.
#[verifier::external_body]
fn new_walk(root: &str) -> (r: WalkBuilder)
    ensures
        walk_roots(r) == seq![root@],
        walk_globs(r) == Seq::<Seq<char>>::empty(),
        walk_globs_root(r) == Seq::<char>::empty(),
        forall|filter: WalkFilter| #[trigger] walk_filters(r).contains(filter),
{
    WalkBuilder::new(root)
}

/// `ignore`'s `WalkBuilder::overrides` limits a walk to a set of globs, in
/// place of the one before.
#[verifier::external_body]
fn limit_walk(walk: &mut WalkBuilder, overrides: Override)
    ensures
        walk_globs(*final(walk)) == override_globs(overrides),
        walk_globs_root(*final(walk)) == override_root(overrides),
        walk_roots(*final(walk)) == walk_roots(*old(walk)),
        walk_filters(*final(walk)) == walk_filters(*old(walk)),
{
    walk.overrides(overrides);
}

/// Whether `after` is `before` with `filter` switched on or off.
pub open spec fn switched(
    before: WalkBuilder,
    after: WalkBuilder,
    filter: WalkFilter,
    on: bool,
) -> bool {
    &&& walk_roots(after) == walk_roots(before)
    &&& walk_globs(after) == walk_globs(before)
    &&& walk_globs_root(after) == walk_globs_root(before)
    &&& walk_filters(after) == if on {
        walk_filters(before).insert(filter)
    } else {
        walk_filters(before).remove(filter)
    }
}

/// `ignore`'s `WalkBuilder::parents` says whether ignore files in parent
/// directories count, and changes nothing else.
#[verifier::external_body]
fn switch_parents(walk: &mut WalkBuilder, on: bool)
    ensures
        switched(*old(walk), *final(walk), WalkFilter::Parents, on),
{
    walk.parents(on);
}

/// `ignore`'s `WalkBuilder::ignore` says whether `.ignore` files count, and
/// changes nothing else.
#[verifier::external_body]
fn switch_ignore(walk: &mut WalkBuilder, on: bool)
    ensures
        switched(*old(walk), *final(walk), WalkFilter::Ignore, on),
{
    walk.ignore(on);
}

/// `ignore`'s `WalkBuilder::git_ignore` says whether `.gitignore` files count,
/// and changes nothing else.
#[verifier::external_body]
fn switch_git_ignore(walk: &mut WalkBuilder, on: bool)
    ensures
        switched(*old(walk), *final(walk), WalkFilter::GitIgnore, on),
{
    walk.git_ignore(on);
}

/// `ignore`'s `WalkBuilder::git_global` says whether the global gitignore file
/// counts, and changes nothing else.
#[verifier::external_body]
fn switch_git_global(walk: &mut WalkBuilder, on: bool)
    ensures
        switched(*old(walk), *final(walk), WalkFilter::GitGlobal, on),
{
    walk.git_global(on);
}

/// `ignore`'s `WalkBuilder::git_exclude` says whether `.git/info/exclude` files
/// count, and changes nothing else.
#[verifier::external_body]
fn switch_git_exclude(walk: &mut WalkBuilder, on: bool)
    ensures
        switched(*old(walk), *final(walk), WalkFilter::GitExclude, on),
{
    walk.git_exclude(on);
}

/// Whether a walk starts from `root` alone, is limited to `overrides` and leaves
/// out nothing but hidden files of its own accord.
pub open spec fn is_limited(walk: WalkBuilder, root: Seq<char>, overrides: Override) -> bool {
    &&& walk_roots(walk) == seq![root]
    &&& walk_globs(walk) == override_globs(overrides)
    &&& walk_globs_root(walk) == override_root(overrides)
    &&& walk_filters(walk) == set![WalkFilter::Hidden]
}

/// Whether a walk starts from `root` alone, is limited to the inputs, relative to
/// `root`, and leaves out nothing but hidden files of its own accord.
pub open spec fn finds_inputs(
    walk: WalkBuilder,
    root: Seq<char>,
    inputs: Seq<InputConfig>,
) -> bool {
    &&& walk_roots(walk) == seq![root]
    &&& walk_filters(walk) == set![WalkFilter::Hidden]
    &&& input_globs(inputs) == Some(walk_globs(walk))
    &&& walk_globs(walk).len() > 0 ==> stands_for(walk_globs_root(walk), root)
}

/// A walk from `root` that is limited to `overrides` and pays no heed to
/// ignore files. Hidden files that no glob names are left out.
pub fn configure_walker(root: &str, overrides: Override) -> (r: WalkBuilder)
    ensures
        is_limited(r, root@, overrides),
        walk_roots(r) == seq![root@],
        walk_globs(r) == override_globs(overrides),
        walk_globs_root(r) == override_root(overrides),
        walk_filters(r) == set![WalkFilter::Hidden],
{
    let mut walk = new_walk(root);
    limit_walk(&mut walk, overrides);
    switch_parents(&mut walk, false);
    switch_ignore(&mut walk, false);
    switch_git_ignore(&mut walk, false);
    switch_git_global(&mut walk, false);
    switch_git_exclude(&mut walk, false);
    assert(walk_filters(walk) =~= set![WalkFilter::Hidden]);
    walk
}

/// The globs that the inputs come to, in order, unless one of them is no glob.
pub open spec fn input_globs(inputs: Seq<InputConfig>) -> Option<Seq<Seq<char>>>
    decreases inputs.len(),
{
    if inputs.len() == 0 {
        Some(Seq::empty())
    } else {
        match (input_globs(inputs.drop_last()), line_globs(inputs.last().glob@)) {
            (Some(before), Some(globs)) => Some(before + globs),
            _ => None,
        }
    }
}

/// Whether a set of globs can be made of the inputs.
pub open spec fn usable_inputs(inputs: Seq<InputConfig>) -> bool {
    input_globs(inputs) matches Some(globs) && (globs.len() == 0 || globs_compile(globs))
}

/// Whether `overrides` holds the globs of the inputs, relative to `root`.
pub open spec fn holds_inputs(
    overrides: Override,
    root: Seq<char>,
    inputs: Seq<InputConfig>,
) -> bool {
    &&& input_globs(inputs) == Some(override_globs(overrides))
    &&& override_globs(overrides).len() > 0 ==> stands_for(override_root(overrides), root)
}

proof fn lemma_refused_input(inputs: Seq<InputConfig>, n: int)
    requires
        0 <= n <= inputs.len(),
        input_globs(inputs.take(n)) is None,
    ensures
        input_globs(inputs) is None,
    decreases inputs.len() - n,
{
    if n < inputs.len() {
        assert(inputs.take(n + 1).drop_last() =~= inputs.take(n));
        lemma_refused_input(inputs, n + 1);
    } else {
        assert(inputs.take(n) =~= inputs);
    }
}

/// The set of globs that the inputs describe, relative to `root`.
pub fn build_overrides(root: &str, inputs: &Vec<InputConfig>) -> (r: Result<Override, SyncError>)
    ensures
        r is Ok <==> usable_inputs(inputs@),
        r matches Ok(overrides) ==> holds_inputs(overrides, root@, inputs@),
        r matches Err(e) ==> e is Ignore,
{
    let mut builder = new_overrides(root);
    let mut i: usize = 0;
    assert(inputs@.take(0) =~= Seq::<InputConfig>::empty());
    while i < inputs.len()
        invariant
            i <= inputs.len(),
            input_globs(inputs@.take(i as int)) == Some(builder_globs(builder)),
            stands_for(builder_root(builder), root@),
            default_options(builder),
        decreases inputs.len() - i,
    {
        assert(inputs@.take(i + 1).drop_last() =~= inputs@.take(i as int));
        if let Err(source) = add_glob(&mut builder, inputs[i].glob.as_str()) {
            proof {
                lemma_refused_input(inputs@, i + 1);
            }
            return Err(SyncError::Ignore { source });
        }
        i = i + 1;
    }
    assert(inputs@.take(i as int) =~= inputs@);
    match build_globs(&builder) {
        Ok(overrides) => Ok(overrides),
        Err(source) => Err(SyncError::Ignore { source }),
    }
}

/// The walk from `root` that finds the files which the inputs describe.
pub fn input_walk(root: &str, inputs: &Vec<InputConfig>) -> (r: Result<WalkBuilder, SyncError>)
    ensures
        r is Ok <==> usable_inputs(inputs@),
        r matches Ok(walk) ==> finds_inputs(walk, root@, inputs@),
        r matches Ok(walk) ==> {
            &&& walk_roots(walk) == seq![root@]
            &&& walk_filters(walk) == set![WalkFilter::Hidden]
            &&& input_globs(inputs@) == Some(walk_globs(walk))
            &&& walk_globs(walk).len() > 0 ==> stands_for(walk_globs_root(walk), root@)
        },
        r matches Err(e) ==> e is Ignore,
{
    match build_overrides(root, inputs) {
        Ok(overrides) => Ok(configure_walker(root, overrides)),
        Err(e) => Err(e),
    }
}

} // verus!
