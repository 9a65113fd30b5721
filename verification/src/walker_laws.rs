//! What a directory walk is limited to.
use crate::config::InputConfig;
use crate::paths::separates;
use crate::walker::{
    finds_inputs, globs_compile, holds_inputs, input_globs, is_limited, line_globs, only_here,
    override_globs, override_root, stands_for, usable_inputs, walk_filters, walk_globs,
    walk_globs_root, walk_roots, WalkFilter,
};
use ignore::overrides::Override;
use ignore::WalkBuilder;
use vstd::prelude::*;

verus! {

/// One input comes to what its line comes to.
pub proof fn law_one_input_is_its_line(input: InputConfig)
    ensures
        input_globs(seq![input]) == line_globs(input.glob@),
{
    let one = seq![input];
    assert(one.drop_last() =~= Seq::<InputConfig>::empty());
    reveal_with_fuel(input_globs, 2);
    if let Some(globs) = line_globs(input.glob@) {
        assert(Seq::<Seq<char>>::empty() + globs =~= globs);
    }
}

/// Inputs come to their globs one after another, none left out and none put in
/// another's place, unless one of them is no glob: then none of them count.
pub proof fn law_inputs_follow_each_other(a: Seq<InputConfig>, b: Seq<InputConfig>)
    ensures
        match (input_globs(a), input_globs(b)) {
            (Some(first), Some(second)) => input_globs(a + b) == Some(first + second),
            _ => input_globs(a + b) is None,
        },
        input_globs(Seq::<InputConfig>::empty()) == Some(Seq::<Seq<char>>::empty()),
    decreases b.len(),
{
    if b.len() == 0 {
        assert(a + b =~= a);
        if let Some(first) = input_globs(a) {
            assert(first + Seq::<Seq<char>>::empty() =~= first);
        }
    } else {
        law_inputs_follow_each_other(a, b.drop_last());
        assert((a + b).drop_last() =~= a + b.drop_last());
        assert((a + b).last() == b.last());
        if let (Some(first), Some(second), Some(globs)) = (
            input_globs(a),
            input_globs(b.drop_last()),
            line_globs(b.last().glob@),
        ) {
            assert((first + second) + globs =~= first + (second + globs));
        }
    }
}

/// Inputs can be used exactly if each of them is a glob, a comment or blank, and
/// a matcher can be made of the globs, if there are any.
pub proof fn law_usable_inputs_are_globs(inputs: Seq<InputConfig>)
    ensures
        usable_inputs(inputs) <==> {
            &&& forall|i: int|
                0 <= i < inputs.len() ==> line_globs((#[trigger] inputs[i]).glob@) is Some
            &&& input_globs(inputs)->0.len() == 0 || globs_compile(input_globs(inputs)->0)
        },
        input_globs(inputs) is Some <==> forall|i: int|
            0 <= i < inputs.len() ==> line_globs((#[trigger] inputs[i]).glob@) is Some,
    decreases inputs.len(),
{
    if inputs.len() > 0 {
        let before = inputs.drop_last();
        law_usable_inputs_are_globs(before);
        assert forall|i: int| 0 <= i < before.len() implies before[i] == inputs[i] by {}
        if input_globs(inputs) is Some {
            assert forall|i: int| 0 <= i < inputs.len() implies line_globs(
                (#[trigger] inputs[i]).glob@,
            ) is Some by {
                if i < before.len() {
                    assert(before[i] == inputs[i]);
                }
            }
        }
        if forall|i: int|
            0 <= i < inputs.len() ==> line_globs((#[trigger] inputs[i]).glob@) is Some {
            assert forall|i: int| 0 <= i < before.len() implies line_globs(
                (#[trigger] before[i]).glob@,
            ) is Some by {
                assert(before[i] == inputs[i]);
            }
            assert(inputs[inputs.len() - 1] == inputs.last());
        }
    }
}

/// A walk is limited to all the globs of its inputs and to no others, and they
/// are relative to the project's root. Only where that root is the current
/// directory, or begins with it, may it be written otherwise.
pub proof fn law_globs_are_relative_to_the_root(
    overrides: Override,
    root: Seq<char>,
    inputs: Seq<InputConfig>,
)
    requires
        holds_inputs(overrides, root, inputs),
    ensures
        input_globs(inputs) == Some(override_globs(overrides)),
        override_globs(overrides).len() > 0 && (root.len() == 0 || root[0] != '.' || root.len() > 1
            && root[1] != '/' && root[1] != '\\') ==> override_root(overrides) == root,
{
}

/// A root `./name` is the same directory as `name`, and is written so.
pub proof fn law_roots_lose_their_leading_dot(at: Seq<char>, name: Seq<char>)
    requires
        stands_for(at, "./"@ + name),
        name.len() > 0,
        name[0] != '.' && name[0] != '/' && name[0] != '\\',
        ({
            let last = name[name.len() - 1];
            last != '.' && last != '/' && last != '\\'
        }),
    ensures
        at == name,
{
    reveal_strlit("./");
    let root = "./"@ + name;
    assert(root[2] == name[0]);
    assert(root.last() == name[name.len() - 1]);
    assert(root.skip(2) =~= name);
}

/// However the current directory is written, no name is cut off it: what is left
/// out is dots and separators.
pub proof fn law_no_names_are_cut_off(at: Seq<char>, root: Seq<char>, i: int)
    requires
        stands_for(at, root),
        0 <= i < root.len(),
        root[i] != '.' && !separates(root[i]),
    ensures
        at.contains(root[i]),
{
    if root.len() > 0 && root[0] == '.' && (root.len() == 1 || separates(root[1])) {
        let (from, to) = choose|from: int, to: int|
            0 <= from <= to <= root.len() && at == #[trigger] root.subrange(from, to)
                && only_here(root.take(from)) && only_here(
                root.skip(to),
            );
        if i < from {
            assert(root.take(from)[i] == root[i]);
        } else if i >= to {
            assert(root.skip(to)[i - to] == root[i]);
        } else {
            assert(at[i - from] == root[i]);
        }
    } else {
        assert(at[i] == root[i]);
    }
}

/// A walk starts from the one root that it is given, keeps to the globs that it
/// is given, and of all that a walk can leave out by itself it leaves out hidden
/// files and nothing else: no ignore file counts.
pub proof fn law_walks_keep_to_their_globs(
    walk: WalkBuilder,
    root: Seq<char>,
    overrides: Override,
    filter: WalkFilter,
)
    requires
        is_limited(walk, root, overrides),
    ensures
        walk_roots(walk).len() == 1,
        walk_roots(walk)[0] == root,
        walk_globs(walk) == override_globs(overrides),
        walk_globs_root(walk) == override_root(overrides),
        walk_filters(walk).contains(filter) <==> filter is Hidden,
{
}

/// A walk for inputs starts from the project's root and keeps to all the globs of
/// the inputs, relative to that root.
pub proof fn law_walks_find_their_inputs(
    walk: WalkBuilder,
    root: Seq<char>,
    inputs: Seq<InputConfig>,
    filter: WalkFilter,
)
    requires
        finds_inputs(walk, root, inputs),
    ensures
        walk_roots(walk).len() == 1,
        walk_roots(walk)[0] == root,
        input_globs(inputs) == Some(walk_globs(walk)),
        walk_globs(walk).len() > 0 && (root.len() == 0 || root[0] != '.' || root.len() > 1
            && root[1] != '/' && root[1] != '\\') ==> walk_globs_root(walk) == root,
        walk_filters(walk).contains(filter) <==> filter is Hidden,
{
}

} // verus!
