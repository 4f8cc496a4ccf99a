//! What carrying out the steps of an extraction leaves below the output
//! root, as a model: a map from paths to what stands at them. The model
//! knows which paths hold a directory and which a file with what bytes. It
//! does not know how paths nest, nor any failure but a file standing where a
//! directory is needed, or a directory where a file is to be written.

use vstd::prelude::*;
use crate::extract::{ActionView, StepView};

verus! {

/// What stands at a path.
pub enum Node {
    Dir,
    File(Seq<u8>),
}

/// Whether a directory stands at `path`.
pub open spec fn is_dir_at(tree: Map<Seq<char>, Node>, path: Seq<char>) -> bool {
    tree.dom().contains(path) && tree[path] is Dir
}

/// Whether a file stands at `path`.
pub open spec fn is_file_at(tree: Map<Seq<char>, Node>, path: Seq<char>) -> bool {
    tree.dom().contains(path) && tree[path] is File
}

/// The tree once the directory `parent` is made sure of: it is created
/// where nothing stands, and left where it is there. `None` says that a
/// file stands in its place.
pub open spec fn ensure_parent(tree: Map<Seq<char>, Node>, parent: Option<Seq<char>>) -> Option<
    Map<Seq<char>, Node>,
> {
    match parent {
        Some(path) => if is_file_at(tree, path) {
            None
        } else {
            Some(tree.insert(path, Node::Dir))
        },
        None => Some(tree),
    }
}

/// The tree once `step` is carried out; `None` says that the step fails.
/// Creating a directory fails where a file stands at its path, and leaves a
/// directory that is there as it is. Writing a file makes sure of its parent
/// first, fails where a directory stands at its path, and replaces a file
/// that is there.
pub open spec fn apply_step(tree: Map<Seq<char>, Node>, step: StepView) -> Option<
    Map<Seq<char>, Node>,
> {
    match step.action {
        ActionView::CreateDir => if is_file_at(tree, step.path) {
            None
        } else {
            Some(tree.insert(step.path, Node::Dir))
        },
        ActionView::WriteFile { parent, size, data } => match ensure_parent(tree, parent) {
            Some(below) => if is_dir_at(below, step.path) {
                None
            } else {
                Some(below.insert(step.path, Node::File(data)))
            },
            None => None,
        },
    }
}

/// The tree once `steps` are carried out in their order; `None` says that
/// one of them fails.
pub open spec fn carry_out(tree: Map<Seq<char>, Node>, steps: Seq<StepView>) -> Option<
    Map<Seq<char>, Node>,
>
    decreases steps.len(),
{
    if steps.len() == 0 {
        Some(tree)
    } else {
        match carry_out(tree, steps.drop_last()) {
            Some(before) => apply_step(before, steps.last()),
            None => None,
        }
    }
}

/// What `step` leaves at `path`, if it touches that path at all: a
/// directory or a file at its own path, a directory at its parent.
pub open spec fn left_by(step: StepView, path: Seq<char>) -> Option<Node> {
    match step.action {
        ActionView::CreateDir => if step.path == path {
            Some(Node::Dir)
        } else {
            None
        },
        ActionView::WriteFile { parent, size, data } => if step.path == path {
            Some(Node::File(data))
        } else if parent == Some(path) {
            Some(Node::Dir)
        } else {
            None
        },
    }
}

/// What the last of `steps` that touches `path` leaves there; `None` where
/// none of them touches it.
pub open spec fn left_at(steps: Seq<StepView>, path: Seq<char>) -> Option<Node>
    decreases steps.len(),
{
    if steps.len() == 0 {
        None
    } else {
        match left_by(steps.last(), path) {
            Some(node) => Some(node),
            None => left_at(steps.drop_last(), path),
        }
    }
}

/// Every path of `from` stands in `to` as well, a directory where it was a
/// directory and a file where it was a file.
pub open spec fn kinds_kept(from: Map<Seq<char>, Node>, to: Map<Seq<char>, Node>) -> bool {
    forall|path: Seq<char>| #[trigger]
        from.dom().contains(path) ==> to.dom().contains(path) && (from[path] is Dir
            == to[path] is Dir)
}

/// Steps that go through leave every path what the last step that touches
/// it makes of it, and every other path as it was.
pub proof fn lemma_last_step_decides(
    tree: Map<Seq<char>, Node>,
    steps: Seq<StepView>,
    path: Seq<char>,
)
    requires
        carry_out(tree, steps) is Some,
    ensures
        match left_at(steps, path) {
            Some(node) => carry_out(tree, steps)->0.dom().contains(path) && carry_out(
                tree,
                steps,
            )->0[path] == node,
            None => carry_out(tree, steps)->0.dom().contains(path) == tree.dom().contains(path)
                && (tree.dom().contains(path) ==> carry_out(tree, steps)->0[path] == tree[path]),
        },
    decreases steps.len(),
{
    if steps.len() > 0 {
        lemma_last_step_decides(tree, steps.drop_last(), path);
    }
}

/// Steps that go through never turn a file into a directory or a directory
/// into a file, and remove nothing.
pub proof fn lemma_kinds_kept(tree: Map<Seq<char>, Node>, steps: Seq<StepView>)
    requires
        carry_out(tree, steps) is Some,
    ensures
        kinds_kept(tree, carry_out(tree, steps)->0),
    decreases steps.len(),
{
    if steps.len() > 0 {
        lemma_kinds_kept(tree, steps.drop_last());
    }
}

/// Steps that went through on one tree go through on every tree that holds
/// what they left, and change the kind of nothing there.
proof fn lemma_goes_through_again(
    tree: Map<Seq<char>, Node>,
    steps: Seq<StepView>,
    other: Map<Seq<char>, Node>,
)
    requires
        carry_out(tree, steps) is Some,
        kinds_kept(carry_out(tree, steps)->0, other),
    ensures
        carry_out(other, steps) is Some,
        kinds_kept(other, carry_out(other, steps)->0),
        kinds_kept(carry_out(other, steps)->0, other),
    decreases steps.len(),
{
    if steps.len() > 0 {
        let front = steps.drop_last();
        let step = steps.last();
        let before = carry_out(tree, front)->0;
        let after = carry_out(tree, steps)->0;
        assert(apply_step(before, step) == Some(after));
        // What the steps before the last left stands in `other` too.
        assert(kinds_kept(before, other)) by {
            assert forall|path: Seq<char>| #[trigger]
                before.dom().contains(path) implies after.dom().contains(path) && (
            before[path] is Dir == after[path] is Dir) by {}
        }
        lemma_goes_through_again(tree, front, other);
        // And so does what the last step left: its path, and its parent.
        assert(after.dom().contains(step.path));
        if let ActionView::WriteFile { parent: Some(up), size, data } = step.action {
            assert(after.dom().contains(up));
        }
    }
}

/// Carrying out the same steps a second time changes nothing: where they
/// went through once, they go through again on what they left, no
/// directory that is there already is an error, every file is written
/// again with the same bytes, and the tree is the same after as before.
pub proof fn lemma_second_run_changes_nothing(tree: Map<Seq<char>, Node>, steps: Seq<StepView>)
    requires
        carry_out(tree, steps) is Some,
    ensures
        carry_out(carry_out(tree, steps)->0, steps) == carry_out(tree, steps),
{
    let once = carry_out(tree, steps)->0;
    lemma_goes_through_again(tree, steps, once);
    let twice = carry_out(once, steps)->0;
    assert forall|path: Seq<char>| twice.dom().contains(path) == once.dom().contains(path) && (
    once.dom().contains(path) ==> twice[path] == once[path]) by {
        lemma_last_step_decides(tree, steps, path);
        lemma_last_step_decides(once, steps, path);
    }
    assert(twice =~= once);
}

/// After steps that went through, a directory stands where a step creates
/// one and below every file that a step writes, and a file stands where a
/// step writes one. It holds the bytes of that step unless a later step
/// writes to the same path, in whatever order the steps come otherwise.
pub proof fn lemma_steps_leave_their_mark(
    tree: Map<Seq<char>, Node>,
    steps: Seq<StepView>,
    index: int,
)
    requires
        carry_out(tree, steps) is Some,
        0 <= index < steps.len(),
    ensures
        match steps[index].action {
            ActionView::CreateDir => is_dir_at(carry_out(tree, steps)->0, steps[index].path),
            ActionView::WriteFile { parent, size, data } => {
                &&& is_file_at(carry_out(tree, steps)->0, steps[index].path)
                &&& parent matches Some(up) ==> is_dir_at(carry_out(tree, steps)->0, up)
                &&& (forall|later: int|
                    index < later < steps.len() ==> (#[trigger] steps[later]).path
                        != steps[index].path) ==> carry_out(tree, steps)->0[steps[index].path]
                    == Node::File(data)
            },
        },
    decreases steps.len(),
{
    let front = steps.drop_last();
    let before = carry_out(tree, front)->0;
    let after = carry_out(tree, steps)->0;
    assert(apply_step(before, steps.last()) == Some(after));
    if index < steps.len() - 1 {
        lemma_steps_leave_their_mark(tree, front, index);
        assert(front[index] == steps[index]);
        assert forall|later: int| index < later < front.len() implies (#[trigger] front[later])
            == steps[later] by {}
        if forall|later: int|
            index < later < steps.len() ==> (#[trigger] steps[later]).path != steps[index].path {
            assert(steps[steps.len() - 1].path != steps[index].path);
            assert forall|later: int| index < later < front.len() implies (
            #[trigger] front[later]).path != front[index].path by {
                assert(steps[later].path != steps[index].path);
            }
        }
    }
}

} // verus!
