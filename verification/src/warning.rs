use vstd::prelude::*;
use crate::model::{clone_strings, views};
use crate::path::Path;

verus! {

/// A stage that follows items into one another up to a bound.
#[derive(Clone, Copy, Debug, PartialEq, Eq, Structural)]
pub enum Stage {
    Erasure,
    Instantiation,
    Dependencies,
}

/// Something that was found wrong and passed over. A warning never stops
/// the run.
#[derive(Debug, PartialEq, Eq)]
pub enum Warning {
    /// The annotations of an alias were not given to the item called
    /// `target`, which has annotations of its own.
    AnnotationConflict { target: Path },
    /// The annotations of the alias `alias` were passed over, because another
    /// alias had annotations for the same item `target` before it.
    DuplicateAnnotatedAlias { target: Path, alias: Path },
    /// An entry of the annotation for arrays that does not have two parts.
    MalformedArrayNote { parts: Vec<String> },
    /// The item called `item` is used with arguments that it does not take:
    /// it has no parameters, or the arguments cannot be bound to them. The
    /// use is left as it is written.
    CannotInstantiate { item: Path },
    /// The stage `stage` reached its bound and left what lies beyond it as
    /// it stands.
    DepthReached { stage: Stage },
}

pub enum WarningModel {
    AnnotationConflict { target: Seq<char> },
    DuplicateAnnotatedAlias { target: Seq<char>, alias: Seq<char> },
    MalformedArrayNote { parts: Seq<Seq<char>> },
    CannotInstantiate { item: Seq<char> },
    DepthReached { stage: Stage },
}

impl View for Warning {
    type V = WarningModel;

    open spec fn view(&self) -> WarningModel {
        match self {
            Warning::AnnotationConflict { target } => WarningModel::AnnotationConflict {
                target: target@,
            },
            Warning::DuplicateAnnotatedAlias {
                target,
                alias,
            } => WarningModel::DuplicateAnnotatedAlias { target: target@, alias: alias@ },
            Warning::MalformedArrayNote { parts } => WarningModel::MalformedArrayNote {
                parts: views(parts@),
            },
            Warning::CannotInstantiate { item } => WarningModel::CannotInstantiate { item: item@ },
            Warning::DepthReached { stage } => WarningModel::DepthReached { stage: *stage },
        }
    }
}

impl Clone for Warning {
    fn clone(&self) -> (res: Warning)
        ensures
            res@ == self@,
    {
        match self {
            Warning::AnnotationConflict { target } => Warning::AnnotationConflict {
                target: target.clone(),
            },
            Warning::DuplicateAnnotatedAlias { target, alias } => Warning::DuplicateAnnotatedAlias {
                target: target.clone(),
                alias: alias.clone(),
            },
            Warning::MalformedArrayNote { parts } => Warning::MalformedArrayNote {
                parts: clone_strings(parts),
            },
            Warning::CannotInstantiate { item } => Warning::CannotInstantiate {
                item: item.clone(),
            },
            Warning::DepthReached { stage } => Warning::DepthReached { stage: *stage },
        }
    }
}

} // verus!
