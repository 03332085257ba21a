use vstd::prelude::*;

/// Dynamic attributes: effects bound to one attribute of an element.
pub mod attr;
/// Render effects over text slots: build, hydrate, re-run, and replacement.
pub mod effect;
/// Reactive functions, observable cells and lock-guarded shared functions.
pub mod function;
/// Serialisation of a reactive value to text.
pub mod html;
/// Mounting, unmounting and ordering of render state.
pub mod mountable;
/// Slots of values that resolve later.
pub mod suspend;
/// The live tree of text nodes that render state is mounted in.
pub mod tree;

verus! {

} // verus!
