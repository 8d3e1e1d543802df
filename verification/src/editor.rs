//! Editing rules of the flame editor that are independent of geometry:
//! which affine handle a drag edits and how, the hint shown while dragging,
//! and how the branch list and a branch's variation slots change.
use vstd::prelude::*;
use crate::flame::VariEntry;
use crate::variations::Variation;

verus! {

/// A draggable handle of a branch's affine triad.
#[derive(Clone, Copy, Debug, PartialEq, Eq, Hash, Structural)]
pub enum TriadHandle {
    Origin,
    XAxis,
    YAxis,
}

/// One of the two basis axes of an affine transform.
#[derive(Clone, Copy, Debug, PartialEq, Eq, Hash, Structural)]
pub enum Axis {
    X,
    Y,
}

/// How dragging a triad handle changes the pre-affine transform.
#[derive(Clone, Copy, Debug, PartialEq, Eq, Hash, Structural)]
pub enum TriadEdit {
    /// Move the origin (translation) to the pointer.
    Translate,
    /// Turn the axis toward the pointer, keeping its length.
    RotateOnly(Axis),
    /// Put the axis end point on the pointer.
    Endpoint(Axis),
    /// Turn and scale the axis toward the pointer.
    RotateScale(Axis),
}

/// Most branches a flame may have in the editor.
pub const MAX_BRANCHES: usize = 8;

/// Variation slots the branch panel shows.
pub const MAX_VISIBLE_VARIATIONS: usize = 4;

/// The edit a drag performs: Shift restricts an axis drag to rotation, Alt
/// releases all constraints; otherwise an axis rotates and scales.
pub fn triad_edit(handle: TriadHandle, shift: bool, alt: bool) -> (r: TriadEdit)
    ensures
        handle == TriadHandle::Origin ==> r == TriadEdit::Translate,
        handle != TriadHandle::Origin ==> {
            let axis = if handle == TriadHandle::XAxis {
                Axis::X
            } else {
                Axis::Y
            };
            &&& shift ==> r == TriadEdit::RotateOnly(axis)
            &&& !shift && alt ==> r == TriadEdit::Endpoint(axis)
            &&& !shift && !alt ==> r == TriadEdit::RotateScale(axis)
        },
{
    let axis = match handle {
        TriadHandle::Origin => return TriadEdit::Translate,
        TriadHandle::XAxis => Axis::X,
        TriadHandle::YAxis => Axis::Y,
    };
    if shift {
        TriadEdit::RotateOnly(axis)
    } else if alt {
        TriadEdit::Endpoint(axis)
    } else {
        TriadEdit::RotateScale(axis)
    }
}

/// The status-bar hint while an axis handle is dragged with the primary
/// button held.
pub fn triad_constraint_hint(
    primary_down: bool,
    shift: bool,
    alt: bool,
    handle: Option<TriadHandle>,
) -> (r: Option<&'static str>)
    ensures
        !primary_down ==> r is None,
        primary_down && (handle == Some(TriadHandle::XAxis) || handle == Some(TriadHandle::YAxis))
            ==> (r matches Some(h) && h@ == (if shift {
            "Constraint: Rotate only"@
        } else if alt {
            "Constraint: Unconstrained"@
        } else {
            "Constraint: Rotate + Scale"@
        })),
        primary_down && !(handle == Some(TriadHandle::XAxis) || handle == Some(TriadHandle::YAxis))
            ==> r is None,
{
    if !primary_down {
        return None;
    }
    match handle {
        Some(TriadHandle::XAxis) | Some(TriadHandle::YAxis) => {
            if shift {
                Some("Constraint: Rotate only")
            } else if alt {
                Some("Constraint: Unconstrained")
            } else {
                Some("Constraint: Rotate + Scale")
            }
        },
        _ => None,
    }
}

/// Whether another branch may be added to a flame with `count` branches.
pub fn can_add_branch(count: usize) -> (r: bool)
    ensures
        r == (count < MAX_BRANCHES),
{
    count < MAX_BRANCHES
}

/// Append a branch and return the index to select (the new branch).
pub fn add_branch<B>(branches: &mut Vec<B>, branch: B) -> (selected: usize)
    requires
        old(branches)@.len() < MAX_BRANCHES,
    ensures
        final(branches)@ == old(branches)@.push(branch),
        selected == old(branches)@.len(),
        selected < final(branches)@.len(),
{
    branches.push(branch);
    branches.len() - 1
}

/// The selection after the branch at `index` was removed from a list now
/// `remaining` long: the same position, or the last branch, or none.
pub open spec fn selection_after_delete(index: usize, remaining: nat) -> Option<usize> {
    if remaining == 0 {
        None
    } else if index >= remaining {
        Some((remaining - 1) as usize)
    } else {
        Some(index)
    }
}

/// After the branch at `index` is removed from a list that keeps
/// `remaining` branches, the selection is the branch that moved into its
/// place, or the new last branch when the last one was removed, or none
/// when no branch is left.
pub proof fn lemma_selection_after_delete(index: usize, remaining: nat)
    requires
        index <= remaining,
    ensures
        remaining == 0 ==> selection_after_delete(index, remaining) is None,
        remaining > 0 && index < remaining ==> selection_after_delete(index, remaining) == Some(index),
        remaining > 0 && index == remaining ==> selection_after_delete(index, remaining) == Some(
            (remaining - 1) as usize,
        ),
{
}

/// Remove the branch at `index` and return the new selection, which is
/// always a valid index or none.
pub fn delete_branch<B>(branches: &mut Vec<B>, index: usize) -> (selected: Option<usize>)
    requires
        index < old(branches)@.len(),
    ensures
        final(branches)@ == old(branches)@.remove(index as int),
        selected == selection_after_delete(index, final(branches)@.len()),
        selected matches Some(s) ==> s < final(branches)@.len(),
{
    branches.remove(index);
    if branches.len() == 0 {
        None
    } else if index >= branches.len() {
        Some(branches.len() - 1)
    } else {
        Some(index)
    }
}

/// The selection to keep when the flame has `count` branches: none when
/// there are no branches.
pub fn selection_for_count(selected: Option<usize>, count: usize) -> (r: Option<usize>)
    ensures
        count == 0 ==> r is None,
        count > 0 ==> r == selected,
{
    if count == 0 {
        None
    } else {
        selected
    }
}

/// The term shown in a variation slot: the branch's term there, or Linear at
/// weight `zero` past the end of the list.
pub fn variation_in_slot<W: Copy>(vars: &Vec<VariEntry<W>>, slot: usize, zero: W) -> (r:
    VariEntry<W>)
    ensures
        slot < vars@.len() ==> r == vars@[slot as int],
        slot >= vars@.len() ==> r == (VariEntry { variation: Variation::Linear, weight: zero }),
{
    if slot < vars.len() {
        vars[slot]
    } else {
        VariEntry::new(Variation::Linear, zero)
    }
}

/// Put `entry` into a variation slot, first padding the list with Linear
/// terms of weight `zero` when it is too short.
pub fn set_variation_slot<W: Copy>(
    vars: &mut Vec<VariEntry<W>>,
    slot: usize,
    entry: VariEntry<W>,
    zero: W,
)
    requires
        slot < usize::MAX,
    ensures
        final(vars)@.len() == (if slot < old(vars)@.len() {
            old(vars)@.len() as int
        } else {
            slot + 1
        }),
        final(vars)@[slot as int] == entry,
        forall|i: int|
            0 <= i < old(vars)@.len() && i != slot ==> #[trigger] final(vars)@[i] == old(vars)@[i],
        forall|i: int|
            old(vars)@.len() <= i < slot ==> #[trigger] final(vars)@[i] == (VariEntry {
                variation: Variation::Linear,
                weight: zero,
            }),
{
    let ghost start = vars@;
    if vars.len() <= slot {
        while vars.len() <= slot
            invariant
                slot < usize::MAX,
                start.len() <= vars@.len() <= slot + 1,
                forall|i: int| 0 <= i < start.len() ==> #[trigger] vars@[i] == start[i],
                forall|i: int|
                    start.len() <= i < vars@.len() ==> #[trigger] vars@[i] == (VariEntry {
                        variation: Variation::Linear,
                        weight: zero,
                    }),
            decreases slot + 1 - vars@.len(),
        {
            vars.push(VariEntry::new(Variation::Linear, zero));
        }
    }
    vars.set(slot, entry);
}

// ---------------------------------------------------------------------------
// Pointer drags in the viewport
// ---------------------------------------------------------------------------

/// Drag state of the viewport: the primary button drags a triad handle of
/// the selected branch, the middle button pans the camera.  `S` is a
/// snapshot of the flame taken when a drag starts, `A` the fractal-space
/// point held under the cursor while panning, `O` the offset from the
/// pointer to the grabbed handle.
#[derive(Clone, Debug)]
pub struct DragState<S, A, O> {
    pub drag_start: Option<S>,
    pub pan_anchor: Option<A>,
    pub selected_branch: Option<usize>,
    pub triad_handle: Option<TriadHandle>,
    pub triad_offset: Option<O>,
}

impl<S, A, O> DragState<S, A, O> {
    /// An active drag always has the snapshot it started from.
    pub open spec fn wf(&self) -> bool {
        (self.triad_handle is Some || self.pan_anchor is Some) ==> self.drag_start is Some
    }

    /// Releasing the primary button ends a handle drag; the snapshot is
    /// kept only while a pan is still going on.
    pub open spec fn after_primary_release(self) -> Self {
        DragState {
            drag_start: if self.pan_anchor is None {
                None
            } else {
                self.drag_start
            },
            triad_handle: None,
            triad_offset: None,
            ..self
        }
    }

    /// Pressing the primary button on a handle selects its branch and starts
    /// a handle drag from `snapshot`.
    pub open spec fn after_handle_press(
        self,
        branch: usize,
        handle: TriadHandle,
        snapshot: S,
    ) -> Self {
        DragState {
            selected_branch: Some(branch),
            triad_handle: Some(handle),
            drag_start: Some(snapshot),
            ..self
        }
    }

    /// Pressing the middle button in the viewport starts a pan from
    /// `snapshot`, holding `anchor` under the cursor.
    pub open spec fn after_middle_press(self, snapshot: S, anchor: Option<A>) -> Self {
        DragState { drag_start: Some(snapshot), pan_anchor: anchor, ..self }
    }

    /// Releasing the middle button ends a pan; the snapshot is kept only
    /// while a handle drag is still going on.
    pub open spec fn after_middle_release(self) -> Self {
        DragState {
            pan_anchor: None,
            drag_start: if self.triad_handle is None {
                None
            } else {
                self.drag_start
            },
            ..self
        }
    }

    /// No drag, no selection.
    pub fn new() -> (r: Self)
        ensures
            r.wf(),
            r.drag_start is None,
            r.pan_anchor is None,
            r.selected_branch is None,
            r.triad_handle is None,
            r.triad_offset is None,
    {
        DragState {
            drag_start: None,
            pan_anchor: None,
            selected_branch: None,
            triad_handle: None,
            triad_offset: None,
        }
    }

    pub fn release_primary(&mut self)
        requires
            old(self).wf(),
        ensures
            *final(self) == old(self).after_primary_release(),
            final(self).wf(),
    {
        self.triad_handle = None;
        self.triad_offset = None;
        if self.pan_anchor.is_none() {
            self.drag_start = None;
        }
    }

    pub fn press_handle(&mut self, branch: usize, handle: TriadHandle, snapshot: S)
        requires
            old(self).wf(),
        ensures
            *final(self) == old(self).after_handle_press(branch, handle, snapshot),
            final(self).wf(),
    {
        self.selected_branch = Some(branch);
        self.triad_handle = Some(handle);
        self.drag_start = Some(snapshot);
    }

    pub fn press_middle(&mut self, snapshot: S, anchor: Option<A>)
        requires
            old(self).wf(),
        ensures
            *final(self) == old(self).after_middle_press(snapshot, anchor),
            final(self).wf(),
    {
        self.drag_start = Some(snapshot);
        self.pan_anchor = anchor;
    }

    pub fn release_middle(&mut self)
        requires
            old(self).wf(),
        ensures
            *final(self) == old(self).after_middle_release(),
            final(self).wf(),
    {
        self.pan_anchor = None;
        if self.triad_handle.is_none() {
            self.drag_start = None;
        }
    }
}

/// Every transition keeps an active drag tied to its snapshot, and once both
/// buttons are released no drag and no snapshot remain, in either order.
pub proof fn lemma_drag_state_transitions<S, A, O>(
    d: DragState<S, A, O>,
    branch: usize,
    handle: TriadHandle,
    snapshot: S,
    anchor: Option<A>,
)
    requires
        d.wf(),
    ensures
        d.after_primary_release().wf(),
        d.after_handle_press(branch, handle, snapshot).wf(),
        d.after_middle_press(snapshot, anchor).wf(),
        d.after_middle_release().wf(),
        d.after_primary_release().after_middle_release().drag_start is None,
        d.after_primary_release().after_middle_release().triad_handle is None,
        d.after_primary_release().after_middle_release().pan_anchor is None,
        d.after_middle_release().after_primary_release().drag_start is None,
        d.after_middle_release().after_primary_release().triad_handle is None,
        d.after_middle_release().after_primary_release().pan_anchor is None,
{
}

} // verus!
