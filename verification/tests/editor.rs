use fractal_core::editor::{
    add_branch, can_add_branch, delete_branch, selection_for_count, set_variation_slot,
    triad_constraint_hint, triad_edit, variation_in_slot, Axis, DragState, TriadEdit, TriadHandle,
    MAX_BRANCHES, MAX_VISIBLE_VARIATIONS,
};
use fractal_core::flame::VariEntry;
use fractal_core::variations::Variation;

#[test]
fn drag_modifiers_choose_the_edit() {
    assert_eq!(triad_edit(TriadHandle::Origin, true, true), TriadEdit::Translate);
    assert_eq!(triad_edit(TriadHandle::XAxis, true, true), TriadEdit::RotateOnly(Axis::X));
    assert_eq!(triad_edit(TriadHandle::YAxis, false, true), TriadEdit::Endpoint(Axis::Y));
    assert_eq!(triad_edit(TriadHandle::XAxis, false, false), TriadEdit::RotateScale(Axis::X));
}

#[test]
fn constraint_hint_follows_modifiers() {
    assert_eq!(triad_constraint_hint(false, true, false, Some(TriadHandle::XAxis)), None);
    assert_eq!(
        triad_constraint_hint(true, true, true, Some(TriadHandle::XAxis)),
        Some("Constraint: Rotate only")
    );
    assert_eq!(
        triad_constraint_hint(true, false, true, Some(TriadHandle::YAxis)),
        Some("Constraint: Unconstrained")
    );
    assert_eq!(
        triad_constraint_hint(true, false, false, Some(TriadHandle::YAxis)),
        Some("Constraint: Rotate + Scale")
    );
    assert_eq!(triad_constraint_hint(true, true, false, Some(TriadHandle::Origin)), None);
    assert_eq!(triad_constraint_hint(true, true, false, None), None);
}

#[test]
fn branch_list_editing() {
    assert_eq!(MAX_BRANCHES, 8);
    assert!(can_add_branch(7));
    assert!(!can_add_branch(8));
    let mut branches = vec!['a', 'b', 'c'];
    assert_eq!(add_branch(&mut branches, 'd'), 3);
    assert_eq!(branches, vec!['a', 'b', 'c', 'd']);
    assert_eq!(delete_branch(&mut branches, 1), Some(1));
    assert_eq!(branches, vec!['a', 'c', 'd']);
    assert_eq!(delete_branch(&mut branches, 2), Some(1));
    assert_eq!(branches, vec!['a', 'c']);
    assert_eq!(delete_branch(&mut branches, 0), Some(0));
    assert_eq!(delete_branch(&mut branches, 0), None);
    assert!(branches.is_empty());
    assert_eq!(selection_for_count(Some(2), 0), None);
    assert_eq!(selection_for_count(Some(2), 3), Some(2));
}

#[test]
fn variation_slots_pad_with_linear() {
    assert_eq!(MAX_VISIBLE_VARIATIONS, 4);
    let mut vars = vec![VariEntry::new(Variation::Julia, 0.5f32)];
    let shown = variation_in_slot(&vars, 3, 0.0);
    assert_eq!((shown.variation, shown.weight), (Variation::Linear, 0.0));
    set_variation_slot(&mut vars, 2, VariEntry::new(Variation::Swirl, 0.75), 0.0);
    assert_eq!(vars.len(), 3);
    assert_eq!(vars[0].variation, Variation::Julia);
    assert_eq!((vars[1].variation, vars[1].weight), (Variation::Linear, 0.0));
    assert_eq!((vars[2].variation, vars[2].weight), (Variation::Swirl, 0.75));
    set_variation_slot(&mut vars, 0, VariEntry::new(Variation::Heart, 1.0), 0.0);
    assert_eq!(vars.len(), 3);
    assert_eq!((vars[0].variation, vars[0].weight), (Variation::Heart, 1.0));
    let shown = variation_in_slot(&vars, 2, 0.0);
    assert_eq!(shown.variation, Variation::Swirl);
}

#[test]
fn handle_drag_then_pan_release_clears_snapshot() {
    let mut d: DragState<u32, (i32, i32), (i32, i32)> = DragState::new();
    assert!(d.drag_start.is_none() && d.selected_branch.is_none());

    d.press_handle(2, TriadHandle::YAxis, 7);
    assert_eq!(d.selected_branch, Some(2));
    assert_eq!(d.triad_handle, Some(TriadHandle::YAxis));
    assert_eq!(d.drag_start, Some(7));

    d.press_middle(9, Some((1, -1)));
    assert_eq!(d.drag_start, Some(9));
    assert_eq!(d.pan_anchor, Some((1, -1)));

    // The pan is still running: the snapshot stays.
    d.release_primary();
    assert_eq!(d.triad_handle, None);
    assert_eq!(d.drag_start, Some(9));
    assert_eq!(d.selected_branch, Some(2));

    d.release_middle();
    assert_eq!(d.pan_anchor, None);
    assert_eq!(d.drag_start, None);
    assert_eq!(d.selected_branch, Some(2));
}

#[test]
fn pan_then_handle_release_in_other_order() {
    let mut d: DragState<u32, (i32, i32), (i32, i32)> = DragState::new();
    d.press_middle(3, None);
    d.press_handle(0, TriadHandle::Origin, 4);
    d.triad_offset = Some((5, 5));
    d.release_middle();
    assert_eq!(d.drag_start, Some(4));
    d.release_primary();
    assert_eq!(d.drag_start, None);
    assert_eq!(d.triad_offset, None);
    assert_eq!(d.triad_handle, None);
}
