use nestix_native_winui::callbacks::CallbackRegistry;
use nestix_native_winui::drag_drop::{
    complete_files, complete_image, complete_text, decide, drag_temp_dir_name, drop_operation, dropped_image_name,
    modifiers, native_operation, native_operations, operation, operations, source_outcome,
    start_decision, target_enter, target_leave, target_over, DragDataTypes, DragIds,
    DragOperation, DragOperations, DragSourceOutcome, DragStart, RegistrationStacks,
};

fn ops(copy: bool, move_: bool, link: bool) -> DragOperations {
    DragOperations { copy, move_, link }
}

fn types(files: bool, image: bool, text: bool) -> DragDataTypes {
    DragDataTypes { files, image, text }
}

#[test]
fn operation_mapping_round_trips() {
    for op in [DragOperation::Copy, DragOperation::Move, DragOperation::Link] {
        assert_eq!(operation(native_operation(Some(op))), Some(op));
    }
}

#[test]
fn operation_sets_map_to_native_bits_and_back() {
    assert_eq!(native_operations(ops(true, false, true)), 5);
    assert_eq!(native_operations(ops(false, false, false)), 0);
    assert_eq!(operations(7), ops(true, true, true));
    assert_eq!(operations(2 | 8), ops(false, true, false));
    assert_eq!(native_operation(None), 0);
    assert_eq!(operation(0), None);
    assert_eq!(operation(1 | 2 | 4), Some(DragOperation::Move));
    assert_eq!(operation(1 | 4), Some(DragOperation::Copy));
}

#[test]
fn control_is_the_primary_drag_modifier() {
    let m = modifiers(2 | 4 | 8);
    assert!(m.primary && m.alt && !m.shift);
    let m = modifiers(1);
    assert!(!m.primary && !m.alt && m.shift);
}

#[test]
fn targets_decide_with_handler_or_default() {
    let all = ops(true, true, true);
    let files = types(true, false, false);
    assert_eq!(decide(false, files, all, None, DragOperation::Copy), None);
    assert_eq!(decide(true, types(false, false, false), all, None, DragOperation::Copy), None);
    assert_eq!(decide(true, files, all, None, DragOperation::Copy), Some(DragOperation::Copy));
    assert_eq!(decide(true, files, ops(false, true, false), None, DragOperation::Copy), None);
    assert_eq!(decide(true, files, all, Some(Some(DragOperation::Link)), DragOperation::Copy), Some(DragOperation::Link));
    assert_eq!(decide(true, files, all, Some(None), DragOperation::Copy), None);
    assert_eq!(drop_operation(Some(DragOperation::Move), ops(true, false, false)), None);
    assert_eq!(drop_operation(Some(DragOperation::Copy), ops(true, false, false)), Some(DragOperation::Copy));
}

#[test]
fn only_the_newest_registration_of_an_element_answers() {
    let mut targets = RegistrationStacks::new();
    targets.register(100, 1);
    targets.register(100, 2);
    targets.register(200, 3);
    let files = types(true, false, false);
    let all = ops(true, true, true);
    assert_eq!(target_enter(&targets, 1, true, files, all, None, DragOperation::Copy), None);
    assert_eq!(target_over(&targets, 2, true, files, all, None, DragOperation::Move), Some(Some(DragOperation::Move)));
    assert_eq!(target_leave(&targets, 3), Some(None));
    assert!(!targets.unregister(100, 2));
    assert!(targets.is_active(1));
    assert!(targets.unregister(100, 1));
    assert!(!targets.is_active(1));
    assert!(!targets.unregister(300, 9));
    assert!(targets.is_active(3));
}

#[test]
fn pending_reads_complete_once() {
    let mut files: CallbackRegistry<&str> = CallbackRegistry::new();
    let mut ids = DragIds::new();
    let id = ids.next_id();
    assert_eq!(id, 1);
    assert_eq!(ids.next_id(), 2);
    files.insert_with_id(id, "files");
    assert_eq!(complete_files(&mut files, id), Some("files"));
    assert_eq!(complete_files(&mut files, id), None);
    let mut text: CallbackRegistry<&str> = CallbackRegistry::new();
    assert_eq!(complete_text(&mut text, 5), None);
}

#[test]
fn sources_start_only_when_enabled_with_content() {
    assert_eq!(start_decision(false, false), DragStart::Cancel);
    assert_eq!(start_decision(true, true), DragStart::CancelEmpty);
    assert_eq!(start_decision(true, false), DragStart::Proceed);
    assert_eq!(source_outcome(2), DragSourceOutcome::Dropped(DragOperation::Move));
    assert_eq!(source_outcome(0), DragSourceOutcome::Cancelled);
}

#[test]
fn drag_files_are_named_predictably() {
    assert_eq!(drag_temp_dir_name(4321, 17), "nestix-drag-4321-17");
    assert_eq!(dropped_image_name("image/png"), "image.png");
    assert_eq!(dropped_image_name("image/jpeg"), "image.jpg");
    assert_eq!(dropped_image_name("image/gif"), "image.gif");
    assert_eq!(dropped_image_name("image/bmp"), "image.bmp");
    assert_eq!(dropped_image_name("image/webp"), "image.img");
}

#[test]
fn offered_types_are_those_both_sides_know() {
    let offered = types(true, true, false);
    let accepted = types(true, false, true);
    assert_eq!(offered.intersection(&accepted), types(true, false, false));
    assert!(types(false, true, false).intersection(&types(true, false, true)).is_empty());
}

#[test]
fn an_image_read_completes_its_request_once() {
    let mut callbacks: CallbackRegistry<&str> = CallbackRegistry::new();
    let id = callbacks.register("image");
    assert_eq!(complete_image(&mut callbacks, id), Some("image"));
    assert_eq!(complete_image(&mut callbacks, id), None);
    assert_eq!(callbacks.len(), 0);
}
