use nestix_native_winui::callbacks::CallbackRegistry;
use nestix_native_winui::children::ChildList;
use nestix_native_winui::select::{SelectOptionData, SelectOptions};
use nestix_native_winui::xaml_events::{
    next_callback_id, RegisteredClickCallback, RegisteredResizeCallback, RegisteredScaleFactorCallback,
    XamlRealizedRegistration,
};

const FIRST: u64 = 1;
const SECOND: u64 = 2;
const THIRD: u64 = 3;

fn option(label: &str, value: &str) -> SelectOptionData {
    SelectOptionData { label: label.into(), value: value.into(), enabled: true }
}

fn same(a: &(u64, SelectOptionData), b: &(u64, SelectOptionData)) -> bool {
    a.0 == b.0 && a.1.label == b.1.label && a.1.value == b.1.value && a.1.enabled == b.1.enabled
}

#[test]
fn select_options_update_remove_and_reorder_before_realization() {
    let mut select = SelectOptions::new();
    select.upsert_option(1, option("First", "first"));
    select.upsert_option(2, option("Second", "second"));
    select.move_option(2, 0);
    select.upsert_option(1, option("Updated", "first"));

    let options = select.to_vec();
    let expected = [(2, option("Second", "second")), (1, option("Updated", "first"))];
    assert_eq!(options.len(), expected.len());
    assert!(options.iter().zip(expected.iter()).all(|(a, b)| same(a, b)));

    select.remove_option(2);
    let options = select.to_vec();
    let expected = [(1, option("Updated", "first"))];
    assert_eq!(options.len(), expected.len());
    assert!(options.iter().zip(expected.iter()).all(|(a, b)| same(a, b)));
}

#[test]
fn select_resolves_values_to_indices() {
    let mut select = SelectOptions::new();
    select.upsert_option(5, option("A", "a"));
    select.upsert_option(6, option("B", "b"));
    select.upsert_option(7, option("Also B", "b"));
    assert_eq!(select.selected_index(Some(&"b".to_string())), Some(1));
    assert_eq!(select.selected_index(Some(&"z".to_string())), None);
    assert_eq!(select.selected_index(None), None);
    assert_eq!(select.value_at(0).as_deref(), Some("a"));
    assert_eq!(select.value_at(-1), None);
    assert_eq!(select.value_at(3), None);
    select.move_option(42, 0);
    assert_eq!(select.len(), 3);
}

#[test]
fn child_operations_preserve_requested_order_before_realization() {
    let mut parent = ChildList::new();
    parent.append_child(FIRST);
    parent.append_child(SECOND);
    parent.append_child(THIRD);
    assert_eq!(parent.as_vec(), [FIRST, SECOND, THIRD]);

    parent.insert_child(FIRST, 2);
    assert_eq!(parent.as_vec(), [SECOND, THIRD, FIRST]);

    parent.insert_child(THIRD, 0);
    assert_eq!(parent.as_vec(), [THIRD, SECOND, FIRST]);

    parent.remove_child(SECOND);
    assert_eq!(parent.as_vec(), [THIRD, FIRST]);
}

#[test]
fn append_moves_an_existing_child_to_the_end() {
    let mut parent = ChildList::new();
    parent.append_child(FIRST);
    parent.append_child(SECOND);
    parent.append_child(FIRST);
    assert_eq!(parent.as_vec(), [SECOND, FIRST]);
}

#[test]
fn insert_child_after_uses_rendered_predecessor() {
    let button = 10;
    let mut canvas = ChildList::new();
    canvas.append_child(FIRST);
    canvas.insert_child_after(button, Some(FIRST));
    assert_eq!(canvas.child_index(button), Some(1));
}

#[test]
fn tab_items_preserve_requested_order_before_realization() {
    let mut tabs = ChildList::new();
    tabs.append_child(FIRST);
    tabs.insert_child(SECOND, 0);
    assert_eq!(tabs.as_vec(), [SECOND, FIRST]);
    tabs.remove_child(SECOND);
    assert_eq!(tabs.as_vec(), [FIRST]);
}

#[test]
fn insert_after_without_predecessor_goes_first_and_unknown_keeps_place() {
    let mut list = ChildList::new();
    list.append_child(FIRST);
    list.append_child(SECOND);
    assert_eq!(list.insert_child_after(THIRD, None), 0);
    assert_eq!(list.as_vec(), [THIRD, FIRST, SECOND]);
    list.insert_child_after(FIRST, Some(99));
    assert_eq!(list.as_vec(), [THIRD, FIRST, SECOND]);
    list.insert_child_after(4, Some(99));
    assert_eq!(list.as_vec(), [THIRD, FIRST, SECOND, 4]);
    assert_eq!(list.insert_child(5, 100), 4);
    assert_eq!(list.child_index(77), None);
}

#[test]
fn realized_callback_is_retained_until_registration_is_dropped() {
    let mut callbacks: CallbackRegistry<&str> = CallbackRegistry::new();
    let (registration, call_now) = XamlRealizedRegistration::on_realized(&mut callbacks, "cb", false);
    assert!(!call_now);
    assert_eq!(callbacks.len(), 1);
    registration.release(&mut callbacks);
    assert_eq!(callbacks.len(), 0);
}

#[test]
fn click_callbacks_are_found_until_unregistered() {
    let mut callbacks: CallbackRegistry<&str> = CallbackRegistry::new();
    let a = RegisteredClickCallback::register(&mut callbacks, "a");
    let b = RegisteredClickCallback::register(&mut callbacks, "b");
    assert_eq!(a.id(), 1);
    assert_eq!(b.id(), 2);
    assert_eq!(RegisteredClickCallback::invoke(&callbacks, 1), Some(&"a"));
    a.unregister(&mut callbacks);
    assert_eq!(RegisteredClickCallback::invoke(&callbacks, 1), None);
    assert_eq!(RegisteredClickCallback::invoke(&callbacks, 2), Some(&"b"));
}

#[test]
fn scale_and_resize_callbacks_use_their_own_registries() {
    let mut scale: CallbackRegistry<u8> = CallbackRegistry::new();
    let mut resize: CallbackRegistry<u8> = CallbackRegistry::new();
    let s = RegisteredScaleFactorCallback::register(&mut scale, 1);
    let r = RegisteredResizeCallback::register(&mut resize, 2);
    assert_eq!(s.id(), 1);
    assert_eq!(r.id(), 1);
    assert_eq!(RegisteredScaleFactorCallback::invoke(&scale, s.id()), Some(&1));
    assert_eq!(RegisteredResizeCallback::invoke(&resize, r.id()), Some(&2));
    s.unregister(&mut scale);
    r.unregister(&mut resize);
    assert_eq!(RegisteredScaleFactorCallback::invoke(&scale, 1), None);
    assert_eq!(RegisteredResizeCallback::invoke(&resize, 1), None);
}

#[test]
fn callback_ids_count_up_from_one() {
    let mut callbacks: CallbackRegistry<()> = CallbackRegistry::new();
    assert_eq!(next_callback_id(&mut callbacks), 1);
    assert_eq!(next_callback_id(&mut callbacks), 2);
    assert_eq!(callbacks.register(()), 3);
    assert_eq!(callbacks.complete(3), Some(()));
    assert_eq!(callbacks.complete(3), None);
}

#[test]
fn a_child_before_its_predecessor_lands_one_place_further() {
    let mut list = ChildList::new();
    list.append_child(1);
    list.append_child(2);
    list.append_child(3);
    list.insert_child_after(1, Some(2));
    assert_eq!(list.as_vec(), [2, 3, 1]);
    list.insert_child_after(2, Some(3));
    assert_eq!(list.as_vec(), [3, 1, 2]);
}
