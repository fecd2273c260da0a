use input_inhibit::device::Device;
use input_inhibit::filter::{enumerate_with_filter, FilterArgs};

fn device(path: &str, name: Option<&str>, vendor_id: u16, product_id: u16) -> Device {
    Device {
        enumeration_path: path.to_string(),
        name: name.map(|n| n.to_string()),
        vendor_id,
        product_id,
    }
}

fn criteria(vid: Option<u16>, pid: Option<u16>, name: Option<&str>) -> FilterArgs {
    FilterArgs { vid, pid, name: name.map(|n| n.to_string()) }
}

fn keyboard_and_mouse() -> Vec<Device> {
    vec![
        device("/dev/input/event0", Some("Keyboard"), 0x046d, 0xc52b),
        device("/dev/input/event1", Some("Mouse"), 0x046d, 0xc52a),
    ]
}

#[test]
fn empty_filter_matches_every_device() {
    let all = criteria(None, None, None);
    assert!(all.matches(&device("/dev/input/event0", Some("Keyboard"), 0x046d, 0xc52b)));
    assert!(all.matches(&device("/dev/input/event9", None, 0, 0)));
    assert!(all.matches(&device("", Some(""), 0xffff, 0xffff)));
}

#[test]
fn empty_filter_lists_every_device_in_order() {
    let devices = keyboard_and_mouse();
    let listed = enumerate_with_filter(&criteria(None, None, None), &devices);
    assert_eq!(listed, vec![&devices[0], &devices[1]]);
}

#[test]
fn every_present_criterion_has_to_match() {
    let keyboard = device("/dev/input/event0", Some("Keyboard"), 0x046d, 0xc52b);
    assert!(criteria(Some(0x046d), Some(0xc52b), Some("Keyboard")).matches(&keyboard));
    assert!(!criteria(Some(0x046e), Some(0xc52b), Some("Keyboard")).matches(&keyboard));
    assert!(!criteria(Some(0x046d), Some(0xc52a), Some("Keyboard")).matches(&keyboard));
    assert!(!criteria(Some(0x046d), Some(0xc52b), Some("Mouse")).matches(&keyboard));
}

#[test]
fn a_single_criterion_ignores_the_other_fields() {
    let keyboard = device("/dev/input/event0", Some("Keyboard"), 0x046d, 0xc52b);
    assert!(criteria(Some(0x046d), None, None).matches(&keyboard));
    assert!(!criteria(Some(0xc52b), None, None).matches(&keyboard));
    assert!(criteria(None, Some(0xc52b), None).matches(&keyboard));
    assert!(!criteria(None, Some(0x046d), None).matches(&keyboard));
    assert!(criteria(None, None, Some("Keyboard")).matches(&keyboard));
    assert!(!criteria(None, None, Some("Keyboar")).matches(&keyboard));
}

#[test]
fn names_are_compared_exactly_and_with_case() {
    let keyboard = device("/dev/input/event0", Some("Keyboard"), 1, 2);
    assert!(!criteria(None, None, Some("keyboard")).matches(&keyboard));
    assert!(!criteria(None, None, Some("KEYBOARD")).matches(&keyboard));
    assert!(!criteria(None, None, Some("Keyboard ")).matches(&keyboard));
    assert!(!criteria(None, None, Some(" Keyboard")).matches(&keyboard));
    assert!(!criteria(None, None, Some("")).matches(&keyboard));
    let accented = device("/dev/input/event2", Some("Clavier é"), 1, 2);
    assert!(criteria(None, None, Some("Clavier é")).matches(&accented));
    assert!(!criteria(None, None, Some("Clavier e")).matches(&accented));
}

#[test]
fn zero_is_an_id_like_any_other() {
    let zero = device("/dev/input/event3", Some("Virtual"), 0, 0);
    let other = device("/dev/input/event4", Some("Virtual"), 1, 1);
    assert!(criteria(Some(0), Some(0), None).matches(&zero));
    assert!(!criteria(Some(0), None, None).matches(&other));
    assert!(!criteria(None, Some(0), None).matches(&other));
}

#[test]
fn a_device_without_a_name_matches_no_name_criterion() {
    let nameless = device("/dev/input/event5", None, 1, 2);
    assert!(!criteria(None, None, Some("")).matches(&nameless));
    assert!(!criteria(None, None, Some("??")).matches(&nameless));
    assert!(criteria(Some(1), Some(2), None).matches(&nameless));
    assert!(criteria(None, None, None).matches(&nameless));
}

#[test]
fn the_empty_name_is_a_name_like_any_other() {
    let unnamed = device("/dev/input/event6", Some(""), 1, 2);
    assert!(criteria(None, None, Some("")).matches(&unnamed));
    assert!(!criteria(None, None, Some(" ")).matches(&unnamed));
}

#[test]
fn vendor_filter_lists_both_devices() {
    let devices = keyboard_and_mouse();
    let listed = enumerate_with_filter(&criteria(Some(0x046d), None, None), &devices);
    assert_eq!(listed.len(), 2);
    assert_eq!(listed[0].name.as_deref(), Some("Keyboard"));
    assert_eq!(listed[1].name.as_deref(), Some("Mouse"));
}

#[test]
fn product_filter_lists_the_mouse_alone() {
    let devices = keyboard_and_mouse();
    let listed = enumerate_with_filter(&criteria(None, Some(0xc52a), None), &devices);
    assert_eq!(listed, vec![&devices[1]]);
}

#[test]
fn unknown_name_lists_nothing() {
    let devices = keyboard_and_mouse();
    let listed = enumerate_with_filter(&criteria(None, None, Some("Nonexistent")), &devices);
    assert!(listed.is_empty());
}

#[test]
fn filtering_no_devices_lists_nothing() {
    let devices: Vec<Device> = Vec::new();
    assert!(enumerate_with_filter(&criteria(None, None, None), &devices).is_empty());
    assert!(enumerate_with_filter(&criteria(Some(1), None, None), &devices).is_empty());
}

#[test]
fn filtering_keeps_the_order_and_the_duplicates() {
    let devices = vec![
        device("/dev/input/event0", Some("Pad"), 7, 1),
        device("/dev/input/event1", Some("Pen"), 8, 1),
        device("/dev/input/event2", Some("Pad"), 7, 1),
        device("/dev/input/event3", Some("Pad"), 7, 2),
    ];
    let listed = enumerate_with_filter(&criteria(Some(7), Some(1), Some("Pad")), &devices);
    assert_eq!(listed, vec![&devices[0], &devices[2]]);
    let listed = enumerate_with_filter(&criteria(None, Some(1), None), &devices);
    assert_eq!(listed, vec![&devices[0], &devices[1], &devices[2]]);
}
