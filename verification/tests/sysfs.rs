use input_inhibit::sysfs::{device_dir, inhibit_path, node_name};
use std::path::Path;

fn file_name_by_std(path: &str) -> Option<String> {
    Path::new(path).file_name().and_then(|name| name.to_str()).map(|name| name.to_string())
}

#[test]
fn attribute_path_of_an_event_node() {
    assert_eq!(
        inhibit_path("/dev/input/event3"),
        Some("/sys/class/input/event3/device/inhibited".to_string())
    );
    assert_eq!(
        inhibit_path("/dev/input/event17"),
        Some("/sys/class/input/event17/device/inhibited".to_string())
    );
}

#[test]
fn device_dir_of_an_event_node() {
    assert_eq!(device_dir("/dev/input/event3"), Some("/sys/class/input/event3/device".to_string()));
}

#[test]
fn only_the_last_component_counts() {
    assert_eq!(node_name("/dev/input/event3"), Some("event3"));
    assert_eq!(node_name("/somewhere/else/event3"), Some("event3"));
    assert_eq!(node_name("event3"), Some("event3"));
    assert_eq!(node_name("input/event3"), Some("event3"));
    assert_eq!(
        inhibit_path("/somewhere/else/event3"),
        Some("/sys/class/input/event3/device/inhibited".to_string())
    );
    assert_eq!(inhibit_path("event3"), inhibit_path("/dev/input/event3"));
}

#[test]
fn separators_at_the_end_do_not_count() {
    assert_eq!(node_name("/dev/input/event3/"), Some("event3"));
    assert_eq!(node_name("/dev/input/event3///"), Some("event3"));
    assert_eq!(node_name("/dev//input//event3"), Some("event3"));
    assert_eq!(
        inhibit_path("/dev/input/event3/"),
        Some("/sys/class/input/event3/device/inhibited".to_string())
    );
}

#[test]
fn dot_segments_do_not_count() {
    assert_eq!(node_name("/dev/input/event3/."), Some("event3"));
    assert_eq!(node_name("/dev/input/event3/./"), Some("event3"));
    assert_eq!(node_name("/dev/input/event3/././/"), Some("event3"));
    assert_eq!(node_name("./event3"), Some("event3"));
    assert_eq!(node_name("/dev/./input/./event3"), Some("event3"));
}

#[test]
fn names_with_dots_are_names() {
    assert_eq!(node_name("/dev/input/..."), Some("..."));
    assert_eq!(node_name("/dev/input/.hidden"), Some(".hidden"));
    assert_eq!(node_name("/dev/input/a."), Some("a."));
    assert_eq!(node_name("/dev/input/.a"), Some(".a"));
    assert_eq!(node_name("/dev/input/..a"), Some("..a"));
    assert_eq!(node_name("/dev/input/a.."), Some("a.."));
    assert_eq!(node_name("/dev/input/event3.bak"), Some("event3.bak"));
}

#[test]
fn a_path_without_a_component_names_no_node() {
    assert_eq!(node_name(""), None);
    assert_eq!(node_name("/"), None);
    assert_eq!(node_name("//"), None);
    assert_eq!(node_name("."), None);
    assert_eq!(node_name("./"), None);
    assert_eq!(node_name("/."), None);
    assert_eq!(node_name("/./."), None);
    assert_eq!(device_dir(""), None);
    assert_eq!(device_dir("/"), None);
    assert_eq!(inhibit_path(""), None);
    assert_eq!(inhibit_path("/"), None);
    assert_eq!(inhibit_path("."), None);
}

#[test]
fn a_path_that_ends_in_the_parent_names_no_node() {
    assert_eq!(node_name(".."), None);
    assert_eq!(node_name("/dev/input/.."), None);
    assert_eq!(node_name("/dev/input/../"), None);
    assert_eq!(node_name("/dev/input/../."), None);
    assert_eq!(node_name("/dev/input/..//./"), None);
    assert_eq!(inhibit_path("/dev/input/.."), None);
    assert_eq!(device_dir("/dev/input/.."), None);
}

#[test]
fn a_parent_in_the_middle_does_not_matter() {
    assert_eq!(node_name("/dev/../input/event3"), Some("event3"));
    assert_eq!(node_name("../event3"), Some("event3"));
    assert_eq!(node_name("/dev/input/../event3/."), Some("event3"));
}

#[test]
fn names_may_hold_any_characters_but_the_separator() {
    assert_eq!(node_name("/dev/input/évènement 3"), Some("évènement 3"));
    assert_eq!(node_name("/données/入力/イベント3/"), Some("イベント3"));
    assert_eq!(
        inhibit_path("/dev/input/évènement 3"),
        Some("/sys/class/input/évènement 3/device/inhibited".to_string())
    );
    assert_eq!(node_name("/dev/input/a\\b"), Some("a\\b"));
    assert_eq!(node_name("/dev/input/ "), Some(" "));
}

#[test]
fn node_name_is_the_file_name_of_the_path() {
    let paths = [
        "",
        "/",
        "//",
        ".",
        "..",
        "...",
        "./",
        "../",
        "/.",
        "/..",
        "./.",
        "./..",
        "../.",
        "a",
        "a/",
        "a//",
        "a/.",
        "a/..",
        "a/./",
        "a/../",
        "a/b",
        "a/b/.",
        "a/b/..",
        "a/b/../.",
        "a/./b",
        "a/../b",
        "/a",
        "/a/b/c",
        "/dev/input/event0",
        "/dev/input/event0/",
        "/dev/input/event0/.",
        "/dev/input/event0/..",
        "/dev/input/by-id/usb-Logitech_USB_Receiver-event-kbd",
        "/dev/input/.hidden",
        "/dev/input/..hidden",
        "/dev/input/hidden..",
        "/dev/input/. ",
        "/dev/input/ .",
        "/dev/input/.. ",
        "//dev//input//event0//",
        "./event0",
        ".//event0",
        "././.",
        "/./",
        "/évènement/été",
        "/入力/イベント/",
    ];
    for path in paths {
        assert_eq!(node_name(path).map(|name| name.to_string()), file_name_by_std(path), "{:?}", path);
    }
}

#[test]
fn resolution_joins_the_node_name_under_the_class_directory() {
    let paths = ["/dev/input/event0", "event12/", "/a/b/../c/.", "x"];
    for path in paths {
        let name = node_name(path).unwrap();
        let joined = Path::new("/sys/class/input").join(name).join("device");
        assert_eq!(device_dir(path).unwrap(), joined.to_str().unwrap());
        let attribute = joined.join("inhibited");
        assert_eq!(inhibit_path(path).unwrap(), attribute.to_str().unwrap());
    }
}

#[test]
fn the_same_path_resolves_to_the_same_attribute_path() {
    let first = String::from("/dev/input/event5");
    let second = format!("/dev/input/event{}", 5);
    assert_eq!(inhibit_path(&first), inhibit_path(&second));
    assert_eq!(inhibit_path(&first), inhibit_path(&first));
    assert_eq!(device_dir(&first), device_dir(&second));
    assert_eq!(node_name(&first), node_name(&second));
}

#[test]
fn resolution_does_not_look_at_the_file_system() {
    let missing = "/no/such/directory/anywhere/event4242";
    assert!(!Path::new(missing).exists());
    assert_eq!(
        inhibit_path(missing),
        Some("/sys/class/input/event4242/device/inhibited".to_string())
    );
}
