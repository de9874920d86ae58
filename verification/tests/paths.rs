use der::paths::{normalize_path, remove_template_ext_or_dir};

#[test]
fn normalize_path_test() {
    assert_eq!(normalize_path("/home/test/../../usr"), "/usr");
}

#[test]
fn normalize_drops_dots_and_empty_components() {
    assert_eq!(normalize_path("/a/./b//c/"), "/a/b/c");
    assert_eq!(normalize_path("a/b/../c"), "a/c");
    assert_eq!(normalize_path("./a"), "a");
}

#[test]
fn normalize_keeps_the_root_and_drops_a_dangling_parent() {
    assert_eq!(normalize_path("/"), "/");
    assert_eq!(normalize_path("/.."), "/");
    assert_eq!(normalize_path("../a"), "a");
    assert_eq!(normalize_path(""), "");
}

#[test]
fn extension_is_stripped_when_listed() {
    let needles = vec![String::from("tmpl")];
    assert_eq!(remove_template_ext_or_dir("/a/config.tmpl", false, &needles), "config");
    assert_eq!(remove_template_ext_or_dir("/a/config.txt", false, &needles), "config.txt");
}

#[test]
fn only_the_last_extension_is_stripped() {
    let needles = vec![String::from("t"), String::from("tmpl")];
    assert_eq!(remove_template_ext_or_dir("/a/x.tmpl.b.tmpl", false, &needles), "x.tmpl.b");
    assert_eq!(remove_template_ext_or_dir("rc.t", false, &needles), "rc");
}

#[test]
fn names_without_extension_stay() {
    let needles = vec![String::from("tmpl"), String::from("")];
    assert_eq!(remove_template_ext_or_dir("/a/Makefile", false, &needles), "Makefile");
    assert_eq!(remove_template_ext_or_dir("/a/.tmpl", false, &needles), ".tmpl");
    assert_eq!(remove_template_ext_or_dir("/a/..", false, &needles), "..");
}

#[test]
fn a_directory_keeps_its_name() {
    let needles = vec![String::from("d")];
    assert_eq!(remove_template_ext_or_dir("/a/conf.d", true, &needles), "conf.d");
    assert_eq!(remove_template_ext_or_dir("/a/conf.d", false, &needles), "conf");
}
