use der::blocks::{lists_host, render};
use der::error::Error;
use der::template::{ParsedTemplate, TemplateFile, TemplateSettings};

fn chars(s: &str) -> Vec<char> {
    s.chars().collect()
}

fn text(v: Vec<char>) -> String {
    v.into_iter().collect()
}

fn settings(path: &str) -> TemplateSettings {
    TemplateSettings {
        path: path.to_string(),
        final_name: "name".to_string(),
        apply_path: "/out".to_string(),
        hostnames: Vec::new(),
        parse_files: false,
        extensions: Vec::new(),
        recursive: false,
    }
}

fn rendered(content: &str, host: &str) -> Result<String, Error> {
    render(&chars(content), &chars(host)).map(text)
}

#[test]
fn content_without_markers_is_unchanged() {
    assert_eq!(rendered("a\nb\n", "h"), Ok("a\nb\n".to_string()));
    assert_eq!(rendered("a\r\nb", "h"), Ok("a\r\nb".to_string()));
    assert_eq!(rendered("", "h"), Ok("".to_string()));
    assert_eq!(rendered("no newline at the end", "h"), Ok("no newline at the end".to_string()));
}

#[test]
fn a_block_for_another_host_is_left_out() {
    assert_eq!(
        rendered("A\n@@ other-host\nSECRET\n@!\nB\n", "this-host"),
        Ok("A\nB\n".to_string())
    );
}

#[test]
fn a_block_for_this_host_is_taken_in() {
    assert_eq!(
        rendered("A\n@@ other-host\nSECRET\n@!\nB\n", "other-host"),
        Ok("A\nSECRET\nB\n".to_string())
    );
}

#[test]
fn a_block_of_several_lines_keeps_each_line() {
    assert_eq!(
        rendered("X\n@@ h\na\n\nb\n@!\nc\n", "h"),
        Ok("X\na\n\nb\nc\n".to_string())
    );
    assert_eq!(rendered("X\n@@ h\na\n\nb\n@!\nc\n", "g"), Ok("X\nc\n".to_string()));
}

#[test]
fn a_block_at_the_start_or_the_end_adds_no_empty_line() {
    assert_eq!(rendered("@@ h\na\n@!\nb", "h"), Ok("a\nb\n".to_string()));
    assert_eq!(rendered("@@ h\na\n@!\nb", "g"), Ok("b\n".to_string()));
    assert_eq!(rendered("a\n@@ h\nb\n@!\n", "h"), Ok("a\nb\n".to_string()));
    assert_eq!(rendered("a\n@@ h\nb\n@!\n", "g"), Ok("a\n".to_string()));
    assert_eq!(rendered("@@ h\n@!\n", "h"), Ok("".to_string()));
}

#[test]
fn several_blocks_are_judged_one_by_one() {
    let content = "0\n@@ a, b\n1\n@!\n2\n  @@b,c\n3\n@!\n@@ c\n4\n@!\n5\n";
    assert_eq!(rendered(content, "a"), Ok("0\n1\n2\n5\n".to_string()));
    assert_eq!(rendered(content, "b"), Ok("0\n1\n2\n3\n5\n".to_string()));
    assert_eq!(rendered(content, "c"), Ok("0\n2\n3\n4\n5\n".to_string()));
    assert_eq!(rendered(content, "d"), Ok("0\n2\n5\n".to_string()));
}

#[test]
fn the_hosts_are_what_follows_the_start_marker() {
    assert!(lists_host(&chars("   @@ one ,two"), &chars("one")));
    assert!(lists_host(&chars("   @@ one ,two"), &chars("two")));
    assert!(!lists_host(&chars("   @@ one ,two"), &chars("on")));
    assert!(lists_host(&chars("# @@host"), &chars("host")));
    assert!(lists_host(&chars("@@"), &chars("")));
}

#[test]
fn an_unclosed_block_is_an_error() {
    assert_eq!(rendered("A\n@@ h\nB\n", "h"), Err(Error::UnbalancedBlocks));
    assert_eq!(rendered("A\n@@ h\nB\n", "g"), Err(Error::UnbalancedBlocks));
    assert_eq!(rendered("@@ h\nB\n@!\n@@ h\n", "h"), Err(Error::UnbalancedBlocks));
}

#[test]
fn markers_out_of_place_are_an_error() {
    assert_eq!(rendered("A\n@!\nB\n", "h"), Err(Error::UnbalancedBlocks));
    assert_eq!(rendered("@!\nB\n@@ h\n", "h"), Err(Error::UnbalancedBlocks));
    assert_eq!(rendered("@@ h\n@@ h\n@!\n@!\n", "h"), Err(Error::UnbalancedBlocks));
    assert_eq!(rendered("@@ h @!\n", "h"), Err(Error::UnbalancedBlocks));
    assert_eq!(rendered("@@ h @!\nx\n@!\n", "h"), Err(Error::UnbalancedBlocks));
}

#[test]
fn a_file_without_content_is_an_error() {
    let file = TemplateFile::new(settings("/a/b"), None);
    assert!(matches!(file.parse("h"), Err(Error::MissingContent)));
}

#[test]
fn a_file_with_content_is_rendered() {
    let file = TemplateFile::new(settings("/a/b"), Some("A\n@@ h\nB\n@!\n".to_string()));
    let ParsedTemplate(out) = file.parse("h").unwrap();
    assert_eq!(out, "A\nB\n");
    let ParsedTemplate(out) = file.parse("g").unwrap();
    assert_eq!(out, "A\n");
    let broken = TemplateFile::new(settings("/a/b"), Some("@@ h\n".to_string()));
    assert!(matches!(broken.parse("h"), Err(Error::UnbalancedBlocks)));
}

#[test]
fn apply_names_the_output_file() {
    let mut file = TemplateFile::new(settings("/a/b"), Some("x\n".to_string()));
    let ParsedTemplate(out) = file.apply("h").unwrap();
    assert_eq!(out, "x\n");
    assert_eq!(file.0.apply_path, "/out/name");
    assert_eq!(file.0.final_name, "name");

    let mut with_separator = TemplateFile::new(settings("/a/b"), Some("x\n".to_string()));
    with_separator.0.apply_path = "/out/".to_string();
    with_separator.apply("h").unwrap();
    assert_eq!(with_separator.0.apply_path, "/out/name");

    let mut empty = TemplateFile::new(settings("/a/b"), Some("x\n".to_string()));
    empty.0.apply_path = "".to_string();
    empty.apply("h").unwrap();
    assert_eq!(empty.0.apply_path, "/name");
}

#[test]
fn apply_changes_nothing_when_it_fails() {
    let mut file = TemplateFile::new(settings("/a/b"), Some("@@ h\n".to_string()));
    assert!(matches!(file.apply("h"), Err(Error::UnbalancedBlocks)));
    assert_eq!(file.0.apply_path, "/out");
    let mut missing = TemplateFile::new(settings("/a/b"), None);
    assert!(matches!(missing.apply("h"), Err(Error::MissingContent)));
    assert_eq!(missing.0.apply_path, "/out");
}

#[test]
fn errors_have_their_messages() {
    assert_eq!(
        Error::MissingContent.message(),
        "Error parsing template file: File does not exist"
    );
    assert_eq!(
        Error::UnbalancedBlocks.message(),
        "Error when parsing template file: Open template blocks don't match closed template blocks!"
    );
}
