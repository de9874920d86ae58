use der::answers::{Answer, Source};
use der::config::Config;

fn strings(items: &[&str]) -> Vec<String> {
    items.iter().map(|s| s.to_string()).collect()
}

#[test]
fn the_empty_configuration_is_written_with_its_four_fields() {
    assert_eq!(
        Config::default().to_text(),
        "hostnames = \nextensions = \nrecursive = false\nparse_files = false\n"
    );
}

#[test]
fn a_configuration_is_read_line_by_line() {
    let answers = vec![
        Answer { source: Source::Command, text: "whoami".to_string(), value: Some("u".to_string()) },
        Answer { source: Source::Env, text: "HOME".to_string(), value: Some("/home/u".to_string()) },
        Answer { source: Source::Command, text: "bad".to_string(), value: None },
    ];
    let text = "hostnames = a, b\nextensions=tmpl\nrecursive = true\nparse_files = false\n$me = `whoami`\n$home = env`HOME`\n$list = x, y\n$bad = `bad`\n$unset = env`NOPE`\nnoise\nother = 1\n";
    let config = Config::parse(text, &answers).unwrap();
    assert_eq!(config.template.hostnames, strings(&["a", " b"]));
    assert_eq!(config.template.extensions, strings(&["tmpl"]));
    assert_eq!(config.template.recursive, true);
    assert_eq!(config.template.parse_files, false);
    assert_eq!(config.template.final_name, "");
    let names: Vec<&str> = config.vars.iter().map(|v| v._name.as_str()).collect();
    assert_eq!(names, vec!["me", "home", "list"]);
    assert_eq!(config.vars[0].value, strings(&["u"]));
    assert_eq!(config.vars[1].value, strings(&["/home/u"]));
    assert_eq!(config.vars[2].value, strings(&["x, y"]));
}

#[test]
fn a_written_configuration_reads_back() {
    let config = Config::parse(
        "hostnames = a,b\nextensions = t\nrecursive = true\n$v = one\n$w = two\n",
        &Vec::new(),
    )
    .unwrap();
    let text = config.to_text();
    assert_eq!(
        text,
        "hostnames = a,b\nextensions = t\nrecursive = true\nparse_files = false\n$v = one\n$w = two\n"
    );
    let again = Config::parse(&text, &Vec::new()).unwrap();
    assert_eq!(again.to_text(), text);
    assert_eq!(format!("{:?}", again.clone()), format!("{:?}", again));
}

#[test]
fn the_lookups_of_a_configuration_are_named() {
    let found = Config::lookups("$a = `id -u`\nhostnames = `x`\n$b = env`USER`\n$c = env`\n$d = `\n");
    assert_eq!(found.len(), 2);
    assert_eq!(found[0].source, Source::Command);
    assert_eq!(found[0].text, "id -u");
    assert_eq!(found[1].source, Source::Env);
    assert_eq!(found[1].text, "USER");
}

#[test]
fn lone_backticks_are_plain_values() {
    let config = Config::parse("$c = env`\n$d = `\n$e = ``\n", &Vec::new()).unwrap();
    let names: Vec<&str> = config.vars.iter().map(|v| v._name.as_str()).collect();
    assert_eq!(names, vec!["c", "d"]);
    assert_eq!(config.vars[0].value, strings(&["env`"]));
    assert_eq!(config.vars[1].value, strings(&["`"]));
}
