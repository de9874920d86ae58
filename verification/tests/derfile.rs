use der::answers::{Answer, Lookup, Source};
use der::config::Config;
use der::derfile::{Derfile, Template, Variable};
use der::template::{ParsedTemplate, TemplateFile};

fn answer(source: Source, text: &str, value: Option<&str>) -> Answer {
    Answer { source, text: text.to_string(), value: value.map(|v| v.to_string()) }
}

fn strings(items: &[&str]) -> Vec<String> {
    items.iter().map(|s| s.to_string()).collect()
}

fn load(text: &str, path: &str, config: &Config, answers: &Vec<Answer>) -> Derfile {
    Derfile::load_derfile(text.to_string(), path, config, answers, &Vec::new()).unwrap()
}

fn template<'a>(d: &'a Derfile, key: &str) -> &'a Template {
    &d.templates.iter().find(|t| t.0 == key).unwrap().1
}

fn variable<'a>(d: &'a Derfile, key: &str) -> &'a Variable {
    &d.vars.iter().find(|v| v.0 == key).unwrap().1
}

#[test]
fn load_and_parse_derfile() {
    let derfile_string = r"#
$host = `hostnamectl hostname`
$out = some/out/path/

[some/name.t]
final_name = name
apply_path = $out
hostnames = $host

[some/dir]
final_name = outdir
apply_path = $out:dirs/
hostnames = $host
parse_files = false
extensions = t
recursive = true
            "
    .to_string();
    let answers = vec![answer(Source::Command, "hostnamectl hostname", Some("box"))];
    let derfile_result = Derfile::load_derfile(
        derfile_string,
        "some_path",
        &Config::default(),
        &answers,
        &strings(&["some/dir"]),
    );

    assert_eq!(derfile_result.is_ok(), true);

    let d = derfile_result.unwrap();
    assert_eq!(d.path, "some_path");
    assert_eq!(d.templates.len(), 2);
    assert_eq!(d.templates[0].0, "some/name.t");
    assert_eq!(d.templates[1].0, "some/dir");
    let file = &d.templates[0].1;
    assert_eq!(file.name, "some/name.t");
    assert_eq!(file.final_name, "name");
    assert_eq!(file.apply_path, "some/out/path");
    assert_eq!(file.hostnames, strings(&["box"]));
    assert_eq!(file.extensions, Vec::<String>::new());
    assert_eq!(file.recursive, false);
    assert_eq!(file.parse_files, false);
    let dir = &d.templates[1].1;
    assert_eq!(dir.final_name, "outdir");
    assert_eq!(dir.apply_path, "some/out/path/dirs/");
    assert_eq!(dir.hostnames, strings(&["box"]));
    assert_eq!(dir.extensions, strings(&["t"]));
    assert_eq!(dir.recursive, true);
    assert_eq!(dir.parse_files, false);
    assert_eq!(variable(&d, "host").value, strings(&["box"]));
    assert_eq!(variable(&d, "out").value, strings(&["some/out/path/"]));
}

#[test]
fn serialization_test() {
    let derfile_string = r"#
$host = some, real, weird, hostnames

[some/name.t]
final_name = name
apply_path = some/path/
hostnames = $host
extensions = t, g, h
            "
    .to_string();
    let derfile_result = Derfile::load_derfile(
        derfile_string,
        "some_path",
        &Config::default(),
        &Vec::new(),
        &Vec::new(),
    )
    .unwrap();
    let template = &derfile_result
        .templates
        .iter()
        .filter(|t| t.0 != "[default-template]")
        .last()
        .unwrap()
        .1;
    let variable = &derfile_result.vars.iter().last().unwrap().1;

    assert_eq!(
        template.serialize_hostnames(),
        "some,real,weird,hostnames".to_string()
    );
    assert_eq!(template.serialize_extensions(), "t,g,h".to_string());
    assert_eq!(
        variable.serialize(),
        "some, real, weird, hostnames".to_string()
    );
}

#[test]
fn test_template_file() {
    let hostname = "the-host".to_string();
    let derfile_string = r"#
$host = `hostname`
$out = some/out/path/

[/etc]
final_name = name
apply_path = $out
hostnames = $host
"
    .to_string();

    let template_string = format!(
        "some stuff\n@@ {}\nmore stuff\n@!\nand even more stuff\n",
        hostname
    );

    let answers = vec![answer(Source::Command, "hostname", Some("the-host"))];
    let derfile = Derfile::load_derfile(
        derfile_string,
        "some_path",
        &Config::default(),
        &answers,
        &strings(&["/etc"]),
    )
    .unwrap();
    let template = &derfile
        .templates
        .iter()
        .filter(|t| t.0 != "[default-template]")
        .last()
        .unwrap()
        .1;
    let template_file = TemplateFile::new(template.clone().into(), Some(template_string));
    assert_eq!(template_file.parse(&hostname).is_ok(), true);
    let ParsedTemplate(output) = template_file.parse(&hostname).unwrap();
    println!("{}", output);
    assert_eq!(
        output,
        "some stuff\nmore stuff\nand even more stuff\n".to_string()
    );
    assert_eq!(template_file.0.path, "/etc");
    assert_eq!(template_file.0.apply_path, "some/out/path/");
    assert_eq!(template_file.0.hostnames, strings(&["the-host"]));
}

#[test]
fn scanning_twice_gives_the_same() {
    let text = "$a = 1, 2\n$b = `cmd`\n[x]\nfinal_name = $a:s\nhostnames = h, $a\nunknown = 3\n";
    let answers = vec![answer(Source::Command, "cmd", Some("out"))];
    let first = Derfile::scan(text, "/m/derfile", &answers);
    let second = Derfile::scan(text, "/m/derfile", &answers);
    assert_eq!(format!("{:?}", first), format!("{:?}", second));
    assert_eq!(first.templates.len(), 1);
    assert_eq!(first.templates[0].0, "/m/x");
    assert_eq!(first.templates[0].1.name, "/m/x");
    assert_eq!(first.templates[0].1.final_name, "$a:s");
    assert_eq!(first.templates[0].1.hostnames, strings(&["h", "$a"]));
    assert_eq!(variable(&first, "a").value, strings(&["1", "2"]));
    assert_eq!(variable(&first, "b").value, strings(&["out"]));
}

#[test]
fn a_literal_resolves_to_itself() {
    let d = load(
        "$v = w\n[t]\nfinal_name = plain:name\nhostnames = one, two\nextensions = e\napply_path = /abs/dir\n",
        "/m/derfile",
        &Config::default(),
        &Vec::new(),
    );
    let t = template(&d, "/m/t");
    assert_eq!(t.final_name, "plain:name");
    assert_eq!(t.hostnames, strings(&["one", "two"]));
    assert_eq!(t.extensions, strings(&["e"]));
    assert_eq!(t.apply_path, "/abs/dir");
}

#[test]
fn a_reference_with_a_suffix_is_joined() {
    let d = load(
        "$out = a/b/\n[t]\nfinal_name = $out:c.txt\n",
        "/m/derfile",
        &Config::default(),
        &Vec::new(),
    );
    assert_eq!(template(&d, "/m/t").final_name, "a/b/c.txt");
}

#[test]
fn a_reference_in_a_list_gives_every_value() {
    let d = load(
        "$host = x, y, z\n[t]\nhostnames = $host\n[u]\nhostnames = a, $host, b\n[v]\nextensions = $host:w, q\n",
        "/m/derfile",
        &Config::default(),
        &Vec::new(),
    );
    assert_eq!(template(&d, "/m/t").hostnames, strings(&["x", "y", "z"]));
    assert_eq!(template(&d, "/m/u").hostnames, strings(&["a", "x", "y", "z", "b"]));
    assert_eq!(template(&d, "/m/v").extensions, strings(&["x", "y", "z", "w", "q"]));
}

#[test]
fn a_scalar_field_takes_the_first_value_only() {
    let d = load(
        "$many = x, y\n[t]\nfinal_name = $many\napply_path = $many:/sub\n",
        "/m/derfile",
        &Config::default(),
        &Vec::new(),
    );
    assert_eq!(template(&d, "/m/t").final_name, "x");
    assert_eq!(template(&d, "/m/t").apply_path, "/m/x/sub");
}

#[test]
fn a_missing_variable_gives_an_empty_field() {
    let d = load(
        "[t]\nfinal_name = $nope:suffix\nhostnames = a, $nope, b\napply_path = $nope\n",
        "/m/derfile",
        &Config::default(),
        &Vec::new(),
    );
    let t = template(&d, "/m/t");
    assert_eq!(t.final_name, "");
    assert_eq!(t.hostnames, strings(&["a", "b"]));
    assert_eq!(t.apply_path, "/m");
}

#[test]
fn omitted_fields_come_from_the_default_template() {
    let config = Config::parse(
        "extensions = tmpl,conf\nhostnames = dh\nrecursive = true\nparse_files = true\n",
        &Vec::new(),
    )
    .unwrap();
    let d = load(
        "[omits]\nfinal_name = a\n[sets]\nextensions = \nhostnames = mine\nrecursive = false\nparse_files = no\n",
        "/m/derfile",
        &config,
        &Vec::new(),
    );
    assert_eq!(d.templates.len(), 2);
    let omits = template(&d, "/m/omits");
    assert_eq!(omits.extensions, strings(&["tmpl", "conf"]));
    assert_eq!(omits.hostnames, strings(&["dh"]));
    assert_eq!(omits.recursive, true);
    assert_eq!(omits.parse_files, true);
    let sets = template(&d, "/m/sets");
    assert_eq!(sets.extensions, strings(&[""]));
    assert_eq!(sets.hostnames, strings(&["mine"]));
    assert_eq!(sets.recursive, false);
    assert_eq!(sets.parse_files, false);
}

#[test]
fn the_output_directory_is_made_absolute() {
    let d = Derfile::load_derfile(
        "[f]\napply_path = ../x/./y/\n[d]\napply_path = sub\n[abs]\napply_path = /elsewhere/\n[none]\n"
            .to_string(),
        "/home/u/dots/derfile",
        &Config::default(),
        &Vec::new(),
        &strings(&["/home/u/dots/d"]),
    )
    .unwrap();
    assert_eq!(template(&d, "/home/u/dots/f").apply_path, "/home/u/x/y");
    assert_eq!(template(&d, "/home/u/dots/d").apply_path, "/home/u/dots/sub/");
    assert_eq!(template(&d, "/home/u/dots/abs").apply_path, "/elsewhere/");
    assert_eq!(template(&d, "/home/u/dots/none").apply_path, "/home/u/dots");
}

#[test]
fn headers_are_taken_relative_to_the_manifest() {
    let d = Derfile::scan("  [a/b]  \n[/abs/c]\n[]\n[x\n", "/m/sub/derfile", &Vec::new());
    let keys: Vec<&str> = d.templates.iter().map(|t| t.0.as_str()).collect();
    assert_eq!(keys, vec!["/m/sub/a/b", "/abs/c", "/m/sub/"]);
    let root = Derfile::scan("[a]\n", "/derfile", &Vec::new());
    assert_eq!(root.templates[0].0, "/a");
}

#[test]
fn templates_keep_the_order_of_the_manifest() {
    let d = load(
        "[b]\nfinal_name = 1\n[a]\nfinal_name = 2\n[b]\nhostnames = h\n[c]\n",
        "/m/derfile",
        &Config::default(),
        &Vec::new(),
    );
    let keys: Vec<&str> = d.templates.iter().map(|t| t.0.as_str()).collect();
    assert_eq!(keys, vec!["/m/b", "/m/a", "/m/c"]);
    assert_eq!(template(&d, "/m/b").final_name, "");
    assert_eq!(template(&d, "/m/b").hostnames, strings(&["h"]));
}

#[test]
fn flags_are_true_for_the_word_true_only() {
    let d = Derfile::scan(
        "[t]\nrecursive = true\nparse_files = True\n[u]\nrecursive=  true  \nparse_files = 1\n",
        "/m/derfile",
        &Vec::new(),
    );
    assert_eq!(d.templates[0].1.recursive, true);
    assert_eq!(d.templates[0].1.parse_files, false);
    assert_eq!(d.templates[1].1.recursive, true);
    assert_eq!(d.templates[1].1.parse_files, false);
    assert!(d.templates[0].1.given.recursive && d.templates[0].1.given.parse_files);
    assert!(!d.templates[0].1.given.hostnames && !d.templates[0].1.given.extensions);
}

#[test]
fn lines_outside_a_block_and_unknown_keys_set_nothing() {
    let d = Derfile::scan(
        "final_name = early\n[t]\nfinal = x\n$v = 1\nno equals sign\nfinal_name = a = b\n",
        "/m/derfile",
        &Vec::new(),
    );
    assert_eq!(d.templates.len(), 1);
    assert_eq!(d.templates[0].1.final_name, "a = b");
    assert_eq!(d.templates[0].1.apply_path, "");
    assert_eq!(variable(&d, "v").value, strings(&["1"]));
}

#[test]
fn variables_are_looked_up_or_read_as_they_stand() {
    let text = "$c = `echo hi`\n$e = env`HOME`\n$l = a , b\n$s =  plain text \n$gone = `fails`\n$unset = env`NOPE`\n  $late = 1\n$late = 2\n$none = `unanswered`\n";
    let answers = vec![
        answer(Source::Command, "echo hi", Some("hi")),
        answer(Source::Env, "HOME", Some("/home/u")),
        answer(Source::Command, "fails", None),
        answer(Source::Env, "NOPE", None),
        answer(Source::Env, "echo hi", Some("wrong source")),
    ];
    let d = Derfile::scan(text, "/m/derfile", &answers);
    let keys: Vec<&str> = d.vars.iter().map(|v| v.0.as_str()).collect();
    assert_eq!(keys, vec!["c", "e", "l", "s", "late"]);
    assert_eq!(variable(&d, "c").value, strings(&["hi"]));
    assert_eq!(variable(&d, "c")._name, "c");
    assert_eq!(variable(&d, "e").value, strings(&["/home/u"]));
    assert_eq!(variable(&d, "l").value, strings(&["a", "b"]));
    assert_eq!(variable(&d, "s").value, strings(&["plain text"]));
    assert_eq!(variable(&d, "late").value, strings(&["2"]));
}

#[test]
fn the_lookups_of_a_manifest_are_named_in_order() {
    let text = "$c = `echo hi`\n[t]\n$e = env`HOME`\n$l = a, b\n$q = `x`y\n$c = `again`\nfoo = `not a variable`\n";
    let found = Derfile::lookups(text);
    let seen: Vec<(Source, &str)> = found.iter().map(|l: &Lookup| (l.source, l.text.as_str())).collect();
    assert_eq!(
        seen,
        vec![(Source::Command, "echo hi"), (Source::Env, "HOME"), (Source::Command, "again")]
    );
}

#[test]
fn the_first_answer_counts() {
    let answers = vec![
        answer(Source::Command, "c", Some("first")),
        answer(Source::Command, "c", Some("second")),
    ];
    let d = Derfile::scan("$v = `c`\n", "/m/derfile", &answers);
    assert_eq!(variable(&d, "v").value, strings(&["first"]));
}

#[test]
fn the_configuration_is_merged_in() {
    let config = Config::parse("$shared = from config\n$only = c\nhostnames = h\n", &Vec::new())
        .unwrap();
    let mut d = Derfile::scan("$shared = from derfile\n$mine = m\n[t]\n", "/m/derfile", &Vec::new());
    d.with_config(&config);
    let keys: Vec<&str> = d.vars.iter().map(|v| v.0.as_str()).collect();
    assert_eq!(keys, vec!["shared", "mine", "only"]);
    assert_eq!(variable(&d, "shared").value, strings(&["from config"]));
    let names: Vec<&str> = d.templates.iter().map(|t| t.0.as_str()).collect();
    assert_eq!(names, vec!["/m/t", "[default-template]"]);
    assert_eq!(template(&d, "[default-template]").hostnames, strings(&["h"]));
    let resolved = d.parse(&Vec::new());
    let names: Vec<&str> = resolved.templates.iter().map(|t| t.0.as_str()).collect();
    assert_eq!(names, vec!["/m/t"]);
    assert_eq!(resolved.vars.len(), 3);
    assert_eq!(resolved.path, "/m/derfile");
}

#[test]
fn templates_and_variables_are_kept_like_a_map() {
    let mut d = Derfile::default();
    d.add_template("a".to_string());
    d.add_template("b".to_string());
    d.get_template("a").unwrap().set_final_name("one".to_string());
    assert_eq!(d.templates[0].1.final_name, "one");
    assert!(d.templates[0].1.given.final_name);
    assert_eq!(d.templates[0].1.name, "");
    d.get_template("b").unwrap().set_name("named".to_string());
    assert_eq!(d.templates[1].0, "b");
    assert_eq!(d.templates[1].1.name, "named");
    assert!(d.get_template("c").is_none());
    d.add_template("a".to_string());
    assert_eq!(d.templates.len(), 2);
    assert_eq!(d.templates[0].0, "a");
    assert_eq!(d.templates[0].1.final_name, "");
    assert!(!d.templates[0].1.given.final_name);

    d.add_var("v".to_string(), strings(&["1"]));
    d.add_var("w".to_string(), strings(&["2", "3"]));
    d.add_var("v".to_string(), strings(&["4"]));
    assert_eq!(d.vars.len(), 2);
    assert_eq!(d.get_var("v").unwrap().value, strings(&["4"]));
    assert_eq!(d.get_var("v").unwrap()._name, "v");
    d.get_var("w").unwrap().value.push("5".to_string());
    assert_eq!(d.vars[1].1.value, strings(&["2", "3", "5"]));
    assert!(d.get_var("x").is_none());
}

#[test]
fn setters_set_and_record() {
    let mut t = Template::default();
    t.set_name("n".to_string());
    t.set_final_name("f".to_string());
    t.add_hostname("h1".to_string());
    t.add_hostname("h2".to_string());
    t.set_apply_path("p".to_string());
    t.set_recursive(true);
    assert!(!t.given.parse_files);
    t.set_parse_files(false);
    t.add_extension("e".to_string());
    assert_eq!(t.name, "n");
    assert_eq!(t.final_name, "f");
    assert_eq!(t.hostnames, strings(&["h1", "h2"]));
    assert_eq!(t.apply_path, "p");
    assert!(t.recursive);
    assert!(!t.parse_files);
    assert_eq!(t.extensions, strings(&["e"]));
    assert!(t.given.final_name && t.given.hostnames && t.given.apply_path);
    assert!(t.given.recursive && t.given.parse_files && t.given.extensions);
    let copy = t.clone();
    assert_eq!(format!("{:?}", copy), format!("{:?}", t));
    let v = Variable::new("x".to_string(), strings(&["a", "b"]));
    assert_eq!(v._name, "x");
    assert_eq!(v.serialize(), "a, b");
    assert_eq!(v.clone().value, strings(&["a", "b"]));
}

#[test]
fn keys_that_set_nothing_are_named() {
    let text = "early = 1\n[t]\nfinal_name = a\n colour = red\n$v = 1\nplain line\n[u = v]\nhostname = h\n = empty\n";
    assert_eq!(Derfile::ignored_keys(text), strings(&["colour", "hostname", ""]));
    assert_eq!(Derfile::ignored_keys("a = b\n"), Vec::<String>::new());
}
