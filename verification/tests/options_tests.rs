use mpv_client::node::Node;
use mpv_client::options::{collect_options, options_file_name, parse_config, script_opt_overrides};

fn s(x: &str) -> String {
    x.to_string()
}

fn lookup(m: &[(String, String)], k: &str) -> Option<String> {
    m.iter().find(|(key, _)| key == k).map(|(_, v)| v.clone())
}

#[test]
fn config_lines() {
    let content = "# comment\n\n  volume = 50 \r\nname=a=b\n   # indented comment\nno equals sign\n\tpath=~/x\nlast=1";
    let entries = parse_config(content);
    assert_eq!(
        entries,
        vec![
            (s("volume"), s(" 50 ")),
            (s("name"), s("a=b")),
            (s("path"), s("~/x")),
            (s("last"), s("1")),
        ]
    );
}

#[test]
fn config_edge_cases() {
    assert_eq!(parse_config(""), vec![]);
    assert_eq!(parse_config("\n\n"), vec![]);
    assert_eq!(parse_config("=v"), vec![(s(""), s("v"))]);
    assert_eq!(parse_config("k=\r"), vec![(s("k"), s("\r"))]);
    assert_eq!(parse_config("k=\r\n"), vec![(s("k"), s(""))]);
    assert_eq!(parse_config("\u{3000}k\u{a0}=v"), vec![(s("k"), s("v"))]);
}

#[test]
fn script_opts_for_the_plugin() {
    let so = vec![
        (s("myplugin-speed"), Node::String(s("2"))),
        (s("other-speed"), Node::String(s("3"))),
        (s("myplugin-flag"), Node::Bool(true)),
        (s("myplugin"), Node::String(s("x"))),
        (s("myplugin-"), Node::String(s("empty key"))),
    ];
    assert_eq!(
        script_opt_overrides("myplugin", &so),
        vec![(s("speed"), s("2")), (s(""), s("empty key"))]
    );
}

#[test]
fn script_opts_take_precedence_over_the_file() {
    let file = "speed=1\nmode=fast\nspeed=4\n";
    let so = vec![(s("p-mode"), Node::String(s("slow"))), (s("p-extra"), Node::String(s("yes")))];
    let m = collect_options("p", Some(file), &so);
    assert_eq!(lookup(&m, "speed"), Some(s("4")));
    assert_eq!(lookup(&m, "mode"), Some(s("slow")));
    assert_eq!(lookup(&m, "extra"), Some(s("yes")));
    assert_eq!(m.len(), 3);
    let without_file = collect_options("p", None, &so);
    assert_eq!(without_file, vec![(s("mode"), s("slow")), (s("extra"), s("yes"))]);
}

#[test]
fn options_file_is_named_after_the_plugin() {
    assert_eq!(options_file_name("sponsorblock"), "sponsorblock.conf");
}
