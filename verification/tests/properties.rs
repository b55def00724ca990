use repoctl::coerce_bool;
use repoctl::multi_parse_lines;
use repoctl::parse_string;
use repoctl::pkg_info;
use repoctl::MyError;
use repoctl::Repo;
use url::Url;

#[test]
fn single_block_yields_named_enabled_record() {
    let r = parse_string("pkgsrc:{enabled:yes}".to_string()).unwrap();
    assert_eq!(r.name, "pkgsrc");
    assert!(r.enabled);
    assert_eq!(r.url, None);
}

#[test]
fn quoted_url_is_parsed_and_normalized() {
    let r = parse_string("A:{url:\"HTTP://EXAMPLE.COM\"}".to_string()).unwrap();
    assert_eq!(
        r.url,
        Some(String::from(Url::parse("HTTP://EXAMPLE.COM").unwrap()))
    );
    assert_eq!(r.url, Some("http://example.com/".to_string()));
}

#[test]
fn invalid_url_fails_the_whole_block() {
    assert_eq!(
        Err(MyError::URLError),
        parse_string("A:{url:\"notaurl\"}".to_string())
    );
    assert_eq!(
        Err(MyError::URLError),
        parse_string("A:{enabled:yes,url:\"notaurl\"}".to_string())
    );
}

#[test]
fn coercion_is_total() {
    assert!(coerce_bool("yes"));
    assert!(coerce_bool("true"));
    assert!(coerce_bool("yesterday"));
    assert!(!coerce_bool(""));
    assert!(!coerce_bool("no"));
    assert!(!coerce_bool("false"));
    assert!(!coerce_bool("garbage"));
    assert!(!coerce_bool("y"));
}

#[test]
fn coercion_is_case_insensitive() {
    assert!(coerce_bool("YES"));
    assert!(coerce_bool("Yes"));
    assert!(coerce_bool("TRUE"));
    assert!(coerce_bool("True"));
    assert_eq!(
        true,
        parse_string("A:{enabled:YES}".to_string()).unwrap().enabled
    );
    assert_eq!(
        true,
        parse_string("A:{enabled:Yes}".to_string()).unwrap().enabled
    );
    assert_eq!(
        true,
        parse_string("A:{enabled:true}".to_string()).unwrap().enabled
    );
    assert_eq!(
        false,
        parse_string("A:{enabled:no}".to_string()).unwrap().enabled
    );
    assert_eq!(
        false,
        parse_string("A:{enabled:}".to_string()).unwrap().enabled
    );
    // An absent `enabled` key keeps the default, which is `true`.
    assert_eq!(true, parse_string("A:{}".to_string()).unwrap().enabled);
}

#[test]
fn garbage_input_yields_no_records() {
    assert_eq!(0, multi_parse_lines(&vec!["".to_string()]).len());
    assert_eq!(0, multi_parse_lines(&vec!["notablock".to_string()]).len());
    assert_eq!(0, multi_parse_lines(&vec!["name {".to_string()]).len());
    assert_eq!(
        0,
        multi_parse_lines(&vec!["name {".to_string(), "enabled: yes".to_string()]).len()
    );
}

#[test]
fn two_sequential_blocks_yield_two_records() {
    let lines = vec![
        "A:{enabled:yes}".to_string(),
        "B:{enabled:no,url:\"http://b\"}".to_string(),
    ];
    let repos = multi_parse_lines(&lines);
    assert_eq!(2, repos.len());
    assert_eq!(
        repos[0],
        Repo {
            name: "A".to_string(),
            url: None,
            enabled: true,
        }
    );
    assert_eq!(
        repos[1],
        Repo {
            name: "B".to_string(),
            url: Some(String::from(Url::parse("http://b").unwrap())),
            enabled: false,
        }
    );
}

#[test]
fn block_spanning_lines_and_comments() {
    let lines = vec![
        "# repository list".to_string(),
        "FreeBSD : {".to_string(),
        "    enabled: yes, # flag".to_string(),
        "    url: \"http://pkg.bsd\"".to_string(),
        "}".to_string(),
    ];
    let repos = multi_parse_lines(&lines);
    assert_eq!(1, repos.len());
    assert_eq!(
        repos[0],
        Repo {
            name: "FreeBSD".to_string(),
            url: Some(String::from(Url::parse("http://pkg.bsd").unwrap())),
            enabled: true,
        }
    );
}

#[test]
fn malformed_balanced_block_does_not_poison_the_next() {
    let lines = vec!["}{".to_string(), "B:{enabled:yes}".to_string()];
    let repos = multi_parse_lines(&lines);
    assert_eq!(1, repos.len());
    assert_eq!(repos[0].name, "B");
}

#[test]
fn repeated_names_merge_in_one_file() {
    let lines = vec![
        "A:{enabled:yes,url:\"http://x\"}".to_string(),
        "A:{enabled:no}".to_string(),
    ];
    let repos = multi_parse_lines(&lines);
    assert_eq!(1, repos.len());
    assert_eq!(
        repos[0],
        Repo {
            name: "A".to_string(),
            url: Some(String::from(Url::parse("http://x").unwrap())),
            enabled: false,
        }
    );
}

#[test]
fn parse_errors_name_the_failure() {
    assert_eq!(
        Err(MyError::NameError),
        parse_string("notablock".to_string())
    );
    assert_eq!(Err(MyError::NameError), parse_string(":{}".to_string()));
    assert_eq!(
        Err(MyError::NameError),
        parse_string("{enabled:yes}".to_string())
    );
    assert_eq!(
        Err(MyError::SyntaxError),
        parse_string("A:{enabled:yes".to_string())
    );
    assert_eq!(Err(MyError::SyntaxError), parse_string("A:x{}".to_string()));
    assert_eq!(
        Err(MyError::SyntaxError),
        parse_string("A:{junk}".to_string())
    );
    assert_eq!(
        Err(MyError::SyntaxError),
        parse_string("A:{a:{b:c}}".to_string())
    );
    assert_eq!(
        Err(MyError::SyntaxError),
        parse_string("A:{url:\"unclosed}".to_string())
    );
}

#[test]
fn unknown_keys_are_ignored() {
    let r = parse_string("A:{priority:10,enabled:yes,mirror_type:srv}".to_string()).unwrap();
    assert_eq!(r.name, "A");
    assert!(r.enabled);
    assert_eq!(r.url, None);
}

#[test]
fn later_entry_wins_within_one_block() {
    let r = parse_string("A:{enabled:yes,enabled:no}".to_string()).unwrap();
    assert!(!r.enabled);
}

#[test]
fn render_shows_flag_and_url() {
    let plain = Repo {
        name: "A".to_string(),
        url: None,
        enabled: true,
    };
    assert_eq!("A [enabled:true]", plain.render());
    let with_url = Repo {
        name: "B".to_string(),
        url: Some("http://b/".to_string()),
        enabled: false,
    };
    assert_eq!("B [enabled:falseurl:http://b/]", with_url.render());
}

#[test]
fn pkg_info_reports_the_banner_only_when_opened() {
    assert_eq!("pkg list", pkg_info(true));
    assert_eq!("", pkg_info(false));
}
