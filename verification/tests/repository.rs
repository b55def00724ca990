use repoctl::get_section_name;
use repoctl::line_trim;
use repoctl::merge_repo;
use repoctl::parse_string;
use repoctl::MyError;
use repoctl::Repo;
use url::Url;

#[test]
fn test_repo_new() {
    let r = Repo::new();
    assert_eq!(r.name, String::new());
    assert_eq!(r.url, None);
    assert!(r.enabled);
}

#[test]
fn test_line_trim() {
    assert_eq!("asdf", line_trim(" asdf #asdf "));
    assert_eq!("", line_trim(" # asdf # ##  "));
    assert_eq!("asdf:asdf", line_trim("asdf : asdf#asdfasdf "));
    assert_eq!("asdf:asdf", line_trim("asdf :	asdf#asdfasdf "));
}

#[test]
fn test_get_section_name() {
    let desc1 = "FreeBSD : { enabled: yes }";
    let rc1 = get_section_name(line_trim(desc1).as_ref());
    assert_eq!(rc1, Some(String::from("FreeBSD")));
}

#[test]
fn test_parse_string() {
    let ft: Repo = Repo {
        name: "FreeBSD".to_string(),
        url: None,
        enabled: true,
    };
    let fut: Repo = Repo {
        name: "FreeBSD".to_string(),
        url: Some(String::from(Url::parse("http://pkg.bsd").unwrap())),
        enabled: true,
    };
    let ff: Repo = Repo {
        name: "FreeBSD".to_string(),
        url: None,
        enabled: true,
    };
    let fuf: Repo = Repo {
        name: "FreeBSD".to_string(),
        url: Some(String::from(Url::parse("http://pkg.bsd").unwrap())),
        enabled: true,
    };
    let fuf2: Repo = Repo {
        name: "FreeBSD".to_string(),
        url: Some(String::from(Url::parse("http://pkg.bsd").unwrap())),
        enabled: false,
    };
    assert_eq!(Err(MyError::NameError), parse_string("".to_string()));
    assert_eq!(Ok(ff), parse_string("FreeBSD:{}".to_string()));
    assert_eq!(Ok(ft), parse_string("FreeBSD:{enabled:yes}".to_string()));
    assert_eq!(
        Ok(fut),
        parse_string("FreeBSD:{enabled:yes,url:\"http://pkg.bsd\"}".to_string())
    );
    assert_eq!(
        fuf,
        parse_string("FreeBSD:{url:\"http://pkg.bsd\"}".to_string()).unwrap_or(Repo::new())
    );
    assert_eq!(
        fuf2,
        parse_string("#\nFreeBSD:{\nenabled:NO,url:\"http://pkg.bsd\"}".to_string())
            .unwrap_or(Repo::new())
    );
}

#[test]
fn test_from_1() {
    let ft: Repo = Repo {
        name: "FreeBSD".to_string(),
        url: None,
        enabled: true,
    };
    let fut: Repo = Repo {
        name: "FreeBSD".to_string(),
        url: Some(String::from(Url::parse("http://pkg.bsd").unwrap())),
        enabled: true,
    };
    let ff: Repo = Repo {
        name: "FreeBSD".to_string(),
        url: None,
        enabled: true,
    };
    let fuf: Repo = Repo {
        name: "FreeBSD".to_string(),
        url: Some(String::from(Url::parse("http://pkg.bsd").unwrap())),
        enabled: false,
    };
    let fuf2: Repo = Repo {
        name: "FreeBSD".to_string(),
        url: Some(String::from(Url::parse("http://pkg.bsd").unwrap())),
        enabled: false,
    };
    assert_eq!(Repo::new(), Repo::from(String::new()));
    assert_eq!(ff, Repo::from("FreeBSD:{}".to_string()));
    assert_eq!(ft, Repo::from("FreeBSD:{enabled:yes}".to_string()));
    assert_eq!(
        fut,
        Repo::from("FreeBSD:{enabled:yes,url:\"http://pkg.bsd\"}".to_string())
    );
    assert_eq!(
        fuf,
        Repo::from("FreeBSD:{enabled:false,url:\"http://pkg.bsd\"}".to_string())
    );
    assert_eq!(
        fuf2,
        Repo::from("#\nFreeBSD:{\nenabled:no,url:\"http://pkg.bsd\"}".to_string())
    );
}

#[test]
fn test_merge_repo_1() {
    let mut repos: Vec<Repo> = Vec::new();
    let fb = "FreeBSD".to_string();
    let u = Some("http://10.1.3.69/103x64/libressl".to_string());
    let u2 = Some("http://10.1.3.69/103x64/default".to_string());
    merge_repo(
        &mut repos,
        Repo {
            name: fb.clone(),
            url: u.clone(),
            enabled: true,
        },
    );
    assert_eq!(
        repos[0],
        Repo {
            name: fb.clone(),
            url: u.clone(),
            enabled: true,
        }
    );

    merge_repo(
        &mut repos,
        Repo {
            name: fb.clone(),
            url: u2.clone(),
            enabled: false,
        },
    );
    assert_eq!(
        repos[0],
        Repo {
            name: fb.clone(),
            url: u2.clone(),
            enabled: false,
        }
    );

    merge_repo(
        &mut repos,
        Repo {
            name: "drmnext".to_string(),
            url: u.clone(),
            enabled: true,
        },
    );
    assert_eq!(
        repos[0],
        Repo {
            name: fb.clone(),
            url: u2.clone(),
            enabled: false,
        }
    );
    assert_eq!(
        repos[1],
        Repo {
            name: "drmnext".to_string(),
            url: u.clone(),
            enabled: true,
        }
    );

    merge_repo(
        &mut repos,
        Repo {
            name: "drmnext".to_string(),
            url: None,
            enabled: false,
        },
    );
    assert_eq!(
        repos[0],
        Repo {
            name: fb.clone(),
            url: u2.clone(),
            enabled: false,
        }
    );
    assert_eq!(
        repos[1],
        Repo {
            name: "drmnext".to_string(),
            url: u.clone(),
            enabled: false,
        }
    );
}
