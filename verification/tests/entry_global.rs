use haproxy_config::config::{Error, Global};
use haproxy_config::sections::lines::borrowed::{Address, Line};
use haproxy_config::sections::Section;

#[test]
fn entry_global_builds_config_map() {
    let sections = vec![
        Section::Listen { proxy: "all", lines: vec![] },
        Section::Global {
            lines: vec![
                Line::Blank,
                Line::Config { key: "maxconn", value: Some("100"), comment: None },
                Line::Config { key: "maxconn", value: Some("512"), comment: None },
                Line::Config { key: "daemon", value: None, comment: Some("background") },
            ],
        },
    ];
    let g = Global::try_from(&sections).unwrap();
    assert_eq!(g.config.len(), 2);
    assert_eq!(g.config.get("maxconn"), Some(&Some(String::from("512"))));
    assert_eq!(g.config.get("daemon"), Some(&None));
    assert_eq!(g.config.get("nbproc"), None);
}

#[test]
fn entry_global_missing_fails() {
    let sections: Vec<Section> = vec![Section::Userlist { name: "ops", lines: vec![] }];
    assert!(matches!(Global::try_from(&sections), Err(Error::MissingGlobal)));
}

#[test]
fn entry_global_multiple_fails() {
    let sections = vec![Section::Global { lines: vec![] }, Section::Global { lines: vec![] }];
    match Global::try_from(&sections) {
        Err(Error::MultipleGlobalEntries(entries)) => assert_eq!(entries.len(), 2),
        _ => panic!("expected MultipleGlobalEntries"),
    }
}

#[test]
fn entry_global_rejects_non_config_lines() {
    let sections = vec![Section::Global {
        lines: vec![
            Line::Config { key: "daemon", value: None, comment: None },
            Line::SysUser { name: "haproxy" },
            Line::Bind {
                addr: Address { host: "0.0.0.0", port: Some(80), wildcard: false },
                value: None,
                comment: None,
            },
        ],
    }];
    match Global::try_from(&sections) {
        Err(Error::WrongGlobalLines(lines)) => {
            assert_eq!(lines.len(), 2);
            assert!(matches!(lines[0], Line::SysUser { .. }));
            assert!(matches!(lines[1], Line::Bind { .. }));
        }
        _ => panic!("expected WrongGlobalLines"),
    }
}
