use haproxy_config::config::backend::Backend;
use haproxy_config::config::frontend::Frontend;
use haproxy_config::config::global::Global;
use haproxy_config::config::{Config, Error};
use haproxy_config::sections::lines::borrowed::{Address, Line};
use haproxy_config::sections::Section;

fn addr(host: &str, port: u16) -> Address<'_> {
    Address { host, port: Some(port), wildcard: false }
}

fn cfg_line<'a>(key: &'a str, value: Option<&'a str>) -> Line<'a> {
    Line::Config { key, value, comment: None }
}

#[test]
fn global_collects_config_with_last_value_winning() {
    let sections = vec![Section::Global {
        lines: vec![
            Line::Blank,
            cfg_line("maxconn", Some("100")),
            cfg_line("daemon", None),
            cfg_line("maxconn", Some("256")),
        ],
    }];
    let g = Global::try_from(&sections).unwrap();
    assert_eq!(g.config.len(), 2);
    assert_eq!(g.config.get("maxconn"), Some(&Some(String::from("256"))));
    assert_eq!(g.config.get("daemon"), Some(&None));
    assert_eq!(g.user, None);
    assert_eq!(g.group, None);
}

#[test]
fn global_missing_fails() {
    let sections = vec![Section::Backend { proxy: "api", lines: vec![] }];
    assert!(matches!(Global::try_from(&sections), Err(Error::MissingGlobal)));
}

#[test]
fn global_multiple_fails_naming_all_entries() {
    let sections = vec![
        Section::Global { lines: vec![] },
        Section::Frontend { proxy: "web", lines: vec![], header_addr: None },
        Section::Global { lines: vec![cfg_line("daemon", None)] },
    ];
    match Global::try_from(&sections) {
        Err(Error::MultipleGlobalEntries(entries)) => {
            assert_eq!(entries.len(), 2);
            assert!(matches!(entries[0], Section::Global { .. }));
            assert!(matches!(entries[1], Section::Global { .. }));
        }
        _ => panic!("expected MultipleGlobalEntries"),
    }
}

#[test]
fn global_reports_every_wrong_line() {
    let sections = vec![Section::Global {
        lines: vec![
            cfg_line("daemon", None),
            Line::Bind { addr: addr("h", 1), value: None, comment: None },
            Line::Acl { name: "a", rule: Some("r"), comment: None },
        ],
    }];
    match Global::try_from(&sections) {
        Err(Error::WrongGlobalLines(lines)) => {
            assert_eq!(lines.len(), 2);
            assert!(matches!(lines[0], Line::Bind { .. }));
            assert!(matches!(lines[1], Line::Acl { .. }));
        }
        _ => panic!("expected WrongGlobalLines"),
    }
}

#[test]
fn global_extracts_single_sys_user() {
    let sections = vec![Section::Global {
        lines: vec![Line::SysUser { name: "haproxy" }, cfg_line("daemon", None)],
    }];
    let g = Global::try_from(&sections).unwrap();
    assert_eq!(g.user, Some(String::from("haproxy")));
}

#[test]
fn global_two_sys_users_fail() {
    let sections = vec![Section::Global {
        lines: vec![Line::SysUser { name: "a" }, Line::SysUser { name: "b" }],
    }];
    match Global::try_from(&sections) {
        Err(Error::MultipleSysUsers(lines)) => assert_eq!(lines.len(), 2),
        _ => panic!("expected MultipleSysUsers"),
    }
}

#[test]
fn global_two_groups_fail() {
    let sections = vec![Section::Global {
        lines: vec![
            Line::Group { name: "a", users: vec![], comment: None },
            Line::Group { name: "b", users: vec![], comment: None },
        ],
    }];
    match Global::try_from(&sections) {
        Err(Error::MultipleSysGroups(lines)) => assert_eq!(lines.len(), 2),
        _ => panic!("expected MultipleSysGroups"),
    }
}

#[test]
fn global_group_with_members_fails() {
    let sections = vec![Section::Global {
        lines: vec![Line::Group { name: "staff", users: vec!["alice"], comment: None }],
    }];
    assert!(matches!(
        Global::try_from(&sections),
        Err(Error::SysGroupHasUsers(Line::Group { name: "staff", .. }))
    ));
}

#[test]
fn global_group_without_members_succeeds() {
    let sections = vec![Section::Global {
        lines: vec![Line::Group { name: "staff", users: vec![], comment: None }],
    }];
    let g = Global::try_from(&sections).unwrap();
    assert_eq!(g.group, Some(String::from("staff")));
}

#[test]
fn frontend_header_bind_resolves() {
    let section = Section::Frontend {
        proxy: "web",
        lines: vec![cfg_line("mode", Some("http"))],
        header_addr: Some((addr("0.0.0.0", 8080), Some("ssl"))),
    };
    let f = Frontend::try_from(&section).unwrap();
    assert_eq!(f.name, "web");
    assert_eq!(f.bind.addr.host, "0.0.0.0");
    assert_eq!(f.bind.addr.port, Some(8080));
    assert_eq!(f.bind.config, Some(String::from("ssl")));
}

#[test]
fn frontend_body_bind_resolves() {
    let section = Section::Frontend {
        proxy: "web",
        lines: vec![Line::Bind { addr: addr("127.0.0.1", 80), value: None, comment: None }],
        header_addr: None,
    };
    let f = Frontend::try_from(&section).unwrap();
    assert_eq!(f.bind.addr.host, "127.0.0.1");
    assert_eq!(f.bind.addr.port, Some(80));
    assert_eq!(f.bind.config, None);
}

#[test]
fn frontend_header_and_body_bind_fails() {
    let section = Section::Frontend {
        proxy: "web",
        lines: vec![Line::Bind { addr: addr("127.0.0.1", 80), value: None, comment: None }],
        header_addr: Some((addr("0.0.0.0", 8080), None)),
    };
    assert!(matches!(Frontend::try_from(&section), Err(Error::HeaderAndBindLine)));
}

#[test]
fn frontend_no_bind_fails() {
    let section = Section::Frontend { proxy: "web", lines: vec![], header_addr: None };
    assert!(matches!(Frontend::try_from(&section), Err(Error::NoBind)));
}

#[test]
fn frontend_two_body_binds_fail() {
    let section = Section::Frontend {
        proxy: "web",
        lines: vec![
            Line::Bind { addr: addr("a", 1), value: None, comment: None },
            Line::Bind { addr: addr("b", 2), value: None, comment: None },
        ],
        header_addr: None,
    };
    match Frontend::try_from(&section) {
        Err(Error::MoreThenOneBind(lines)) => assert_eq!(lines.len(), 2),
        _ => panic!("expected MoreThenOneBind"),
    }
}

#[test]
fn frontend_acl_without_rule_fails() {
    let section = Section::Frontend {
        proxy: "web",
        lines: vec![Line::Acl { name: "is_api", rule: None, comment: None }],
        header_addr: Some((addr("0.0.0.0", 80), None)),
    };
    assert!(matches!(Frontend::try_from(&section), Err(Error::AclWithoutRule("is_api"))));
}

#[test]
fn frontend_reports_every_wrong_line() {
    let section = Section::Frontend {
        proxy: "web",
        lines: vec![
            Line::SysUser { name: "u" },
            Line::Server { name: "s", addr: addr("h", 1), option: None, comment: None },
        ],
        header_addr: Some((addr("0.0.0.0", 80), None)),
    };
    match Frontend::try_from(&section) {
        Err(Error::WrongFrontendLines(lines)) => {
            assert_eq!(lines.len(), 2);
            assert!(matches!(lines[0], Line::SysUser { .. }));
            assert!(matches!(lines[1], Line::Server { .. }));
        }
        _ => panic!("expected WrongFrontendLines"),
    }
}

#[test]
fn frontend_buckets_and_deduplicates_acls() {
    let section = Section::Frontend {
        proxy: "web",
        lines: vec![
            Line::Comment("routing"),
            cfg_line("mode", Some("http")),
            Line::Option { keyword: "httplog", value: None, comment: None },
            Line::Acl { name: "is_api", rule: Some("path_beg /api"), comment: None },
            Line::Acl { name: "is_api", rule: Some("path_beg /api"), comment: None },
            Line::Backend { name: "api", modifier: None, condition: Some("is_api"), comment: None },
            Line::Backend { name: "web", modifier: None, condition: None, comment: None },
        ],
        header_addr: Some((addr("0.0.0.0", 80), None)),
    };
    let f = Frontend::try_from(&section).unwrap();
    assert_eq!(f.config.get("mode"), Some(&Some(String::from("http"))));
    assert_eq!(f.options.get("httplog"), Some(&None));
    assert_eq!(f.acls.len(), 1);
    assert_eq!(f.acls[0].name, "is_api");
    assert_eq!(f.acls[0].rule, "path_beg /api");
    assert_eq!(f.backends.len(), 2);
    assert_eq!(f.backends[0].name, "api");
    assert_eq!(f.backends[1].name, "web");
}

#[test]
fn backend_keeps_duplicate_server_names_in_order() {
    let section = Section::Backend {
        proxy: "api",
        lines: vec![
            Line::Server { name: "s1", addr: addr("10.0.0.1", 3000), option: None, comment: None },
            Line::Server { name: "s1", addr: addr("10.0.0.2", 3000), option: None, comment: None },
        ],
    };
    let b = Backend::try_from(&section).unwrap();
    assert_eq!(b.servers.len(), 2);
    assert_eq!(b.servers[0].name, "s1");
    assert_eq!(b.servers[0].addr.host, "10.0.0.1");
    assert_eq!(b.servers[1].name, "s1");
    assert_eq!(b.servers[1].addr.host, "10.0.0.2");
}

#[test]
fn backend_acl_without_rule_fails() {
    let section = Section::Backend {
        proxy: "api",
        lines: vec![Line::Acl { name: "is_api", rule: None, comment: None }],
    };
    assert!(matches!(Backend::try_from(&section), Err(Error::AclWithoutRule("is_api"))));
}

#[test]
fn backend_reports_every_wrong_line() {
    let section = Section::Backend {
        proxy: "api",
        lines: vec![
            Line::Bind { addr: addr("h", 1), value: None, comment: None },
            Line::Group { name: "g", users: vec![], comment: None },
        ],
    };
    match Backend::try_from(&section) {
        Err(Error::WrongBackendLines(lines)) => assert_eq!(lines.len(), 2),
        _ => panic!("expected WrongBackendLines"),
    }
}

#[test]
fn parse_multiple_preserves_order_and_skips_other_kinds() {
    let sections = vec![
        Section::Global { lines: vec![] },
        Section::Backend { proxy: "one", lines: vec![] },
        Section::Frontend { proxy: "web", lines: vec![], header_addr: None },
        Section::Backend { proxy: "two", lines: vec![] },
    ];
    let backends = Backend::parse_multiple(&sections).unwrap();
    assert_eq!(backends.len(), 2);
    assert_eq!(backends[0].name, "one");
    assert_eq!(backends[1].name, "two");
}

#[test]
fn parse_multiple_returns_first_failure() {
    let sections = vec![
        Section::Backend { proxy: "one", lines: vec![] },
        Section::Backend {
            proxy: "two",
            lines: vec![Line::Acl { name: "bad", rule: None, comment: None }],
        },
    ];
    assert!(matches!(Backend::parse_multiple(&sections), Err(Error::AclWithoutRule("bad"))));
}

fn sample_sections() -> Vec<Section<'static>> {
    vec![
        Section::Global {
            lines: vec![cfg_line("maxconn", Some("256")), Line::SysUser { name: "haproxy" }],
        },
        Section::Frontend {
            proxy: "web",
            lines: vec![Line::Backend { name: "api", modifier: None, condition: None, comment: None }],
            header_addr: Some((addr("0.0.0.0", 80), None)),
        },
        Section::Backend {
            proxy: "api",
            lines: vec![Line::Server {
                name: "s1",
                addr: addr("10.0.0.1", 3000),
                option: None,
                comment: None,
            }],
        },
    ]
}

#[test]
fn config_assembles_all_sections() {
    let sections = sample_sections();
    let c = Config::try_from(&sections).unwrap();
    assert_eq!(c.global.user, Some(String::from("haproxy")));
    assert_eq!(c.frontends.frontends.len(), 1);
    assert_eq!(c.frontends.frontends[0].name, "web");
    assert_eq!(c.backends.backends.len(), 1);
    assert_eq!(c.backends.backends[0].name, "api");
}

#[test]
fn config_fails_fast_on_global_error() {
    let sections = vec![Section::Frontend {
        proxy: "web",
        lines: vec![],
        header_addr: Some((addr("0.0.0.0", 80), None)),
    }];
    assert!(matches!(Config::try_from(&sections), Err(Error::MissingGlobal)));
}

#[test]
fn config_rebuild_yields_equal_result() {
    let sections = sample_sections();
    let c1 = Config::try_from(&sections).unwrap();
    let c2 = Config::try_from(&sections).unwrap();
    assert_eq!(c1.global.user, c2.global.user);
    assert_eq!(c1.global.group, c2.global.group);
    assert_eq!(c1.global.config.len(), c2.global.config.len());
    assert_eq!(c1.global.config.get("maxconn"), c2.global.config.get("maxconn"));
    assert_eq!(c1.frontends.frontends.len(), c2.frontends.frontends.len());
    assert_eq!(c1.frontends.frontends[0].name, c2.frontends.frontends[0].name);
    assert_eq!(c1.frontends.frontends[0].bind.addr.host, c2.frontends.frontends[0].bind.addr.host);
    assert_eq!(c1.backends.backends.len(), c2.backends.backends.len());
    assert_eq!(c1.backends.backends[0].name, c2.backends.backends[0].name);
    assert_eq!(
        c1.backends.backends[0].servers[0].addr.host,
        c2.backends.backends[0].servers[0].addr.host
    );
}
