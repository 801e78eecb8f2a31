use haproxy_config::config::Password as OwnedPassword;
use haproxy_config::sections::lines::borrowed;
use haproxy_config::sections::lines::owned;
use haproxy_config::sections::lines::BackendModifier;

fn baddr(host: &str, port: Option<u16>, wildcard: bool) -> borrowed::Address<'_> {
    borrowed::Address { host, port, wildcard }
}

#[test]
fn roundtrip_blank_and_comment() {
    assert!(matches!(owned::Line::from(&borrowed::Line::Blank), owned::Line::Blank));
    match owned::Line::from(&borrowed::Line::Comment(" note ")) {
        owned::Line::Comment(s) => assert_eq!(s, " note "),
        _ => panic!("expected Comment"),
    }
}

#[test]
fn roundtrip_config() {
    let l = borrowed::Line::Config { key: "maxconn", value: Some("256"), comment: Some("c") };
    match owned::Line::from(&l) {
        owned::Line::Config { key, value, comment } => {
            assert_eq!(key, "maxconn");
            assert_eq!(value, Some(String::from("256")));
            assert_eq!(comment, Some(String::from("c")));
        }
        _ => panic!("expected Config"),
    }
}

#[test]
fn roundtrip_option() {
    let l = borrowed::Line::Option { keyword: "httplog", value: None, comment: None };
    match owned::Line::from(&l) {
        owned::Line::Option { keyword, value, comment } => {
            assert_eq!(keyword, "httplog");
            assert_eq!(value, None);
            assert_eq!(comment, None);
        }
        _ => panic!("expected Option"),
    }
}

#[test]
fn roundtrip_acl() {
    let l = borrowed::Line::Acl { name: "is_api", rule: Some("path_beg /api"), comment: None };
    match owned::Line::from(&l) {
        owned::Line::Acl { name, rule, comment } => {
            assert_eq!(name, "is_api");
            assert_eq!(rule, Some(String::from("path_beg /api")));
            assert_eq!(comment, None);
        }
        _ => panic!("expected Acl"),
    }
}

#[test]
fn roundtrip_server() {
    let l = borrowed::Line::Server {
        name: "s1",
        addr: baddr("10.0.0.1", Some(3000), false),
        option: Some("check"),
        comment: None,
    };
    match owned::Line::from(&l) {
        owned::Line::Server { name, addr, option, comment } => {
            assert_eq!(name, "s1");
            assert_eq!(addr.host, "10.0.0.1");
            assert_eq!(addr.port, Some(3000));
            assert!(!addr.wildcard);
            assert_eq!(option, Some(String::from("check")));
            assert_eq!(comment, None);
        }
        _ => panic!("expected Server"),
    }
}

#[test]
fn roundtrip_bind() {
    let l = borrowed::Line::Bind {
        addr: baddr("*", None, true),
        value: Some("ssl crt /etc/cert.pem"),
        comment: Some("tls"),
    };
    match owned::Line::from(&l) {
        owned::Line::Bind { addr, value, comment } => {
            assert_eq!(addr.host, "*");
            assert_eq!(addr.port, None);
            assert!(addr.wildcard);
            assert_eq!(value, Some(String::from("ssl crt /etc/cert.pem")));
            assert_eq!(comment, Some(String::from("tls")));
        }
        _ => panic!("expected Bind"),
    }
}

#[test]
fn roundtrip_backend_reference() {
    let l = borrowed::Line::Backend {
        name: "api",
        modifier: Some(BackendModifier::If),
        condition: Some("is_api"),
        comment: None,
    };
    match owned::Line::from(&l) {
        owned::Line::Backend { name, modifier, condition, comment } => {
            assert_eq!(name, "api");
            assert_eq!(modifier, Some(BackendModifier::If));
            assert_eq!(condition, Some(String::from("is_api")));
            assert_eq!(comment, None);
        }
        _ => panic!("expected Backend"),
    }
}

#[test]
fn roundtrip_group_keeps_member_order() {
    let l = borrowed::Line::Group { name: "ops", users: vec!["alice", "bob"], comment: None };
    match owned::Line::from(&l) {
        owned::Line::Group { name, users, comment } => {
            assert_eq!(name, "ops");
            assert_eq!(users, vec![String::from("alice"), String::from("bob")]);
            assert_eq!(comment, None);
        }
        _ => panic!("expected Group"),
    }
}

#[test]
fn roundtrip_user_with_password_and_groups() {
    let l = borrowed::Line::User {
        name: "alice",
        password: borrowed::Password::Hashed("$6$example$hash"),
        groups: vec!["ops"],
        comment: None,
    };
    match owned::Line::from(&l) {
        owned::Line::User { name, password, groups, comment } => {
            assert_eq!(name, "alice");
            match password {
                OwnedPassword::Hashed(h) => assert_eq!(h, "$6$example$hash"),
                _ => panic!("expected hashed password"),
            }
            assert_eq!(groups, vec![String::from("ops")]);
            assert_eq!(comment, None);
        }
        _ => panic!("expected User"),
    }
}

#[test]
fn roundtrip_plain_password() {
    let l = borrowed::Line::User {
        name: "bob",
        password: borrowed::Password::Plain("hunter2"),
        groups: vec![],
        comment: None,
    };
    match owned::Line::from(&l) {
        owned::Line::User { password: OwnedPassword::Plain(p), .. } => assert_eq!(p, "hunter2"),
        _ => panic!("expected plain password"),
    }
}

#[test]
fn roundtrip_sys_user() {
    let l = borrowed::Line::SysUser { name: "haproxy" };
    match owned::Line::from(&l) {
        owned::Line::SysUser { name } => assert_eq!(name, "haproxy"),
        _ => panic!("expected SysUser"),
    }
}
