use soketto::access_control::{AllowList as DomainList, Policy as DomainPolicy};
use soketto::domain::DomainCheck;
use soketto::handshake::access_control::{AllowAny, AllowList, Policy};

#[test]
fn allow_any() {
    let policy = AllowAny;

    assert_eq!(true, policy.is_allowed(b"foobar"));
    assert_eq!(true, policy.is_allowed(b"localhost"));
}

#[test]
fn allow_list() {
    let policy = AllowList::new(vec!["localhost".to_string(), "127.0.0.1".to_string()]);

    assert_eq!(true, policy.is_allowed(b"localhost"));
    assert_eq!(true, policy.is_allowed(b"127.0.0.1"));
    assert_eq!(false, policy.is_allowed(b"foobar"));
}

#[test]
fn domain_allow_list_is_exact() {
    let policy = DomainList::new(vec!["example.com".to_string()]);
    assert!(policy.is_allowed(b"example.com"));
    assert!(!policy.is_allowed(b"example.co"));
    assert!(!policy.is_allowed(b"example.com."));
}

#[test]
fn domain_check_variants() {
    let any = DomainCheck::default();
    assert!(any.is_allowed(b"anything"));
    let allow = DomainCheck::AllowList(vec!["a.org".to_string()]);
    assert!(allow.is_allowed(b"a.org"));
    assert!(!allow.is_allowed(b"b.org"));
    let deny = DomainCheck::DenyList(vec!["a.org".to_string()]);
    assert!(!deny.is_allowed(b"a.org"));
    assert!(deny.is_allowed(b"b.org"));
}
