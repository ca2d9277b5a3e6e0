use felidae::domain::Domain;
use felidae::domain::Fqdn;
use felidae::domain::FqdnError;
use felidae::domain::PrefixOrderDomain;
use felidae::domain::Zone;

#[test]
fn test_domain_display_and_parse() {
    let domain_str = "sub.example.com.";
    let fqdn = Fqdn::from_ascii_str(domain_str).unwrap();
    let domain = Domain { name: fqdn.clone() };
    assert_eq!(domain.to_string(), domain_str);
}

#[test]
fn test_prefix_order_domain_display_and_parse() {
    let domain_str = ".com.example.sub";
    let prefix_order_domain = PrefixOrderDomain::from_str(domain_str).unwrap();
    assert_eq!(prefix_order_domain.to_string(), ".com.example.sub");
    assert_eq!(
        prefix_order_domain.name,
        Fqdn::from_ascii_str("sub.example.com.").unwrap()
    );
}

#[test]
fn domain_parse() {
    let domain_str = "com.";
    let domain: Fqdn = Fqdn::from_ascii_str(domain_str).unwrap();
    assert_eq!(domain.to_string(), domain_str);
}

#[test]
fn the_root_has_no_labels() {
    let root = Fqdn::from_ascii_str(".").unwrap();
    assert!(root.labels().is_empty());
    assert_eq!(root.to_string(), ".");
    let prefix = PrefixOrderDomain { name: root };
    assert_eq!(prefix.to_string(), ".");
}

#[test]
fn names_are_in_lower_case() {
    let name = Fqdn::from_ascii_str("ExAmPlE.COM.").unwrap();
    assert_eq!(name.to_string(), "example.com.");
    assert_eq!(name, Fqdn::from_ascii_str("example.com.").unwrap());
    assert_eq!(name.labels(), &vec!["example".to_string(), "com".to_string()]);
    let again = Fqdn::from_ascii_str(name.to_string().as_str()).unwrap();
    assert_eq!(again, name);
}

#[test]
fn names_that_are_refused() {
    assert_eq!(Fqdn::from_ascii_str(""), Err(FqdnError::TrailingDotMissing));
    assert_eq!(
        Fqdn::from_ascii_str("example.com"),
        Err(FqdnError::TrailingDotMissing)
    );
    assert_eq!(
        Fqdn::from_ascii_str("exa mple.com."),
        Err(FqdnError::InvalidLabelChar)
    );
    assert_eq!(Fqdn::from_ascii_str("a..b."), Err(FqdnError::EmptyLabel));
    assert_eq!(Fqdn::from_ascii_str(".a."), Err(FqdnError::EmptyLabel));
    assert_eq!(Fqdn::from_ascii_str(".."), Err(FqdnError::EmptyLabel));
    let long = "a".repeat(256) + ".";
    assert_eq!(
        Fqdn::from_ascii_str(long.as_str()),
        Err(FqdnError::TooLongLabel)
    );
    let fits = "a".repeat(255) + ".";
    assert!(Fqdn::from_ascii_str(fits.as_str()).is_ok());
}

#[test]
fn the_first_label_that_is_wrong_is_the_error() {
    assert_eq!(Fqdn::from_ascii_str("a b..c."), Err(FqdnError::InvalidLabelChar));
    assert_eq!(Fqdn::from_ascii_str("a..b c."), Err(FqdnError::EmptyLabel));
    let long = " ".repeat(256) + ".";
    assert_eq!(
        Fqdn::from_ascii_str(long.as_str()),
        Err(FqdnError::TooLongLabel)
    );
}

#[test]
fn labels_may_hold_hyphens_and_underscores() {
    for name in ["-a.", "a-.", "_dmarc.example.com.", "a#b."] {
        assert_eq!(Fqdn::from_ascii_str(name).unwrap().to_string(), name);
    }
}

#[test]
fn errors_in_words() {
    assert_eq!(
        FqdnError::TrailingDotMissing.message(),
        "the trailing dot of the FQDN string is missing"
    );
    assert_eq!(FqdnError::EmptyLabel.message(), "empty label found in FQDN");
    let spoken = fqdn::FQDN::from_ascii_str("a..b.").unwrap_err().to_string();
    assert_eq!(FqdnError::EmptyLabel.message(), spoken);
    let spoken = fqdn::FQDN::from_ascii_str("a b.").unwrap_err().to_string();
    assert_eq!(FqdnError::InvalidLabelChar.message(), spoken);
    assert_eq!(
        FqdnError::LabelCannotEndWithHyphen.message(),
        fqdn::Error::LabelCannotEndWithHyphen.to_string()
    );
    assert_eq!(
        FqdnError::LabelCannotStartWithHyphen.message(),
        fqdn::Error::LabelCannotStartWithHyphen.to_string()
    );
    assert_eq!(
        FqdnError::TooLongDomainName.message(),
        fqdn::Error::TooLongDomainName.to_string()
    );
    assert_eq!(
        FqdnError::TooLongLabel.message(),
        fqdn::Error::TooLongLabel.to_string()
    );
    assert_eq!(
        FqdnError::InvalidStructure.message(),
        fqdn::Error::InvalidStructure.to_string()
    );
    assert_eq!(
        FqdnError::TrailingNulCharMissing.message(),
        fqdn::Error::TrailingNulCharMissing.to_string()
    );
}

#[test]
fn both_orders_hold_the_same_name() {
    let name = Fqdn::from_ascii_str("a.b.c.").unwrap();
    let domain = Domain::from(name.clone());
    let prefix = PrefixOrderDomain::from(domain.clone());
    assert_eq!(prefix.to_string(), ".c.b.a");
    assert_eq!(PrefixOrderDomain::from_str(".c.b.a").unwrap(), prefix);
    assert_eq!(Domain::from(prefix), domain);
    assert_eq!(Fqdn::from(domain), name);
    let zone = Zone { name: Fqdn::from_ascii_str("c.").unwrap() };
    assert_eq!(zone.to_string(), "c.");
}

#[test]
fn prefix_order_without_a_leading_dot() {
    let prefix = PrefixOrderDomain::from_str("com.example").unwrap();
    assert_eq!(prefix.to_string(), ".com.example");
    let dots = PrefixOrderDomain::from_str("...com.example").unwrap();
    assert_eq!(dots, prefix);
    assert_eq!(
        PrefixOrderDomain::from_str("com..example"),
        Err(FqdnError::EmptyLabel)
    );
}

#[test]
fn names_compare_as_dns_sends_them() {
    let names = ["b.", "aa.", "a.", "a.b.", ".", "ab.c.", "a.bb.", "zz.a."];
    let mut ours: Vec<Fqdn> = names.iter().map(|n| Fqdn::from_ascii_str(n).unwrap()).collect();
    let mut theirs: Vec<fqdn::FQDN> =
        names.iter().map(|n| fqdn::FQDN::from_ascii_str(n).unwrap()).collect();
    ours.sort();
    theirs.sort();
    let ours: Vec<String> = ours.iter().map(|n| n.to_string()).collect();
    let theirs: Vec<String> = theirs.iter().map(|n| n.to_string()).collect();
    assert_eq!(ours, theirs);
    assert_eq!(ours[0], ".");
    let short = Domain { name: Fqdn::from_ascii_str("z.").unwrap() };
    let long = Domain { name: Fqdn::from_ascii_str("aa.").unwrap() };
    assert!(short < long);
    assert!(short.name.partial_cmp(&long.name) == Some(std::cmp::Ordering::Less));
}
