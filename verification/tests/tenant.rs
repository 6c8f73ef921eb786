use desk::tenant::tenant_from_host;

#[test]
fn kernel_tenant_hint_comes_only_from_a_real_subdomain() {
    assert_eq!(tenant_from_host("acme.frust.test"), Some("acme"));
    assert_eq!(tenant_from_host("beta.frust.test:3000"), Some("beta"));
    for host in ["127.0.0.1:3000", "localhost:3000", "frust.test", ""] {
        assert_eq!(
            tenant_from_host(host),
            None,
            "invented a tenant from {host:?}"
        );
    }
}

#[test]
fn main_tenant_hint_comes_only_from_a_real_subdomain() {
    assert_eq!(tenant_from_host("acme.frust.test"), Some("acme"));
    assert_eq!(tenant_from_host("beta.frust.test:3000"), Some("beta"));
    for host in ["127.0.0.1:3000", "localhost:3000", "frust.test", ""] {
        assert_eq!(
            tenant_from_host(host),
            None,
            "invented a tenant from {host:?}"
        );
    }
}

#[test]
fn white_space_and_the_port_play_no_part() {
    assert_eq!(tenant_from_host(" acme.frust.test :80"), Some("acme"));
    assert_eq!(tenant_from_host("acme.frust.test:8:0"), Some("acme"));
    assert_eq!(tenant_from_host("acme.frust.test:"), tenant_from_host("acme.frust.test"));
}

#[test]
fn what_is_no_address_is_a_name() {
    assert_eq!(tenant_from_host("127.0.0"), Some("127"));
    assert_eq!(tenant_from_host("1.2.3.4.5"), Some("1"));
    assert_eq!(tenant_from_host("256.0.0.1"), Some("256"));
    assert_eq!(tenant_from_host("01.0.0.1"), Some("01"));
    assert_eq!(tenant_from_host("255.255.255.255"), None);
    assert_eq!(tenant_from_host("0.0.0.0"), None);
    assert_eq!(tenant_from_host("[::1]:80"), None);
}

#[test]
fn empty_labels_are_no_tenants() {
    assert_eq!(tenant_from_host(".frust.test"), None);
    assert_eq!(tenant_from_host("a.."), Some("a"));
    assert_eq!(tenant_from_host("..."), None);
    assert_eq!(tenant_from_host("  "), None);
}

#[test]
fn an_address_has_four_octets_without_leading_zeros() {
    for host in ["1.2.3.4", "10.0.200.255", "0.0.0.1"] {
        assert_eq!(tenant_from_host(host), None, "{host}");
    }
    for host in ["1.2.3.04", "1.2.3", "1.2.3.256", "1..2.3", "1.2.3.4000", "1.2.3.+4"] {
        assert_eq!(tenant_from_host(host), Some("1"), "{host}");
    }
}
