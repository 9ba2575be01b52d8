//! Names of objects.

use std::collections::hash_map::DefaultHasher;
use std::hash::{Hash, Hasher};

use pangolin_gateway_controller::transform::naming::{
    dns_label, dns_label_with, hexadecimal, prefixed_label, MAX_DNS_LABEL,
};

#[test]
fn dns_label_lowercases_and_strips() {
    assert_eq!(dns_label("My_Service.foo"), "my-service-foo");
}

#[test]
fn dns_label_trims_dashes() {
    assert_eq!(dns_label("---foo---"), "foo");
}

#[test]
fn dns_label_truncates_with_hash() {
    let long = "a".repeat(120);
    let out = dns_label(&long);
    assert!(out.len() <= MAX_DNS_LABEL);
    assert!(!out.ends_with('-'));
}

#[test]
fn empty_input_falls_back() {
    assert_eq!(dns_label(""), "pangolin");
    assert_eq!(dns_label("---"), "pangolin");
}

#[test]
fn overlong_names_end_in_the_hash_of_the_whole_name() {
    for name in ["b".repeat(64), format!("x{}", "-y".repeat(80)), "ü".repeat(70) + &"z".repeat(90)]
    {
        let mut hasher = DefaultHasher::new();
        name.hash(&mut hasher);
        let suffix = format!("-{:x}", hasher.finish() & 0xffff_ffff);
        let out = dns_label(&name);
        assert!(out.ends_with(&suffix), "{out} should end in {suffix}");
        assert!(out.len() <= MAX_DNS_LABEL);
    }
}

#[test]
fn label_with_a_given_hash() {
    let name = format!("{}-{}", "a".repeat(53), "b".repeat(30));
    // 63 - 9 = 54 characters are kept, and the dash at their end goes.
    assert_eq!(
        dns_label_with(&name, 0xdead_beef),
        format!("{}-deadbeef", "a".repeat(53))
    );
    assert_eq!(dns_label_with("short", 1), "short");
}

#[test]
fn dashes_are_collapsed() {
    assert_eq!(dns_label("a__b..c--d"), "a-b-c-d");
}

#[test]
fn labels_are_stable() {
    for name in ["Foo Bar", "a--b", "x".repeat(200).as_str(), "--", "1-app-router"] {
        let once = dns_label(name);
        assert_eq!(dns_label(&once), once);
    }
}

#[test]
fn prefixes_are_joined_by_a_dash() {
    assert_eq!(prefixed_label("hr", "1-app-router"), "hr-1-app-router");
    assert_eq!(prefixed_label("sp", "hr-X"), "sp-hr-x");
}

#[test]
fn hexadecimal_has_no_leading_zeros() {
    assert_eq!(hexadecimal(0), "0");
    assert_eq!(hexadecimal(0xff), "ff");
    assert_eq!(hexadecimal(0x0012_ab00), "12ab00");
}
