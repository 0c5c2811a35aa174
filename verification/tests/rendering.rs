use envsync::discover::using_interpreter_message;
use envsync::environment::Interpreter;
use envsync::errors::{locked_incompatibility_message, requested_incompatibility_message};
use envsync::name::PackageName;
use envsync::version::{RequiresPython, Version, VersionOp, VersionOrder, VersionSpecifier};

fn ver(parts: &[u64]) -> Version {
    Version { parts: parts.to_vec() }
}

#[test]
fn names_normalize_to_canonical_form() {
    assert_eq!(PackageName::parse("Flask_Login").unwrap().value, "flask-login");
    assert_eq!(PackageName::parse("typing.extensions").unwrap().value, "typing-extensions");
    assert_eq!(PackageName::parse("a--b__c..d").unwrap().value, "a-b-c-d");
    assert_eq!(PackageName::parse("Black").unwrap().value, "black");
}

#[test]
fn malformed_names_are_rejected() {
    assert!(PackageName::parse("").is_err());
    assert!(PackageName::parse("-leading").is_err());
    assert!(PackageName::parse("trailing-").is_err());
    assert!(PackageName::parse("git+https://x/y.git").is_err());
    assert!(PackageName::parse("spa ce").is_err());
}

#[test]
fn equal_names_compare_by_content() {
    let a = PackageName::parse("Flask_Login").unwrap();
    let b = PackageName::parse("flask-login").unwrap();
    assert!(a.same_as(&b));
}

#[test]
fn versions_compare_with_zero_padding() {
    assert!(ver(&[3, 10]).same_as(&ver(&[3, 10, 0])));
    assert!(matches!(ver(&[3, 9]).compare(&ver(&[3, 10])), VersionOrder::Before));
    assert!(matches!(ver(&[3, 11, 1]).compare(&ver(&[3, 11])), VersionOrder::After));
    assert!(ver(&[3, 10]).at_most(&ver(&[3, 10])));
    assert!(ver(&[2, 9, 9]).at_most(&ver(&[3])));
}

#[test]
fn specifiers_follow_their_operators() {
    let v = ver(&[1, 2, 3]);
    let ge = VersionSpecifier { op: VersionOp::GreaterEq, version: ver(&[1, 2]) };
    let lt = VersionSpecifier { op: VersionOp::Less, version: ver(&[2]) };
    let ne = VersionSpecifier { op: VersionOp::NotEqual, version: ver(&[1, 2, 3]) };
    assert!(ge.allows(&v));
    assert!(lt.allows(&v));
    assert!(!ne.allows(&v));
}

#[test]
fn requires_python_is_a_floor() {
    let rp = RequiresPython { floor: ver(&[3, 10]) };
    assert!(rp.contains(&ver(&[3, 10])));
    assert!(rp.contains(&ver(&[3, 10, 0])));
    assert!(rp.contains(&ver(&[3, 12, 1])));
    assert!(!rp.contains(&ver(&[3, 9, 18])));
}

#[test]
fn incompatibility_reports_name_the_versions() {
    let msg = requested_incompatibility_message(
        &ver(&[3, 9, 2]),
        &RequiresPython { floor: ver(&[3, 10]) },
    );
    assert_eq!(
        msg,
        "The requested Python interpreter (3.9.2) is incompatible with the project Python requirement: `>=3.10`"
    );
    let locked = locked_incompatibility_message(
        &ver(&[3, 8]),
        &RequiresPython { floor: ver(&[3, 12]) },
    );
    assert_eq!(
        locked,
        "The current Python version (3.8) is not compatible with the locked Python requirement: `>=3.12`"
    );
}

#[test]
fn discovery_status_line_names_the_interpreter() {
    let interp = Interpreter {
        version: ver(&[3, 11, 4]),
        sys_executable: "/usr/bin/python3.11".to_string(),
        markers: String::new(),
        tags: vec![],
    };
    assert_eq!(
        using_interpreter_message(&interp),
        "Using Python 3.11.4 interpreter at: /usr/bin/python3.11"
    );
}
