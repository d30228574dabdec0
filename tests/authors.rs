use loki_cli::authors::{
    canonicalize_author, matches_author_filters, matches_author_filters_lowered, StringHashMap,
};
use loki_cli::timerange::RepoStatsOptions;

#[test]
fn canonicalize_author_reuses_first_email_for_name() {
    let mut email_aliases = StringHashMap::new();
    let mut name_to_email = StringHashMap::new();

    let first = canonicalize_author(
        "alias@microsoft.com",
        "msuser",
        &mut email_aliases,
        &mut name_to_email,
    );
    assert_eq!(first, "alias@microsoft.com");

    let second = canonicalize_author(
        "msuser@microsoft.com",
        "msuser",
        &mut email_aliases,
        &mut name_to_email,
    );
    assert_eq!(second, "alias@microsoft.com");
}

#[test]
fn canonicalize_author_handles_name_change_after_alias() {
    let mut email_aliases = StringHashMap::new();
    let mut name_to_email = StringHashMap::new();

    canonicalize_author(
        "alias@microsoft.com",
        "msuser",
        &mut email_aliases,
        &mut name_to_email,
    );
    canonicalize_author(
        "msuser@microsoft.com",
        "msuser",
        &mut email_aliases,
        &mut name_to_email,
    );
    let reused = canonicalize_author(
        "msuser@microsoft.com",
        "display name",
        &mut email_aliases,
        &mut name_to_email,
    );
    assert_eq!(reused, "alias@microsoft.com");
}

#[test]
fn canonicalize_author_sticky_first_email_example() {
    let mut email_aliases = StringHashMap::new();
    let mut name_to_email = StringHashMap::new();
    let a = canonicalize_author("alias@x.com", "bob", &mut email_aliases, &mut name_to_email);
    let b = canonicalize_author("bob@x.com", "bob", &mut email_aliases, &mut name_to_email);
    let c = canonicalize_author("bob@x.com", "robert", &mut email_aliases, &mut name_to_email);
    assert_eq!(a, "alias@x.com");
    assert_eq!(b, "alias@x.com");
    assert_eq!(c, "alias@x.com");
}

#[test]
fn canonicalize_author_without_name_keeps_email() {
    let mut email_aliases = StringHashMap::new();
    let mut name_to_email = StringHashMap::new();
    let a = canonicalize_author("one@x.com", "", &mut email_aliases, &mut name_to_email);
    let b = canonicalize_author("two@x.com", "", &mut email_aliases, &mut name_to_email);
    assert_eq!(a, "one@x.com");
    assert_eq!(b, "two@x.com");
}

#[test]
fn matches_author_filters_by_name_exact() {
    let mut options = RepoStatsOptions::default();
    options.names = vec![String::from("Example User")];

    assert!(matches_author_filters(
        "Example User",
        "user@example.com",
        &options
    ));
    assert!(!matches_author_filters(
        "Someone Else",
        "user@example.com",
        &options
    ));
}

#[test]
fn matches_author_filters_by_name_fuzzy() {
    let mut options = RepoStatsOptions::default();
    options.names = vec![String::from("example")];

    assert!(matches_author_filters(
        "Example User",
        "user@example.com",
        &options
    ));
    assert!(matches_author_filters(
        "EXAMPLE USER",
        "user@example.com",
        &options
    ));
    assert!(!matches_author_filters(
        "Someone Else",
        "user@example.com",
        &options
    ));
}

#[test]
fn matches_author_filters_by_name_case_insensitive() {
    let mut options = RepoStatsOptions::default();
    options.names = vec![String::from("EXAMPLE USER")];

    assert!(matches_author_filters(
        "example user",
        "user@example.com",
        &options
    ));
    assert!(matches_author_filters(
        "Example User",
        "user@example.com",
        &options
    ));
}

#[test]
fn matches_author_filters_by_email_exact() {
    let mut options = RepoStatsOptions::default();
    options.emails = vec![String::from("user@example.com")];

    assert!(matches_author_filters(
        "Example User",
        "user@example.com",
        &options
    ));
    assert!(!matches_author_filters(
        "Example User",
        "other@example.com",
        &options
    ));
}

#[test]
fn matches_author_filters_by_email_fuzzy() {
    let mut options = RepoStatsOptions::default();
    options.emails = vec![String::from("example.com")];

    assert!(matches_author_filters(
        "Example User",
        "user@example.com",
        &options
    ));
    assert!(matches_author_filters(
        "Example User",
        "other@example.com",
        &options
    ));
    assert!(!matches_author_filters(
        "Example User",
        "user@other.com",
        &options
    ));
}

#[test]
fn matches_author_filters_by_email_case_insensitive() {
    let mut options = RepoStatsOptions::default();
    options.emails = vec![String::from("USER@EXAMPLE.COM")];

    assert!(matches_author_filters(
        "Example User",
        "user@example.com",
        &options
    ));
    assert!(matches_author_filters(
        "Example User",
        "User@Example.Com",
        &options
    ));
}

#[test]
fn matches_author_filters_requires_all_filters() {
    let mut options = RepoStatsOptions::default();
    options.names = vec![String::from("Example User")];
    options.emails = vec![String::from("user@example.com")];

    assert!(matches_author_filters(
        "Example User",
        "user@example.com",
        &options
    ));
    assert!(!matches_author_filters(
        "Example User",
        "other@other.com",
        &options
    ));
    assert!(!matches_author_filters(
        "Another User",
        "user@example.com",
        &options
    ));
}

#[test]
fn matches_author_filters_fuzzy_with_multiple_filters() {
    let mut options = RepoStatsOptions::default();
    options.names = vec![String::from("john"), String::from("jane")];

    assert!(matches_author_filters(
        "John Smith",
        "john@example.com",
        &options
    ));
    assert!(matches_author_filters(
        "Jane Doe",
        "jane@example.com",
        &options
    ));
    assert!(!matches_author_filters(
        "Bob Wilson",
        "bob@example.com",
        &options
    ));
}

#[test]
fn lowered_filters_reject_empty_fields() {
    let filters = vec![String::from("x")];
    assert!(!matches_author_filters_lowered("", "x@x", &filters, &Vec::new()));
    assert!(!matches_author_filters_lowered("x", "", &Vec::new(), &filters));
    assert!(matches_author_filters_lowered("", "", &Vec::new(), &Vec::new()));
}
