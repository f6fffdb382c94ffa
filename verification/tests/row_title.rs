use uplink_core::title::{other_recipients, shows_skeleton, title};

fn key(s: &str) -> String {
    String::from(s)
}

#[test]
fn oneself_is_not_looked_up() {
    let recipients = vec![key("did:key:me"), key("did:key:ann"), key("did:key:bob")];
    let picked = other_recipients(&recipients, &key("did:key:me"));
    assert_eq!(picked, vec![key("did:key:ann"), key("did:key:bob")]);
}

#[test]
fn every_other_recipient_is_looked_up_in_order() {
    let recipients = vec![key("c"), key("me"), key("a"), key("me"), key("b")];
    assert_eq!(other_recipients(&recipients, &key("me")), vec![key("c"), key("a"), key("b")]);
    assert_eq!(other_recipients(&recipients, &key("nobody")), recipients);
    assert!(other_recipients(&Vec::new(), &key("me")).is_empty());
    assert!(other_recipients(&vec![key("me")], &key("me")).is_empty());
}

#[test]
fn the_title_is_the_last_name_found() {
    let found = vec![Some(vec![key("ann")]), Some(vec![key("bob"), key("bobby")])];
    assert_eq!(title(&found), "bobby");
}

#[test]
fn failed_and_empty_lookups_are_passed_over() {
    let found = vec![Some(vec![key("ann")]), None, Some(Vec::new())];
    assert_eq!(title(&found), "ann");
    let found = vec![None, Some(vec![key("ann"), key("annie")]), None];
    assert_eq!(title(&found), "annie");
}

#[test]
fn no_name_found_means_an_empty_title_and_a_placeholder() {
    let nothing = title(&vec![None, Some(Vec::new())]);
    assert_eq!(nothing, "");
    assert!(shows_skeleton(&nothing));
    assert!(shows_skeleton(&title(&Vec::new())));
    assert!(!shows_skeleton(&title(&vec![Some(vec![key("ann")])])));
}
