use agnt::mentions::Mention;
use agnt::typeahead_provider::{next_update_seq, ProviderStatus, TypeaheadProvider};

fn file(p: &str) -> Mention {
    Mention::File(p.to_string())
}

#[test]
fn provider_loads_until_its_query_is_answered() {
    let mut provider = TypeaheadProvider::new('@');
    assert_eq!(provider.leader(), '@');
    let mut status: ProviderStatus<Mention> = ProviderStatus::starting();

    assert!(provider.needs_request("ma"));
    let r = provider.query_result(&status, "ma");
    assert!(r.loading);
    assert!(r.matches.is_empty());

    status = ProviderStatus::ready();
    provider.request_sent("ma", true);
    assert!(!provider.needs_request("ma"));
    let r = provider.query_result(&status, "ma");
    assert!(r.loading, "asked but not answered");

    status.begin("ma".to_string());
    assert!(provider.query_result(&status, "ma").loading);

    status.complete("ma".to_string(), vec![file("main.rs"), file("map.rs")]);
    let r = provider.query_result(&status, "ma");
    assert!(!r.loading);
    assert_eq!(r.matches, vec![file("main.rs"), file("map.rs")]);

    // A different query shows nothing from the old answer.
    let r = provider.query_result(&status, "x");
    assert!(r.matches.is_empty());
    assert!(!r.loading, "never asked, nothing pending");

    // Busy with another query while "x" is asked for.
    provider.request_sent("x", true);
    status.begin("x".to_string());
    assert!(provider.query_result(&status, "x").loading);
    assert!(!provider.query_result(&status, "ma").loading);
}

#[test]
fn undelivered_request_is_asked_again() {
    let mut provider = TypeaheadProvider::new('/');
    provider.request_sent("n", false);
    assert!(provider.needs_request("n"));
    provider.request_sent("n", true);
    provider.request_sent("ne", false);
    assert!(!provider.needs_request("n"));
    assert!(provider.needs_request("ne"));
}

#[test]
fn update_counter_wraps() {
    assert_eq!(next_update_seq(0), 1);
    assert_eq!(next_update_seq(41), 42);
    assert_eq!(next_update_seq(u64::MAX), 0);
}
