use deliveries::dhl::{TrackingDetails, TrackingEvent};
use deliveries::tracker::{
    add_tracking_number, apply_lookup_message, archive_tracking, display_name, entered_text,
    event_meta, events_newest_first, find_item, latest_status, refresh_all_items, rename_item,
    set_item_zip, summarize, zip_hint, AddRefusal, TrackingItem,
};

fn ev(t: &str, l: &str, d: &str) -> TrackingEvent {
    TrackingEvent { timestamp: t.to_string(), location: l.to_string(), description: d.to_string() }
}

fn item(code: &str) -> TrackingItem {
    TrackingItem {
        code: code.to_string(),
        name: None,
        zip: None,
        events: Vec::new(),
        last_status: "Pending first check...".to_string(),
        plz_required: false,
    }
}

fn details() -> TrackingDetails {
    TrackingDetails::default()
}

#[test]
fn add_trims_and_appends() {
    let mut items = vec![item("A1")];
    match add_tracking_number(&mut items, "  JJD9 ") {
        Ok(code) => assert_eq!(code, "JJD9"),
        Err(_) => panic!("refused"),
    }
    assert_eq!(items.len(), 2);
    assert_eq!(items[1].code, "JJD9");
    assert_eq!(items[1].last_status, "Pending first check...");
    assert!(items[1].events.is_empty() && items[1].name.is_none() && items[1].zip.is_none());
    assert!(!items[1].plz_required);
}

#[test]
fn add_refuses_blank_and_duplicates() {
    let mut items = vec![item("A1")];
    match add_tracking_number(&mut items, "   ") {
        Err(r) => {
            assert!(matches!(r, AddRefusal::Empty));
            assert_eq!(r.message(), "Please enter a tracking number.");
        },
        Ok(_) => panic!(),
    }
    match add_tracking_number(&mut items, " A1") {
        Err(r) => {
            assert!(matches!(r, AddRefusal::AlreadyListed));
            assert_eq!(r.message(), "Tracking number is already in the list.");
        },
        Ok(_) => panic!(),
    }
    assert_eq!(items.len(), 1);
}

#[test]
fn add_then_archive_restores_list() {
    let mut items = vec![item("A1"), item("B2")];
    let code = add_tracking_number(&mut items, "C3").ok().unwrap();
    assert_eq!(archive_tracking(&mut items, &code), Some(2));
    let codes: Vec<&str> = items.iter().map(|i| i.code.as_str()).collect();
    assert_eq!(codes, vec!["A1", "B2"]);
}

#[test]
fn archived_number_is_not_refreshed() {
    let mut items = vec![item("A1"), item("B2"), item("C3")];
    assert_eq!(archive_tracking(&mut items, "B2"), Some(1));
    let codes: Vec<String> = refresh_all_items(&items).into_iter().map(|p| p.0).collect();
    assert_eq!(codes, vec!["A1".to_string(), "C3".to_string()]);
}

#[test]
fn archive_unknown_changes_nothing() {
    let mut items = vec![item("A1")];
    assert_eq!(archive_tracking(&mut items, "ZZ"), None);
    assert_eq!(items.len(), 1);
    assert_eq!(find_item(&items, "A1"), Some(0));
    assert_eq!(find_item(&items, "a1"), None);
}

#[test]
fn refresh_lists_codes_and_zips() {
    let mut b = item("B2");
    b.zip = Some("53113".to_string());
    let items = vec![item("A1"), b];
    let pairs = refresh_all_items(&items);
    assert_eq!(pairs, vec![("A1".to_string(), None), ("B2".to_string(), Some("53113".to_string()))]);
}

#[test]
fn summary_without_parts_counts_events() {
    let mut it = item("A1");
    it.events = vec![ev("t", "l", "d"), ev("t", "l", "e")];
    assert_eq!(summarize(&it, &details()), "2 events available");
    assert_eq!(summarize(&item("A1"), &details()), "0 events available");
}

#[test]
fn summary_with_all_parts() {
    let mut it = item("A1");
    it.events = vec![ev("t", "l", "d")];
    it.plz_required = true;
    let mut d = details();
    d.short_status = Some("In Zustellung".to_string());
    d.delivered = true;
    d.progress = Some((3, 5));
    d.delivery_window = Some(("10:00".to_string(), "12:00".to_string()));
    d.zip_error = Some("PLZ falsch".to_string());
    assert_eq!(
        summarize(&it, &d),
        "In Zustellung - step 3/5 - delivery 10:00 - 12:00 - enter recipient postcode for more - postcode rejected: PLZ falsch (1 events)"
    );
}

#[test]
fn summary_parts_variants() {
    let mut it = item("A1");
    let mut d = details();
    d.delivered = true;
    d.delivery_window = Some(("heute".to_string(), "heute".to_string()));
    d.versanddatum_required = true;
    assert_eq!(summarize(&it, &d), "Delivered - delivery heute - shipping date required (0 events)");
    it.zip = Some("53113".to_string());
    it.plz_required = true;
    it.events = vec![ev("t", "l", "d")];
    let d = details();
    assert_eq!(summarize(&it, &d), "postcode did not unlock more (1 events)");
}

#[test]
fn apply_successful_lookup() {
    let mut items = vec![item("A1"), item("B2")];
    let mut d = details();
    d.events = vec![ev("t1", "Bonn", "abgeholt"), ev("t2", "Köln", "zugestellt")];
    d.censored = true;
    d.delivered = true;
    let msg = apply_lookup_message(&mut items, "B2", Ok(d));
    assert_eq!(msg, "Updated B2");
    assert_eq!(items[1].events.len(), 2);
    assert!(items[1].plz_required);
    assert_eq!(items[1].last_status, "Delivered - enter recipient postcode for more (2 events)");
    assert_eq!(items[0].last_status, "Pending first check...");
    assert_eq!(latest_status(&items[1]), "Delivered - enter recipient postcode for more (2 events)");
}

#[test]
fn row_line_is_the_summary() {
    let mut items = vec![item("A1")];
    let mut d = details();
    d.events = vec![ev("t1", "Bonn", "abgeholt"), ev("t2", "Köln", "in Zustellung")];
    d.short_status = Some("Zustellung heute".to_string());
    d.progress = Some((4, 5));
    d.delivery_window = Some(("10:00".to_string(), "12:00".to_string()));
    apply_lookup_message(&mut items, "A1", Ok(d));
    assert_eq!(
        latest_status(&items[0]),
        "Zustellung heute - step 4/5 - delivery 10:00 - 12:00 (2 events)"
    );
}

#[test]
fn apply_failed_lookup() {
    let mut it = item("A1");
    it.events = vec![ev("t", "l", "d")];
    let mut items = vec![it];
    let msg = apply_lookup_message(&mut items, "A1", Err("Network request failed".to_string()));
    assert_eq!(msg, "Error while updating A1");
    assert!(items[0].events.is_empty());
    assert_eq!(items[0].last_status, "Error: Network request failed");
    assert_eq!(latest_status(&items[0]), "Error: Network request failed");
}

#[test]
fn apply_unknown_code() {
    let mut items = vec![item("A1")];
    let msg = apply_lookup_message(&mut items, "ZZ", Err("x".to_string()));
    assert_eq!(msg, "Received update for an unknown tracking number");
    assert_eq!(items[0].last_status, "Pending first check...");
}

#[test]
fn names_and_zips_from_fields() {
    let mut items = vec![item("A1")];
    rename_item(&mut items, "A1", "  Laptop ");
    assert_eq!(items[0].name.as_deref(), Some("Laptop"));
    assert_eq!(display_name(&items[0]), "Laptop");
    rename_item(&mut items, "A1", "   ");
    assert_eq!(items[0].name, None);
    assert_eq!(display_name(&items[0]), "A1");
    set_item_zip(&mut items, "A1", " 53113");
    assert_eq!(items[0].zip.as_deref(), Some("53113"));
    set_item_zip(&mut items, "A1", "");
    assert_eq!(items[0].zip, None);
    assert_eq!(entered_text(" x "), Some("x".to_string()));
    assert_eq!(entered_text(" \t"), None);
}

#[test]
fn detail_window_texts() {
    assert_eq!(
        zip_hint(true),
        "DHL withholds details for this shipment until you enter the recipient postcode."
    );
    assert_eq!(zip_hint(false), "DHL reports nothing withheld here, so a postcode adds nothing.");
    assert_eq!(event_meta(&ev("Mo, 10:00", "Bonn", "x")), "Mo, 10:00 — Bonn");
    let evs = vec![ev("1", "", ""), ev("2", "", ""), ev("3", "", "")];
    let rev: Vec<String> = events_newest_first(&evs).into_iter().map(|e| e.timestamp).collect();
    assert_eq!(rev, vec!["3", "2", "1"]);
}
