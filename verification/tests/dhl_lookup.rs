use deliveries::dhl::{
    details_from_response, details_from_snapshot, fetch_tracking_events, fetch_via_api,
    search_url, ApiReply, ApiResponse, DhlLookup, DhlReply, DhlRequest, DhlStage, DhlStep, Event,
    PageSnapshot, SendungNichtGefunden, Sendungsdetails, Sendungsverlauf, Shipment,
    TrackingDetails, Zustellung,
};
use deliveries::postcode::{
    judge_zip_reply, seconds_of, session_cookies, session_from_reply, stamp_of, BlockTime,
    SessionConfig, SessionReply, ZipBody, ZipReply, ZipVerdict,
};

fn s(x: &str) -> Option<String> {
    Some(x.to_string())
}

fn event(datum: Option<String>, ort: Option<String>, status: Option<String>) -> Event {
    Event { datum, ort, status }
}

fn shipment(events: Option<Vec<Event>>, censored: bool, plz: bool) -> Shipment {
    Shipment {
        sendungsdetails: Some(Sendungsdetails {
            sendungsverlauf: Some(Sendungsverlauf {
                events,
                status: s("Zugestellt"),
                fortschritt: Some(5),
                maximal_fortschritt: Some(5),
            }),
            zustellung: Some(Zustellung {
                zustellzeitfenster_von: s("10:00"),
                zustellzeitfenster_bis: s("12:00"),
            }),
            has_censored_information: censored,
            ist_zugestellt: true,
        }),
        plz_benoetigt: plz,
        versand_datum_benoetigt: false,
        sendung_nicht_gefunden: None,
    }
}

fn bare_shipment() -> Shipment {
    Shipment {
        sendungsdetails: None,
        plz_benoetigt: false,
        versand_datum_benoetigt: false,
        sendung_nicht_gefunden: None,
    }
}

fn response(sendungen: Vec<Shipment>) -> ApiResponse {
    ApiResponse { sendungen }
}

fn err_text(r: Result<TrackingDetails, String>) -> String {
    match r {
        Err(e) => e,
        Ok(_) => panic!("expected an error"),
    }
}

#[test]
fn details_map_events_with_placeholders() {
    let r = response(vec![shipment(
        Some(vec![
            event(s("Mo, 01.01.2024, 10:00 Uhr"), s("Bonn"), s("Abgeholt")),
            event(None, s("   "), None),
            event(s("t"), None, s("x")),
        ]),
        false,
        false,
    )]);
    let d = details_from_response(r).unwrap();
    assert_eq!(d.events.len(), 3);
    assert_eq!(d.events[0].timestamp, "Mo, 01.01.2024, 10:00 Uhr");
    assert_eq!(d.events[0].location, "Bonn");
    assert_eq!(d.events[0].description, "Abgeholt");
    assert_eq!(d.events[1].timestamp, "Time not available");
    assert_eq!(d.events[1].location, "Location not available");
    assert_eq!(d.events[1].description, "No description available");
    assert_eq!(d.events[2].location, "Location not available");
    assert_eq!(d.progress, Some((5, 5)));
    assert_eq!(d.short_status.as_deref(), Some("Zugestellt"));
    assert_eq!(d.delivery_window, Some(("10:00".to_string(), "12:00".to_string())));
    assert!(d.delivered);
    assert!(!d.censored);
    assert_eq!(d.zip_error, None);
}

#[test]
fn location_with_surrounding_space_is_kept_as_sent() {
    let r = response(vec![shipment(Some(vec![event(None, s(" Köln "), None)]), false, false)]);
    let d = details_from_response(r).unwrap();
    assert_eq!(d.events[0].location, " Köln ");
}

#[test]
fn only_first_shipment_counts() {
    let r = response(vec![
        shipment(Some(vec![event(s("a"), None, None)]), false, false),
        shipment(Some(vec![event(s("b"), None, None), event(s("c"), None, None)]), false, false),
    ]);
    let d = details_from_response(r).unwrap();
    assert_eq!(d.events.len(), 1);
    assert_eq!(d.events[0].timestamp, "a");
}

#[test]
fn no_shipment_is_an_error() {
    assert_eq!(err_text(details_from_response(response(vec![]))), "No shipment data returned");
}

#[test]
fn data_gone_is_an_error() {
    for (keine, alt) in [(true, false), (false, true)] {
        let mut sh = shipment(Some(vec![event(s("a"), None, None)]), false, false);
        sh.sendung_nicht_gefunden = Some(SendungNichtGefunden {
            keine_daten_verfuegbar: keine,
            sendungsdaten_zu_alt: alt,
        });
        assert_eq!(
            err_text(details_from_response(response(vec![sh]))),
            "DHL no longer holds data for this tracking number"
        );
    }
    let mut sh = shipment(Some(vec![event(s("a"), None, None)]), false, false);
    sh.sendung_nicht_gefunden =
        Some(SendungNichtGefunden { keine_daten_verfuegbar: false, sendungsdaten_zu_alt: false });
    assert!(details_from_response(response(vec![sh])).is_ok());
}

#[test]
fn empty_details_are_an_error() {
    assert_eq!(
        err_text(details_from_response(response(vec![bare_shipment()]))),
        "No events available for this tracking number"
    );
    assert_eq!(
        err_text(details_from_response(response(vec![shipment(Some(vec![]), false, false)]))),
        "No events available for this tracking number"
    );
}

#[test]
fn withheld_details_without_events_are_kept() {
    let d = details_from_response(response(vec![shipment(None, true, false)])).unwrap();
    assert!(d.censored);
    assert!(d.events.is_empty());
    let mut sh = bare_shipment();
    sh.versand_datum_benoetigt = true;
    let d = details_from_response(response(vec![sh])).unwrap();
    assert!(d.versanddatum_required);
}

#[test]
fn incomplete_progress_and_window_are_dropped() {
    let mut sh = shipment(Some(vec![event(s("a"), None, None)]), false, false);
    if let Some(d) = sh.sendungsdetails.as_mut() {
        if let Some(v) = d.sendungsverlauf.as_mut() {
            v.maximal_fortschritt = None;
        }
        d.zustellung = Some(Zustellung { zustellzeitfenster_von: s("10:00"), zustellzeitfenster_bis: None });
    }
    let d = details_from_response(response(vec![sh])).unwrap();
    assert_eq!(d.progress, None);
    assert_eq!(d.delivery_window, None);
}

#[test]
fn api_reply_errors() {
    let e = fetch_via_api(Err("Network request failed".to_string()));
    assert_eq!(err_text(e), "Network request failed");
    let e = fetch_via_api(Ok(ApiReply { status: 503, body: None }));
    assert_eq!(err_text(e), "Tracking server returned an error status");
    let e = fetch_via_api(Ok(ApiReply { status: 200, body: None }));
    assert_eq!(err_text(e), "Failed to parse tracking JSON");
    let ok = fetch_via_api(Ok(ApiReply {
        status: 200,
        body: Some(response(vec![shipment(Some(vec![event(s("a"), None, None)]), false, false)])),
    }));
    assert_eq!(ok.unwrap().events.len(), 1);
}

#[test]
fn search_address() {
    assert_eq!(
        search_url("JJD123"),
        "https://www.dhl.de/int-verfolgen/data/search?piececode=JJD123&noRedirect=true&language=de"
    );
}

#[test]
fn snapshot_yields_one_event() {
    let d = details_from_snapshot(PageSnapshot { status: s("Zugestellt"), timestamp: None, location_hint: None })
        .unwrap();
    assert_eq!(d.events.len(), 1);
    assert_eq!(d.events[0].timestamp, "Zeit nicht verfügbar");
    assert_eq!(d.events[0].location, "Ort nicht verfügbar");
    assert_eq!(d.events[0].description, "Zugestellt");
    assert!(!d.censored && !d.plz_required && d.progress.is_none() && d.zip_error.is_none());
    let e = details_from_snapshot(PageSnapshot { status: None, timestamp: None, location_hint: s("53113 Bonn") });
    assert_eq!(err_text(e), "Headless extraction returned no tracking details");
}

#[test]
fn empty_tracking_number_is_refused() {
    match fetch_tracking_events("  \t", None) {
        Err(e) => assert_eq!(e, "Tracking number is empty"),
        Ok(_) => panic!("accepted an empty number"),
    }
}

fn start(id: &str, zip: Option<&str>) -> (DhlLookup, DhlRequest) {
    match fetch_tracking_events(id, zip) {
        Ok(x) => x,
        Err(e) => panic!("{}", e),
    }
}

fn request(step: DhlStep) -> DhlRequest {
    match step {
        DhlStep::Request(r) => r,
        DhlStep::Done(_) => panic!("lookup ended early"),
    }
}

fn done(step: DhlStep) -> Result<TrackingDetails, String> {
    match step {
        DhlStep::Done(r) => r,
        DhlStep::Request(_) => panic!("lookup asked for more"),
    }
}

fn ok_reply(r: ApiResponse) -> DhlReply {
    DhlReply::Search(Ok(ApiReply { status: 200, body: Some(r) }))
}

#[test]
fn lookup_trims_and_searches() {
    let (lookup, req) = start("  JJD1  ", Some("  "));
    assert_eq!(lookup.tracking_id(), "JJD1");
    assert_eq!(lookup.zip(), None);
    match req {
        DhlRequest::Search { url } => assert!(url.contains("piececode=JJD1&")),
        _ => panic!("first request is not the search"),
    }
    let (lookup, _) = start("JJD1", Some(" 53113 "));
    assert_eq!(lookup.zip().as_deref(), Some("53113"));
}

#[test]
fn nothing_withheld_means_no_postcode_request() {
    let (lookup, _) = start("JJD1", Some("53113"));
    let r = response(vec![shipment(Some(vec![event(s("a"), None, None)]), false, false)]);
    let (lookup, step) = lookup.advance(ok_reply(r));
    assert!(matches!(lookup.stage(), DhlStage::Finished));
    let d = done(step).unwrap();
    assert_eq!(d.events.len(), 1);
    assert_eq!(d.zip_error, None);
}

#[test]
fn withheld_without_postcode_returns_anonymous_view() {
    let (lookup, _) = start("JJD1", None);
    let r = response(vec![shipment(Some(vec![event(s("a"), None, None)]), true, true)]);
    let (_, step) = lookup.advance(ok_reply(r));
    let d = done(step).unwrap();
    assert!(d.censored && d.plz_required);
}

fn withheld_lookup() -> DhlLookup {
    let (lookup, _) = start("JJD1", Some("53113"));
    let r = response(vec![shipment(Some(vec![event(s("anon"), None, None)]), true, false)]);
    let (lookup, step) = lookup.advance(ok_reply(r));
    match request(step) {
        DhlRequest::Session { url } => {
            assert_eq!(url, "https://www.dhl.de/int-verfolgen/data/config?domain=de&language=de")
        },
        _ => panic!("expected the session request"),
    }
    lookup
}

fn session_ok() -> DhlReply {
    DhlReply::Session(Ok(SessionReply {
        status: 200,
        set_cookies: vec![s("JSESSIONID=abc; Path=/; HttpOnly"), None, s("dhl=1")],
        config: Some(SessionConfig { csrf_token: s("tok") }),
    }))
}

#[test]
fn postcode_unlocks_details() {
    let lookup = withheld_lookup();
    let (lookup, step) = lookup.advance(session_ok());
    match request(step) {
        DhlRequest::SubmitZip { url, tracking_id, zip, csrf_token, cookies } => {
            assert_eq!(url, "https://www.dhl.de/int-verfolgen/data/shipment?language=de");
            assert_eq!(tracking_id, "JJD1");
            assert_eq!(zip, "53113");
            assert_eq!(csrf_token, "tok");
            assert_eq!(cookies, "JSESSIONID=abc; dhl=1");
        },
        _ => panic!("expected the postcode request"),
    }
    let unlocked = response(vec![shipment(
        Some(vec![event(s("x"), s("Bonn"), None), event(s("y"), None, None)]),
        false,
        false,
    )]);
    let reply = DhlReply::SubmitZip(Ok(ZipReply {
        status: 200,
        body: Some(ZipBody { block_time: None, error: None, payload: Some(unlocked) }),
    }));
    let (lookup, step) = lookup.advance(reply);
    assert!(matches!(lookup.stage(), DhlStage::Finished));
    let d = done(step).unwrap();
    assert_eq!(d.events.len(), 2);
    assert_eq!(d.zip_error, None);
}

#[test]
fn failed_session_keeps_anonymous_view() {
    let lookup = withheld_lookup();
    let reply = DhlReply::Session(Ok(SessionReply {
        status: 200,
        set_cookies: vec![],
        config: Some(SessionConfig { csrf_token: None }),
    }));
    let (_, step) = lookup.advance(reply);
    let d = done(step).unwrap();
    assert_eq!(d.events.len(), 1);
    assert_eq!(d.events[0].timestamp, "anon");
    assert!(d.censored);
    assert_eq!(d.zip_error.as_deref(), Some("DHL session config contained no CSRF token"));
}

#[test]
fn rejected_postcode_keeps_anonymous_view() {
    let lookup = withheld_lookup();
    let (lookup, _) = lookup.advance(session_ok());
    let reply = DhlReply::SubmitZip(Ok(ZipReply {
        status: 400,
        body: Some(ZipBody { block_time: None, error: s("PLZ falsch"), payload: None }),
    }));
    let (_, step) = lookup.advance(reply);
    let d = done(step).unwrap();
    assert_eq!(d.events[0].timestamp, "anon");
    assert_eq!(d.zip_error.as_deref(), Some("PLZ falsch"));
}

#[test]
fn blocked_postcode_reports_local_time() {
    let lookup = withheld_lookup();
    let (lookup, _) = lookup.advance(session_ok());
    let block = BlockTime { number: Some(1_700_000_000_000), text: None, rendered: "1700000000000".to_string() };
    let reply = DhlReply::SubmitZip(Ok(ZipReply {
        status: 429,
        body: Some(ZipBody { block_time: Some(block), error: s("ignored"), payload: None }),
    }));
    let (lookup, step) = lookup.advance(reply);
    match request(step) {
        DhlRequest::LocalTime { seconds } => assert_eq!(seconds, 1_700_000_000),
        _ => panic!("expected the local time request"),
    }
    let (_, step) = lookup.advance(DhlReply::LocalTime(s("14:30")));
    let d = done(step).unwrap();
    assert_eq!(
        d.zip_error.as_deref(),
        Some("too many wrong attempts, DHL blocked PLZ lookups until 14:30")
    );
}

#[test]
fn blocked_postcode_without_local_time_shows_stamp() {
    let lookup = withheld_lookup();
    let (lookup, _) = lookup.advance(session_ok());
    let block = BlockTime { number: None, text: s("1700000000"), rendered: "\"1700000000\"".to_string() };
    let reply = DhlReply::SubmitZip(Ok(ZipReply {
        status: 403,
        body: Some(ZipBody { block_time: Some(block), error: None, payload: None }),
    }));
    let (lookup, step) = lookup.advance(reply);
    match request(step) {
        DhlRequest::LocalTime { seconds } => assert_eq!(seconds, 1_700_000_000),
        _ => panic!("expected the local time request"),
    }
    let (_, step) = lookup.advance(DhlReply::LocalTime(None));
    let d = done(step).unwrap();
    assert_eq!(
        d.zip_error.as_deref(),
        Some("too many wrong attempts, DHL blocked PLZ lookups until 1700000000")
    );
}

#[test]
fn api_failure_falls_back_to_browser() {
    let (lookup, _) = start("JJD1", None);
    let (lookup, step) = lookup.advance(DhlReply::Search(Err("Network request failed".to_string())));
    match request(step) {
        DhlRequest::Headless { url } => assert_eq!(
            url,
            "https://www.dhl.de/de/privatkunden/pakete-empfangen/verfolgen.html?piececode=JJD1"
        ),
        _ => panic!("expected the browser"),
    }
    let snapshot = PageSnapshot { status: s("In Zustellung"), timestamp: s("Mo, 01.01.2024, 10:00 Uhr"), location_hint: None };
    let (_, step) = lookup.advance(DhlReply::Headless(Ok(snapshot)));
    let d = done(step).unwrap();
    assert_eq!(d.events.len(), 1);
    assert_eq!(d.events[0].description, "In Zustellung");
}

#[test]
fn both_failures_are_reported_together() {
    let (lookup, _) = start("JJD1", None);
    let (lookup, _) = lookup.advance(DhlReply::Search(Ok(ApiReply { status: 500, body: None })));
    let (_, step) = lookup.advance(DhlReply::Headless(Err("no usable Chrome/Chromium binary found".to_string())));
    assert_eq!(
        err_text(done(step)),
        "API failed: Tracking server returned an error status; headless Chrome failed: no usable Chrome/Chromium binary found"
    );
    let (lookup, _) = start("JJD1", None);
    let (lookup, _) = lookup.advance(ok_reply(response(vec![])));
    let empty = PageSnapshot { status: None, timestamp: None, location_hint: None };
    let (_, step) = lookup.advance(DhlReply::Headless(Ok(empty)));
    assert_eq!(
        err_text(done(step)),
        "API failed: No shipment data returned; headless Chrome failed: Headless extraction returned no tracking details"
    );
}

#[test]
fn lookup_expects_matching_reply() {
    let (lookup, _) = start("JJD1", None);
    assert!(lookup.expects_reply(&DhlReply::Search(Err("x".to_string()))));
    assert!(!lookup.expects_reply(&DhlReply::LocalTime(None)));
}

#[test]
fn session_reply_errors() {
    assert_eq!(
        session_from_reply(Ok(SessionReply { status: 500, set_cookies: vec![], config: None })).unwrap_err(),
        "DHL session config returned an error status"
    );
    assert_eq!(
        session_from_reply(Ok(SessionReply { status: 200, set_cookies: vec![], config: None })).unwrap_err(),
        "Failed to parse DHL session config"
    );
    assert_eq!(
        session_from_reply(Err("Failed to fetch DHL session config".to_string())).unwrap_err(),
        "Failed to fetch DHL session config"
    );
}

#[test]
fn cookies_keep_name_and_value() {
    let values = vec![s("a=1; Secure"), s("b=2"), None, s(";x"), s("c=3;")];
    assert_eq!(session_cookies(&values), "a=1; b=2; ; c=3");
    assert_eq!(session_cookies(&vec![]), "");
}

#[test]
fn zip_reply_verdicts() {
    match judge_zip_reply(Ok(ZipReply { status: 200, body: None })) {
        ZipVerdict::Refused(e) => assert_eq!(e, "Failed to parse PLZ response"),
        _ => panic!(),
    }
    match judge_zip_reply(Ok(ZipReply {
        status: 200,
        body: Some(ZipBody { block_time: None, error: None, payload: None }),
    })) {
        ZipVerdict::Refused(e) => assert_eq!(e, "Failed to parse PLZ payload"),
        _ => panic!(),
    }
    match judge_zip_reply(Ok(ZipReply {
        status: 401,
        body: Some(ZipBody { block_time: None, error: None, payload: None }),
    })) {
        ZipVerdict::Refused(e) => assert_eq!(e, "DHL rejected the postcode"),
        _ => panic!(),
    }
    let odd = BlockTime { number: None, text: s("soon"), rendered: "\"soon\"".to_string() };
    match judge_zip_reply(Ok(ZipReply {
        status: 429,
        body: Some(ZipBody { block_time: Some(odd), error: None, payload: None }),
    })) {
        ZipVerdict::Refused(e) => {
            assert_eq!(e, "too many wrong attempts, DHL blocked PLZ lookups until \"soon\"")
        },
        _ => panic!(),
    }
    match judge_zip_reply(Err("PLZ request failed".to_string())) {
        ZipVerdict::Refused(e) => assert_eq!(e, "PLZ request failed"),
        _ => panic!(),
    }
}

#[test]
fn block_time_in_seconds() {
    assert_eq!(seconds_of(1_700_000_000), 1_700_000_000);
    assert_eq!(seconds_of(100_000_000_000), 100_000_000_000);
    assert_eq!(seconds_of(100_000_000_001), 100_000_000);
    assert_eq!(seconds_of(1_700_000_000_123), 1_700_000_000);
    let b = BlockTime { number: None, text: s("-5"), rendered: String::new() };
    assert_eq!(stamp_of(&b), Some(-5));
    let b = BlockTime { number: Some(7), text: s("9"), rendered: String::new() };
    assert_eq!(stamp_of(&b), Some(7));
}

#[test]
fn block_time_forms_end_at_the_same_second() {
    let stamp: i64 = 1_700_000_000_123;
    let as_ms = BlockTime { number: Some(stamp), text: None, rendered: stamp.to_string() };
    let as_s = BlockTime { number: Some(stamp / 1000), text: None, rendered: (stamp / 1000).to_string() };
    let as_text = BlockTime { number: None, text: Some(stamp.to_string()), rendered: format!("\"{}\"", stamp) };
    let seconds: Vec<i64> = [as_ms, as_s, as_text]
        .iter()
        .map(|b| seconds_of(stamp_of(b).unwrap()))
        .collect();
    assert_eq!(seconds, vec![1_700_000_000, 1_700_000_000, 1_700_000_000]);
}
