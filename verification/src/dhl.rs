//! DHL tracking: the JSON reply of the public tracker turned into tracking
//! details, and the lookup that decides which request comes next.
use vstd::prelude::*;
use vstd::string::*;
use crate::postcode::{
    block_seconds, block_until, blocked_message, blocked_until, judge_zip_reply, keep_anonymous,
    seconds_of, session_from_reply, session_of, with_zip_error, zip_verdict, SessionReply,
    ZipReply, ZipVerdict, ZipVerdictView,
};
use crate::text::{concat2, concat3, is_blank, is_ws, trim, trim_end, trim_start, trimmed};

verus! {

/// One entry of a shipment's timeline.
#[derive(Clone, Debug)]
pub struct TrackingEvent {
    pub timestamp: String,
    pub location: String,
    pub description: String,
}

/// The text of a [`TrackingEvent`].
pub struct EventView {
    pub timestamp: Seq<char>,
    pub location: Seq<char>,
    pub description: Seq<char>,
}

impl View for TrackingEvent {
    type V = EventView;

    open spec fn view(&self) -> EventView {
        EventView {
            timestamp: self.timestamp@,
            location: self.location@,
            description: self.description@,
        }
    }
}

/// Everything the DHL endpoint reports beyond the plain event list.
#[derive(Clone, Debug)]
pub struct TrackingDetails {
    pub events: Vec<TrackingEvent>,
    /// DHL withholds part of the detail view until the recipient PLZ is supplied.
    pub censored: bool,
    pub plz_required: bool,
    pub versanddatum_required: bool,
    pub delivered: bool,
    pub progress: Option<(u32, u32)>,
    pub short_status: Option<String>,
    pub delivery_window: Option<(String, String)>,
    /// Set when a PLZ was supplied but DHL refused it; the anonymous view is kept.
    pub zip_error: Option<String>,
}

/// The content of a [`TrackingDetails`], its text taken as character sequences.
pub struct DetailsView {
    pub events: Seq<EventView>,
    pub censored: bool,
    pub plz_required: bool,
    pub versanddatum_required: bool,
    pub delivered: bool,
    pub progress: Option<(u32, u32)>,
    pub short_status: Option<Seq<char>>,
    pub delivery_window: Option<(Seq<char>, Seq<char>)>,
    pub zip_error: Option<Seq<char>>,
}

/// The character sequence of an optional string.
pub open spec fn opt_text(o: Option<String>) -> Option<Seq<char>> {
    match o {
        Some(s) => Some(s@),
        None => None,
    }
}

/// The character sequences of an optional pair of strings.
pub open spec fn opt_pair(o: Option<(String, String)>) -> Option<(Seq<char>, Seq<char>)> {
    match o {
        Some((a, b)) => Some((a@, b@)),
        None => None,
    }
}

/// The views of a list of events.
pub open spec fn event_views(events: Seq<TrackingEvent>) -> Seq<EventView> {
    events.map_values(|e: TrackingEvent| e@)
}

impl View for TrackingDetails {
    type V = DetailsView;

    open spec fn view(&self) -> DetailsView {
        DetailsView {
            events: event_views(self.events@),
            censored: self.censored,
            plz_required: self.plz_required,
            versanddatum_required: self.versanddatum_required,
            delivered: self.delivered,
            progress: self.progress,
            short_status: opt_text(self.short_status),
            delivery_window: opt_pair(self.delivery_window),
            zip_error: opt_text(self.zip_error),
        }
    }
}

/// Details that report nothing: no events, no flag set, nothing optional present.
pub open spec fn empty_details() -> DetailsView {
    DetailsView {
        events: seq![],
        censored: false,
        plz_required: false,
        versanddatum_required: false,
        delivered: false,
        progress: None,
        short_status: None,
        delivery_window: None,
        zip_error: None,
    }
}

impl Default for TrackingDetails {
    fn default() -> (d: TrackingDetails)
        ensures
            d@ == empty_details(),
    {
        let d = TrackingDetails {
            events: Vec::new(),
            censored: false,
            plz_required: false,
            versanddatum_required: false,
            delivered: false,
            progress: None,
            short_status: None,
            delivery_window: None,
            zip_error: None,
        };
        assert(d@.events =~= seq![]);
        d
    }
}

/// The outcome of a lookup step, its text taken as character sequences.
pub open spec fn outcome(r: Result<TrackingDetails, String>) -> Result<DetailsView, Seq<char>> {
    match r {
        Ok(d) => Ok(d@),
        Err(e) => Err(e@),
    }
}

// ---------------------------------------------------------------------------
// The JSON reply of the tracker, field by field. A field that the reply lacks
// is `None`, `false` or empty.
// ---------------------------------------------------------------------------

/// The reply of the search endpoint.
pub struct ApiResponse {
    pub sendungen: Vec<Shipment>,
}

/// One shipment of a reply.
pub struct Shipment {
    pub sendungsdetails: Option<Sendungsdetails>,
    /// `plzBenoetigt`
    pub plz_benoetigt: bool,
    /// `versandDatumBenoetigt`
    pub versand_datum_benoetigt: bool,
    /// `sendungNichtGefunden`
    pub sendung_nicht_gefunden: Option<SendungNichtGefunden>,
}

/// Why DHL found no shipment.
pub struct SendungNichtGefunden {
    /// `keineDatenVerfuegbar`
    pub keine_daten_verfuegbar: bool,
    /// `sendungsdatenZuAlt`
    pub sendungsdaten_zu_alt: bool,
}

/// The detail part of a shipment.
pub struct Sendungsdetails {
    pub sendungsverlauf: Option<Sendungsverlauf>,
    pub zustellung: Option<Zustellung>,
    /// `hasCensoredInformation`
    pub has_censored_information: bool,
    /// `istZugestellt`
    pub ist_zugestellt: bool,
}

/// The announced delivery window.
pub struct Zustellung {
    /// `zustellzeitfensterVon`
    pub zustellzeitfenster_von: Option<String>,
    /// `zustellzeitfensterBis`
    pub zustellzeitfenster_bis: Option<String>,
}

/// The shipment's timeline and progress.
pub struct Sendungsverlauf {
    pub events: Option<Vec<Event>>,
    /// The short status, e.g. "Vorbereitung für Weitertransport".
    pub status: Option<String>,
    pub fortschritt: Option<u32>,
    /// `maximalFortschritt`
    pub maximal_fortschritt: Option<u32>,
}

/// One timeline entry as DHL sends it.
pub struct Event {
    pub datum: Option<String>,
    pub ort: Option<String>,
    pub status: Option<String>,
}

/// The text of `o`, or `fallback` when it is absent.
pub open spec fn text_or(o: Option<String>, fallback: Seq<char>) -> Seq<char> {
    match o {
        Some(s) => s@,
        None => fallback,
    }
}

/// A timeline entry as the tracker shows it: each missing part replaced by a
/// placeholder, and a location that is only white space counted as missing.
pub open spec fn event_view(e: Event) -> EventView {
    EventView {
        timestamp: text_or(e.datum, "Time not available"@),
        location: if e.ort is Some && trimmed(e.ort->0@).len() > 0 {
            e.ort->0@
        } else {
            "Location not available"@
        },
        description: text_or(e.status, "No description available"@),
    }
}

/// The timeline of a shipment's detail part.
pub open spec fn verlauf_of(s: Shipment) -> Option<Sendungsverlauf> {
    match s.sendungsdetails {
        Some(d) => d.sendungsverlauf,
        None => None,
    }
}

/// The delivery part of a shipment's detail part.
pub open spec fn zustellung_of(s: Shipment) -> Option<Zustellung> {
    match s.sendungsdetails {
        Some(d) => d.zustellung,
        None => None,
    }
}

/// The details that a shipment reports.
pub open spec fn shipment_details(s: Shipment) -> DetailsView {
    DetailsView {
        events: match verlauf_of(s) {
            Some(v) => match v.events {
                Some(es) => es@.map_values(|e: Event| event_view(e)),
                None => seq![],
            },
            None => seq![],
        },
        censored: match s.sendungsdetails {
            Some(d) => d.has_censored_information,
            None => false,
        },
        plz_required: s.plz_benoetigt,
        versanddatum_required: s.versand_datum_benoetigt,
        delivered: match s.sendungsdetails {
            Some(d) => d.ist_zugestellt,
            None => false,
        },
        progress: match verlauf_of(s) {
            Some(v) => match (v.fortschritt, v.maximal_fortschritt) {
                (Some(step), Some(total)) => Some((step, total)),
                _ => None,
            },
            None => None,
        },
        short_status: match verlauf_of(s) {
            Some(v) => opt_text(v.status),
            None => None,
        },
        delivery_window: match zustellung_of(s) {
            Some(z) => match (z.zustellzeitfenster_von, z.zustellzeitfenster_bis) {
                (Some(from), Some(to)) => Some((from@, to@)),
                _ => None,
            },
            None => None,
        },
        zip_error: None,
    }
}

/// Whether DHL reports that it no longer holds data for the shipment.
pub open spec fn data_gone(s: Shipment) -> bool {
    s.sendung_nicht_gefunden matches Some(m) && (m.keine_daten_verfuegbar || m.sendungsdaten_zu_alt)
}

/// Whether details carry nothing to show: no events and no request for more input.
pub open spec fn reports_nothing(d: DetailsView) -> bool {
    d.events.len() == 0 && !d.censored && !d.plz_required && !d.versanddatum_required
}

/// What a reply amounts to: the details of its first shipment, or the reason
/// why there are none.
pub open spec fn response_details(r: ApiResponse) -> Result<DetailsView, Seq<char>> {
    if r.sendungen@.len() == 0 {
        Err("No shipment data returned"@)
    } else if data_gone(r.sendungen@[0]) {
        Err("DHL no longer holds data for this tracking number"@)
    } else if reports_nothing(shipment_details(r.sendungen@[0])) {
        Err("No events available for this tracking number"@)
    } else {
        Ok(shipment_details(r.sendungen@[0]))
    }
}

fn text_or_else(o: &Option<String>, fallback: &str) -> (r: String)
    ensures
        r@ == text_or(*o, fallback@),
{
    match o {
        Some(s) => s.clone(),
        None => String::from_str(fallback),
    }
}

fn convert_event(e: &Event) -> (r: TrackingEvent)
    ensures
        r@ == event_view(*e),
{
    let location = match &e.ort {
        Some(ort) => {
            if is_blank(ort.as_str()) {
                String::from_str("Location not available")
            } else {
                ort.clone()
            }
        },
        None => String::from_str("Location not available"),
    };
    TrackingEvent {
        timestamp: text_or_else(&e.datum, "Time not available"),
        location,
        description: text_or_else(&e.status, "No description available"),
    }
}

fn convert_events(events: &Vec<Event>) -> (r: Vec<TrackingEvent>)
    ensures
        event_views(r@) == events@.map_values(|e: Event| event_view(e)),
{
    let mut r: Vec<TrackingEvent> = Vec::new();
    let mut i: usize = 0;
    while i < events.len()
        invariant
            i <= events.len(),
            r@.len() == i,
            forall|k: int| 0 <= k < i ==> (#[trigger] r@[k])@ == event_view(events@[k]),
        decreases events.len() - i,
    {
        let e = convert_event(&events[i]);
        r.push(e);
        i = i + 1;
    }
    assert(event_views(r@) =~= events@.map_values(|e: Event| event_view(e)));
    r
}

fn opt_string(o: &Option<String>) -> (r: Option<String>)
    ensures
        opt_text(r) == opt_text(*o),
{
    match o {
        Some(s) => Some(s.clone()),
        None => None,
    }
}

fn shipment_to_details(s: &Shipment) -> (d: TrackingDetails)
    ensures
        d@ == shipment_details(*s),
{
    let mut d = TrackingDetails::default();
    if let Some(details) = &s.sendungsdetails {
        d.censored = details.has_censored_information;
        d.delivered = details.ist_zugestellt;
        if let Some(verlauf) = &details.sendungsverlauf {
            if let Some(events) = &verlauf.events {
                d.events = convert_events(events);
            }
            if let (Some(step), Some(total)) = (verlauf.fortschritt, verlauf.maximal_fortschritt) {
                d.progress = Some((step, total));
            }
            d.short_status = opt_string(&verlauf.status);
        }
        if let Some(zustellung) = &details.zustellung {
            if let (Some(from), Some(to)) = (
                &zustellung.zustellzeitfenster_von,
                &zustellung.zustellzeitfenster_bis,
            ) {
                d.delivery_window = Some((from.clone(), to.clone()));
            }
        }
    }
    d.plz_required = s.plz_benoetigt;
    d.versanddatum_required = s.versand_datum_benoetigt;
    assert(d@.events =~= shipment_details(*s).events);
    d
}

/// Turns a reply of the tracker into the details of its first shipment.
///
/// Fails when the reply holds no shipment, when DHL no longer holds data for
/// it, or when it reports neither events nor a request for more input.
pub fn details_from_response(parsed: ApiResponse) -> (res: Result<TrackingDetails, String>)
    ensures
        outcome(res) == response_details(parsed),
{
    if parsed.sendungen.len() == 0 {
        return Err(String::from_str("No shipment data returned"));
    }
    let shipment = &parsed.sendungen[0];
    if let Some(missing) = &shipment.sendung_nicht_gefunden {
        if missing.keine_daten_verfuegbar || missing.sendungsdaten_zu_alt {
            return Err(String::from_str("DHL no longer holds data for this tracking number"));
        }
    }
    let details = shipment_to_details(shipment);
    if details.events.len() == 0 && !details.censored && !details.plz_required
        && !details.versanddatum_required {
        return Err(String::from_str("No events available for this tracking number"));
    }
    Ok(details)
}

/// Whether an HTTP status is a client or server error (400 to 599).
pub open spec fn is_error_status(status: u16) -> bool {
    400 <= status <= 599
}

/// Whether an HTTP status reports success (200 to 299).
pub open spec fn is_success_status(status: u16) -> bool {
    200 <= status <= 299
}

/// A reply of the search endpoint: its HTTP status, and its body read as a
/// tracker reply (`None` when the body is no such JSON).
pub struct ApiReply {
    pub status: u16,
    pub body: Option<ApiResponse>,
}

/// What the answer of the search request amounts to. An `Err` carries the
/// reason why the request itself failed.
pub open spec fn api_details(reply: Result<ApiReply, String>) -> Result<DetailsView, Seq<char>> {
    match reply {
        Err(e) => Err(e@),
        Ok(r) => if is_error_status(r.status) {
            Err("Tracking server returned an error status"@)
        } else {
            match r.body {
                None => Err("Failed to parse tracking JSON"@),
                Some(body) => response_details(body),
            }
        },
    }
}

/// The address of the anonymous search for a tracking number.
pub open spec fn search_url_of(tracking_id: Seq<char>) -> Seq<char> {
    "https://www.dhl.de/int-verfolgen/data/search?piececode="@ + tracking_id
        + "&noRedirect=true&language=de"@
}

/// The address of the anonymous search for a tracking number.
pub fn search_url(tracking_id: &str) -> (r: String)
    ensures
        r@ == search_url_of(tracking_id@),
{
    concat3(
        "https://www.dhl.de/int-verfolgen/data/search?piececode=",
        tracking_id,
        "&noRedirect=true&language=de",
    )
}

/// Interprets the answer of the anonymous search (see [`search_url`]).
pub fn fetch_via_api(reply: Result<ApiReply, String>) -> (res: Result<TrackingDetails, String>)
    ensures
        outcome(res) == api_details(reply),
{
    match reply {
        Err(e) => Err(e),
        Ok(r) => {
            if 400 <= r.status && r.status <= 599 {
                Err(String::from_str("Tracking server returned an error status"))
            } else {
                match r.body {
                    None => Err(String::from_str("Failed to parse tracking JSON")),
                    Some(body) => details_from_response(body),
                }
            }
        },
    }
}

/// What a browser read from the visible text of a tracking page: the current
/// status, the first date and time, and the first line with a postcode.
pub struct PageSnapshot {
    pub status: Option<String>,
    pub timestamp: Option<String>,
    pub location_hint: Option<String>,
}

/// The details that a page snapshot yields: a single event built from it, or
/// an error when the page showed neither a status nor a time.
pub open spec fn snapshot_details(s: PageSnapshot) -> Result<DetailsView, Seq<char>> {
    if s.status is None && s.timestamp is None {
        Err("Headless extraction returned no tracking details"@)
    } else {
        Ok(
            DetailsView {
                events: seq![
                    EventView {
                        timestamp: text_or(s.timestamp, "Zeit nicht verfügbar"@),
                        location: text_or(s.location_hint, "Ort nicht verfügbar"@),
                        description: text_or(s.status, "Status nicht verfügbar"@),
                    },
                ],
                ..empty_details()
            },
        )
    }
}

/// The single event that a page snapshot yields.
pub fn snapshot_event(s: &PageSnapshot) -> (e: TrackingEvent)
    ensures
        e@ == (EventView {
            timestamp: text_or(s.timestamp, "Zeit nicht verfügbar"@),
            location: text_or(s.location_hint, "Ort nicht verfügbar"@),
            description: text_or(s.status, "Status nicht verfügbar"@),
        }),
{
    TrackingEvent {
        timestamp: text_or_else(&s.timestamp, "Zeit nicht verfügbar"),
        location: text_or_else(&s.location_hint, "Ort nicht verfügbar"),
        description: text_or_else(&s.status, "Status nicht verfügbar"),
    }
}

/// Turns what a browser read from the tracking page into details.
pub fn details_from_snapshot(s: PageSnapshot) -> (res: Result<TrackingDetails, String>)
    ensures
        outcome(res) == snapshot_details(s),
{
    if s.status.is_none() && s.timestamp.is_none() {
        return Err(String::from_str("Headless extraction returned no tracking details"));
    }
    let mut d = TrackingDetails::default();
    d.events.push(snapshot_event(&s));
    assert(d@.events =~= snapshot_details(s)->Ok_0.events);
    Ok(d)
}

// ---------------------------------------------------------------------------
// The lookup: which request comes next, and what the answers amount to.
// ---------------------------------------------------------------------------

/// The address of the tracking page that a browser opens when the JSON
/// endpoint fails.
pub open spec fn page_url_of(tracking_id: Seq<char>) -> Seq<char> {
    "https://www.dhl.de/de/privatkunden/pakete-empfangen/verfolgen.html?piececode="@ + tracking_id
}

/// The address of the session configuration that hands out the CSRF token.
pub open spec fn session_url_of() -> Seq<char> {
    "https://www.dhl.de/int-verfolgen/data/config?domain=de&language=de"@
}

/// The address that takes a postcode for the detail view.
pub open spec fn submit_url_of() -> Seq<char> {
    "https://www.dhl.de/int-verfolgen/data/shipment?language=de"@
}

fn page_url(tracking_id: &str) -> (r: String)
    ensures
        r@ == page_url_of(tracking_id@),
{
    concat2(
        "https://www.dhl.de/de/privatkunden/pakete-empfangen/verfolgen.html?piececode=",
        tracking_id,
    )
}

fn session_url() -> (r: String)
    ensures
        r@ == session_url_of(),
{
    String::from_str("https://www.dhl.de/int-verfolgen/data/config?domain=de&language=de")
}

fn submit_url() -> (r: String)
    ensures
        r@ == submit_url_of(),
{
    String::from_str("https://www.dhl.de/int-verfolgen/data/shipment?language=de")
}

/// A request that the caller performs for a lookup.
pub enum DhlRequest {
    /// `GET` the anonymous view from this address.
    Search { url: String },
    /// Open this tracking page in a headless browser and read its text.
    Headless { url: String },
    /// `GET` the session configuration from this address.
    Session { url: String },
    /// `POST` the postcode to this address, as the JSON object
    /// `{"piececode": tracking_id, "zip": zip, "international": false}`, with
    /// the CSRF token in the `verfolgen-CSRF-token` header and the cookies in
    /// the `Cookie` header.
    SubmitZip {
        url: String,
        tracking_id: String,
        zip: String,
        csrf_token: String,
        cookies: String,
    },
    /// Format these unix seconds as the local time of day, `%H:%M`.
    LocalTime { seconds: i64 },
}

/// A [`DhlRequest`] with its text taken as character sequences.
pub enum RequestView {
    Search(Seq<char>),
    Headless(Seq<char>),
    Session(Seq<char>),
    SubmitZip {
        url: Seq<char>,
        tracking_id: Seq<char>,
        zip: Seq<char>,
        csrf_token: Seq<char>,
        cookies: Seq<char>,
    },
    LocalTime(i64),
}

impl View for DhlRequest {
    type V = RequestView;

    open spec fn view(&self) -> RequestView {
        match self {
            DhlRequest::Search { url } => RequestView::Search(url@),
            DhlRequest::Headless { url } => RequestView::Headless(url@),
            DhlRequest::Session { url } => RequestView::Session(url@),
            DhlRequest::SubmitZip { url, tracking_id, zip, csrf_token, cookies } =>
                RequestView::SubmitZip {
                url: url@,
                tracking_id: tracking_id@,
                zip: zip@,
                csrf_token: csrf_token@,
                cookies: cookies@,
            },
            DhlRequest::LocalTime { seconds } => RequestView::LocalTime(*seconds),
        }
    }
}

/// The answer to a [`DhlRequest`], of the same kind. An `Err` carries the
/// reason why the request itself failed.
pub enum DhlReply {
    Search(Result<ApiReply, String>),
    Headless(Result<PageSnapshot, String>),
    Session(Result<SessionReply, String>),
    SubmitZip(Result<ZipReply, String>),
    /// The local time of day, or `None` when the seconds could not be formatted.
    LocalTime(Option<String>),
}

/// What a lookup asks for next: a request, or its result.
pub enum DhlStep {
    Request(DhlRequest),
    Done(Result<TrackingDetails, String>),
}

/// A [`DhlStep`] with its text taken as character sequences.
pub enum StepView {
    Request(RequestView),
    Done(Result<DetailsView, Seq<char>>),
}

impl View for DhlStep {
    type V = StepView;

    open spec fn view(&self) -> StepView {
        match self {
            DhlStep::Request(r) => StepView::Request(r@),
            DhlStep::Done(r) => StepView::Done(outcome(*r)),
        }
    }
}

/// Where a lookup stands.
pub enum DhlStage {
    /// Waiting for the anonymous view.
    Search,
    /// The JSON endpoint failed for this reason; waiting for the browser.
    Headless(String),
    /// The anonymous view withholds something; waiting for the session.
    Session(TrackingDetails),
    /// Waiting for DHL's answer to the postcode.
    SubmitZip(TrackingDetails),
    /// DHL blocks postcode lookups until this timestamp; waiting for its local
    /// time of day.
    LocalTime(TrackingDetails, i64),
    /// The lookup has its result.
    Finished,
}

/// A [`DhlStage`] with its text taken as character sequences.
pub enum StageView {
    Search,
    Headless(Seq<char>),
    Session(DetailsView),
    SubmitZip(DetailsView),
    LocalTime(DetailsView, i64),
    Finished,
}

impl View for DhlStage {
    type V = StageView;

    open spec fn view(&self) -> StageView {
        match self {
            DhlStage::Search => StageView::Search,
            DhlStage::Headless(e) => StageView::Headless(e@),
            DhlStage::Session(a) => StageView::Session(a@),
            DhlStage::SubmitZip(a) => StageView::SubmitZip(a@),
            DhlStage::LocalTime(a, s) => StageView::LocalTime(a@, *s),
            DhlStage::Finished => StageView::Finished,
        }
    }
}

/// A lookup of one DHL tracking number, with the postcode that may unlock the
/// detail view. Its state always satisfies [`LookupView::wf`].
pub struct DhlLookup {
    tracking_id: String,
    zip: Option<String>,
    stage: DhlStage,
}

/// A [`DhlLookup`] with its text taken as character sequences.
pub struct LookupView {
    pub tracking_id: Seq<char>,
    pub zip: Option<Seq<char>>,
    pub stage: StageView,
}

impl View for DhlLookup {
    type V = LookupView;

    closed spec fn view(&self) -> LookupView {
        LookupView { tracking_id: self.tracking_id@, zip: opt_text(self.zip), stage: self.stage@ }
    }
}

/// Whether the anonymous view withholds something that a postcode may unlock.
pub open spec fn withholds(d: DetailsView) -> bool {
    d.censored || d.plz_required
}

/// Whether `s` is text without surrounding white space and not empty.
pub open spec fn is_clean(s: Seq<char>) -> bool {
    trimmed(s) == s && s.len() > 0
}

/// The anonymous view that a lookup keeps while it tries the postcode.
pub open spec fn anonymous_of(stage: StageView) -> Option<DetailsView> {
    match stage {
        StageView::Session(a) => Some(a),
        StageView::SubmitZip(a) => Some(a),
        StageView::LocalTime(a, _) => Some(a),
        _ => None,
    }
}

impl LookupView {
    /// What every lookup keeps: a clean tracking number, a clean postcode if
    /// any, and a postcode stage only when a postcode was given and the
    /// anonymous view withholds something.
    pub open spec fn wf(self) -> bool {
        &&& is_clean(self.tracking_id)
        &&& (self.zip matches Some(z) ==> is_clean(z))
        &&& (anonymous_of(self.stage) matches Some(a) ==> withholds(a) && self.zip is Some)
    }

    /// How many answers a lookup may still need at most.
    pub open spec fn rank(self) -> nat {
        match self.stage {
            StageView::Search => 4,
            StageView::Session(_) => 3,
            StageView::SubmitZip(_) => 2,
            StageView::Headless(_) => 1,
            StageView::LocalTime(_, _) => 1,
            StageView::Finished => 0,
        }
    }

    /// The same lookup at another stage.
    pub open spec fn at(self, stage: StageView) -> LookupView {
        LookupView { stage, ..self }
    }
}

/// Whether `reply` answers the request that a lookup at `stage` waits for.
pub open spec fn expects(stage: StageView, reply: DhlReply) -> bool {
    match (stage, reply) {
        (StageView::Search, DhlReply::Search(_)) => true,
        (StageView::Headless(_), DhlReply::Headless(_)) => true,
        (StageView::Session(_), DhlReply::Session(_)) => true,
        (StageView::SubmitZip(_), DhlReply::SubmitZip(_)) => true,
        (StageView::LocalTime(_, _), DhlReply::LocalTime(_)) => true,
        _ => false,
    }
}

/// The error when both the JSON endpoint and the browser failed.
pub open spec fn fallback_failed(api_error: Seq<char>, page_error: Seq<char>) -> Seq<char> {
    "API failed: "@ + api_error + "; headless Chrome failed: "@ + page_error
}

/// The result of a lookup whose JSON endpoint failed with `api_error`, given
/// what the browser read.
pub open spec fn fallback_result(api_error: Seq<char>, page: Result<PageSnapshot, String>) -> Result<
    DetailsView,
    Seq<char>,
> {
    match page {
        Err(h) => Err(fallback_failed(api_error, h@)),
        Ok(s) => match snapshot_details(s) {
            Err(h) => Err(fallback_failed(api_error, h)),
            Ok(d) => if d.events.len() == 0 {
                Err("No events available after API and headless fallback attempts"@)
            } else {
                Ok(d)
            },
        },
    }
}

/// The next state of a lookup and what it asks for, given the answer it waits for.
pub open spec fn lookup_next(l: LookupView, reply: DhlReply) -> (LookupView, StepView) {
    let finished = l.at(StageView::Finished);
    match (l.stage, reply) {
        (StageView::Search, DhlReply::Search(r)) => match api_details(r) {
            Ok(anonymous) => if !withholds(anonymous) || l.zip is None {
                (finished, StepView::Done(Ok(anonymous)))
            } else {
                (
                    l.at(StageView::Session(anonymous)),
                    StepView::Request(RequestView::Session(session_url_of())),
                )
            },
            Err(e) => (
                l.at(StageView::Headless(e)),
                StepView::Request(RequestView::Headless(page_url_of(l.tracking_id))),
            ),
        },
        (StageView::Headless(api_error), DhlReply::Headless(r)) => (
            finished,
            StepView::Done(fallback_result(api_error, r)),
        ),
        (StageView::Session(anonymous), DhlReply::Session(r)) => match session_of(r) {
            Err(e) => (finished, StepView::Done(Ok(with_zip_error(anonymous, e)))),
            Ok((token, cookies)) => (
                l.at(StageView::SubmitZip(anonymous)),
                StepView::Request(
                    RequestView::SubmitZip {
                        url: submit_url_of(),
                        tracking_id: l.tracking_id,
                        zip: l.zip->0,
                        csrf_token: token,
                        cookies,
                    },
                ),
            ),
        },
        (StageView::SubmitZip(anonymous), DhlReply::SubmitZip(r)) => match zip_verdict(r) {
            ZipVerdictView::Unlocked(d) => (finished, StepView::Done(Ok(d))),
            ZipVerdictView::Refused(e) => (finished, StepView::Done(Ok(with_zip_error(anonymous, e)))),
            ZipVerdictView::Blocked(stamp) => (
                l.at(StageView::LocalTime(anonymous, stamp)),
                StepView::Request(RequestView::LocalTime(block_seconds(stamp))),
            ),
        },
        (StageView::LocalTime(anonymous, stamp), DhlReply::LocalTime(local)) => (
            finished,
            StepView::Done(
                Ok(with_zip_error(anonymous, blocked_message(block_until(stamp, local)))),
            ),
        ),
        _ => (l, StepView::Done(Err("unexpected answer"@))),
    }
}

/// The postcode that a lookup keeps: the given one without surrounding white
/// space, unless nothing else is left of it.
pub open spec fn kept_zip(zip: Option<&str>) -> Option<Seq<char>> {
    match zip {
        Some(z) => if trimmed(z@).len() > 0 {
            Some(trimmed(z@))
        } else {
            None
        },
        None => None,
    }
}

/// Starts the lookup of a DHL tracking number: the lookup and its first
/// request, the anonymous search. The caller performs each request and hands
/// the answer to [`DhlLookup::advance`] until the lookup is done.
///
/// `zip` is the recipient postcode. DHL only hands out the uncensored detail
/// view in exchange for it, and only for shipments that actually withhold
/// something. A tracking number that is empty or only white space is refused.
pub fn fetch_tracking_events(tracking_id: &str, zip: Option<&str>) -> (res: Result<
    (DhlLookup, DhlRequest),
    String,
>)
    ensures
        trimmed(tracking_id@).len() == 0 <==> res is Err,
        res matches Err(e) ==> e@ == "Tracking number is empty"@,
        res matches Ok((l, req)) ==> {
            &&& l@ == (LookupView {
                tracking_id: trimmed(tracking_id@),
                zip: kept_zip(zip),
                stage: StageView::Search,
            })
            &&& req@ == RequestView::Search(search_url_of(trimmed(tracking_id@)))
            &&& l@.wf()
        },
{
    let trimmed_id = trim(tracking_id);
    if trimmed_id.unicode_len() == 0 {
        return Err(String::from_str("Tracking number is empty"));
    }
    let kept = match zip {
        Some(z) => {
            let t = trim(z);
            if t.unicode_len() == 0 {
                None
            } else {
                Some(t)
            }
        },
        None => None,
    };
    proof {
        lemma_trimmed_is_clean(tracking_id@);
        if zip is Some {
            lemma_trimmed_is_clean(zip->0@);
        }
    }
    let url = search_url(trimmed_id.as_str());
    Ok((DhlLookup { tracking_id: trimmed_id, zip: kept, stage: DhlStage::Search }, DhlRequest::Search { url }))
}

proof fn lemma_trim_start_idempotent(s: Seq<char>)
    ensures
        trim_start(trim_start(s)) == trim_start(s),
        trim_start(s).len() > 0 ==> !is_ws(trim_start(s)[0]),
    decreases s.len(),
{
    if s.len() > 0 && is_ws(s[0]) {
        lemma_trim_start_idempotent(s.drop_first());
    }
}

proof fn lemma_trim_end_keeps_start(s: Seq<char>)
    requires
        s.len() > 0 ==> !is_ws(s[0]),
    ensures
        trim_end(s).len() > 0 ==> !is_ws(trim_end(s)[0]),
        trim_end(s).len() > 0 ==> !is_ws(trim_end(s).last()),
        trim_end(s).len() > 0 ==> trim_end(s)[0] == s[0],
    decreases s.len(),
{
    if s.len() > 0 && is_ws(s.last()) {
        lemma_trim_end_keeps_start(s.drop_last());
    }
}

proof fn lemma_trimmed_is_clean(s: Seq<char>)
    ensures
        trimmed(trimmed(s)) == trimmed(s),
{
    let t = trimmed(s);
    lemma_trim_start_idempotent(s);
    lemma_trim_end_keeps_start(trim_start(s));
    if t.len() > 0 {
        assert(trim_start(t) == t);
        assert(trim_end(t) == t);
    } else {
        assert(trim_start(t) =~= t);
        assert(trim_end(t) =~= t);
    }
}

impl DhlLookup {
    #[verifier::type_invariant]
    closed spec fn well_formed(&self) -> bool {
        self@.wf()
    }

    /// The tracking number, without surrounding white space.
    pub fn tracking_id(&self) -> (r: &str)
        ensures
            r@ == self@.tracking_id,
    {
        self.tracking_id.as_str()
    }

    /// The postcode that may unlock the detail view, without surrounding white space.
    pub fn zip(&self) -> (r: Option<String>)
        ensures
            opt_text(r) == self@.zip,
    {
        match &self.zip {
            Some(z) => Some(z.clone()),
            None => None,
        }
    }

    /// Where the lookup stands.
    pub fn stage(&self) -> (r: &DhlStage)
        ensures
            r@ == self@.stage,
    {
        &self.stage
    }

    /// Whether `reply` answers the request that this lookup waits for.
    pub fn expects_reply(&self, reply: &DhlReply) -> (b: bool)
        ensures
            b == expects(self@.stage, *reply),
    {
        match (&self.stage, reply) {
            (DhlStage::Search, DhlReply::Search(_)) => true,
            (DhlStage::Headless(_), DhlReply::Headless(_)) => true,
            (DhlStage::Session(_), DhlReply::Session(_)) => true,
            (DhlStage::SubmitZip(_), DhlReply::SubmitZip(_)) => true,
            (DhlStage::LocalTime(_, _), DhlReply::LocalTime(_)) => true,
            _ => false,
        }
    }

    /// Takes the answer to the request the lookup waits for, and returns the
    /// lookup's next state and what it asks for next.
    ///
    /// A failed JSON endpoint falls back to the browser. A postcode is only
    /// tried when the anonymous view withholds something, and when it does not
    /// unlock more the anonymous view is kept with the reason.
    pub fn advance(self, reply: DhlReply) -> (r: (DhlLookup, DhlStep))
        requires
            expects(self@.stage, reply),
        ensures
            (r.0@, r.1@) == lookup_next(self@, reply),
            r.0@.wf(),
    {
        proof {
            use_type_invariant(&self);
        }
        let DhlLookup { tracking_id, zip, stage } = self;
        match (stage, reply) {
            (DhlStage::Search, DhlReply::Search(r)) => match fetch_via_api(r) {
                Ok(anonymous) => {
                    if (!anonymous.censored && !anonymous.plz_required) || zip.is_none() {
                        (
                            DhlLookup { tracking_id, zip, stage: DhlStage::Finished },
                            DhlStep::Done(Ok(anonymous)),
                        )
                    } else {
                        (
                            DhlLookup { tracking_id, zip, stage: DhlStage::Session(anonymous) },
                            DhlStep::Request(DhlRequest::Session { url: session_url() }),
                        )
                    }
                },
                Err(e) => {
                    let url = page_url(tracking_id.as_str());
                    (
                        DhlLookup { tracking_id, zip, stage: DhlStage::Headless(e) },
                        DhlStep::Request(DhlRequest::Headless { url }),
                    )
                },
            },
            (DhlStage::Headless(api_error), DhlReply::Headless(r)) => {
                let ghost page = r;
                let result = match r {
                    Err(h) => Err(
                        concat3(
                            "API failed: ",
                            api_error.as_str(),
                            concat2("; headless Chrome failed: ", h.as_str()).as_str(),
                        ),
                    ),
                    Ok(snapshot) => match details_from_snapshot(snapshot) {
                        Err(h) => Err(
                            concat3(
                                "API failed: ",
                                api_error.as_str(),
                                concat2("; headless Chrome failed: ", h.as_str()).as_str(),
                            ),
                        ),
                        Ok(d) => {
                            if d.events.len() == 0 {
                                Err(
                                    String::from_str(
                                        "No events available after API and headless fallback attempts",
                                    ),
                                )
                            } else {
                                Ok(d)
                            }
                        },
                    },
                };
                proof {
                    assert(result is Ok ==> result->Ok_0@.events.len() == result->Ok_0.events@.len());
                    if result is Err {
                        let m = result->Err_0@;
                        match page {
                            Err(h) => {
                                assert(m =~= fallback_failed(api_error@, h@));
                            },
                            Ok(snapshot) => {
                                if snapshot_details(snapshot) is Err {
                                    assert(m =~= fallback_failed(
                                        api_error@,
                                        snapshot_details(snapshot)->Err_0,
                                    ));
                                }
                            },
                        }
                    }
                    assert(outcome(result) == fallback_result(api_error@, page));
                }
                (DhlLookup { tracking_id, zip, stage: DhlStage::Finished }, DhlStep::Done(result))
            },
            (DhlStage::Session(anonymous), DhlReply::Session(r)) => match session_from_reply(r) {
                Err(e) => {
                    let d = keep_anonymous(anonymous, e);
                    (DhlLookup { tracking_id, zip, stage: DhlStage::Finished }, DhlStep::Done(Ok(d)))
                },
                Ok((csrf_token, cookies)) => {
                    let z = match &zip {
                        Some(z) => z.clone(),
                        None => String::new(),
                    };
                    let request = DhlRequest::SubmitZip {
                        url: submit_url(),
                        tracking_id: tracking_id.clone(),
                        zip: z,
                        csrf_token,
                        cookies,
                    };
                    (
                        DhlLookup { tracking_id, zip, stage: DhlStage::SubmitZip(anonymous) },
                        DhlStep::Request(request),
                    )
                },
            },
            (DhlStage::SubmitZip(anonymous), DhlReply::SubmitZip(r)) => match judge_zip_reply(r) {
                ZipVerdict::Unlocked(d) => (
                    DhlLookup { tracking_id, zip, stage: DhlStage::Finished },
                    DhlStep::Done(Ok(d)),
                ),
                ZipVerdict::Refused(e) => {
                    let d = keep_anonymous(anonymous, e);
                    (DhlLookup { tracking_id, zip, stage: DhlStage::Finished }, DhlStep::Done(Ok(d)))
                },
                ZipVerdict::Blocked(stamp) => {
                    let seconds = seconds_of(stamp);
                    (
                        DhlLookup { tracking_id, zip, stage: DhlStage::LocalTime(anonymous, stamp) },
                        DhlStep::Request(DhlRequest::LocalTime { seconds }),
                    )
                },
            },
            (DhlStage::LocalTime(anonymous, stamp), DhlReply::LocalTime(local)) => {
                let message = blocked_until(stamp, local);
                let d = keep_anonymous(anonymous, message);
                (DhlLookup { tracking_id, zip, stage: DhlStage::Finished }, DhlStep::Done(Ok(d)))
            },
            (stage, _) => {
                (
                    DhlLookup { tracking_id, zip, stage },
                    DhlStep::Done(Err(String::from_str("unexpected answer"))),
                )
            },
        }
    }
}

// ---------------------------------------------------------------------------
// What every lookup keeps.
// ---------------------------------------------------------------------------

/// Details read from a reply always show something: events, or a request for a
/// postcode or the shipping date. They never carry a postcode error.
pub proof fn law_response_details_show_something(r: ApiResponse)
    ensures
        response_details(r) matches Ok(d) ==> !reports_nothing(d) && d.zip_error is None,
{
}

/// Every event read from a reply has a location that is not blank: a blank or
/// missing one is replaced by "Location not available".
pub proof fn law_event_location_not_blank(e: Event)
    ensures
        trimmed(event_view(e).location).len() > 0,
{
    if !(e.ort is Some && trimmed(e.ort->0@).len() > 0) {
        reveal_strlit("Location not available");
        let s = "Location not available"@;
        assert(!is_ws(s[0]));
        assert(trim_start(s) == s);
        assert(!is_ws(s.last()));
        assert(trim_end(s) == s);
    }
}

/// Each answer keeps a lookup well formed.
pub proof fn law_lookup_stays_wf(l: LookupView, reply: DhlReply)
    requires
        l.wf(),
        expects(l.stage, reply),
    ensures
        lookup_next(l, reply).0.wf(),
{
}

/// A postcode is only spent when DHL withholds something: the session and the
/// postcode itself are only requested when a postcode was given and the
/// anonymous view is censored or asks for it, and the postcode sent is the
/// given one for the looked-up tracking number.
pub proof fn law_postcode_only_when_withheld(l: LookupView, reply: DhlReply)
    requires
        l.wf(),
        expects(l.stage, reply),
    ensures
        ({
            let (next, step) = lookup_next(l, reply);
            &&& (step matches StepView::Request(RequestView::Session(_)) ==> {
                &&& anonymous_of(next.stage) matches Some(a)
                &&& withholds(a)
                &&& l.zip is Some
            })
            &&& (step matches StepView::Request(RequestView::SubmitZip { tracking_id, zip, .. }) ==> {
                &&& anonymous_of(next.stage) matches Some(a)
                &&& withholds(a)
                &&& l.zip == Some(zip)
                &&& tracking_id == l.tracking_id
            })
        }),
{
}

/// Once the anonymous view is in hand, the lookup does not fail: it ends with
/// the unlocked details, or with the anonymous view and the reason why the
/// postcode did not unlock more.
pub proof fn law_postcode_failure_keeps_anonymous(l: LookupView, reply: DhlReply)
    requires
        l.wf(),
        expects(l.stage, reply),
        anonymous_of(l.stage) is Some,
    ensures
        ({
            let a = anonymous_of(l.stage)->0;
            lookup_next(l, reply).1 matches StepView::Done(res) ==> {
                &&& res is Ok
                &&& res->Ok_0.zip_error matches Some(e) ==> res->Ok_0 == with_zip_error(a, e)
            }
        }),
{
}

/// A lookup ends: each answer brings it closer to its end, it is finished
/// exactly when it reports its result, and a finished lookup waits for
/// nothing. So a lookup needs at most four answers after its first request.
pub proof fn law_lookup_ends(l: LookupView, reply: DhlReply)
    requires
        expects(l.stage, reply),
    ensures
        lookup_next(l, reply).0.rank() < l.rank(),
        lookup_next(l, reply).1 is Done <==> lookup_next(l, reply).0.stage is Finished,
        !expects(StageView::Finished, reply),
        l.rank() <= 4,
{
}

/// The browser fallback yields exactly one event, built from the page.
pub proof fn law_fallback_single_event(api_error: Seq<char>, page: Result<PageSnapshot, String>)
    ensures
        fallback_result(api_error, page) matches Ok(d) ==> d.events.len() == 1,
{
}

/// Details read from a reply take each flag and value from the reply's first
/// shipment: the postcode and shipping-date requests, the censoring and
/// delivery flags, the short status, the progress as (step, total) in that
/// order, and the delivery window as (from, to) in that order.
pub proof fn law_details_follow_reply(r: ApiResponse)
    requires
        response_details(r) is Ok,
    ensures
        response_details(r)->Ok_0.plz_required == r.sendungen@[0].plz_benoetigt,
        response_details(r)->Ok_0.versanddatum_required == r.sendungen@[0].versand_datum_benoetigt,
        response_details(r)->Ok_0.censored == (r.sendungen@[0].sendungsdetails matches Some(sd)
            && sd.has_censored_information),
        response_details(r)->Ok_0.delivered == (r.sendungen@[0].sendungsdetails matches Some(sd)
            && sd.ist_zugestellt),
        r.sendungen@[0].sendungsdetails matches Some(sd) ==> (sd.sendungsverlauf matches Some(v)
            ==> {
            &&& (v.fortschritt matches Some(step) ==> (v.maximal_fortschritt matches Some(total)
                ==> response_details(r)->Ok_0.progress == Some((step, total))))
            &&& (v.fortschritt is None || v.maximal_fortschritt is None
                ==> response_details(r)->Ok_0.progress is None)
            &&& response_details(r)->Ok_0.short_status == opt_text(v.status)
        }),
        r.sendungen@[0].sendungsdetails matches Some(sd) ==> (sd.zustellung matches Some(z) ==> (
        z.zustellzeitfenster_von matches Some(from) ==> (z.zustellzeitfenster_bis matches Some(to)
            ==> response_details(r)->Ok_0.delivery_window == Some((from@, to@))))),
        response_details(r)->Ok_0.zip_error is None,
{
}

/// With a postcode given, the anonymous view decides: when it is censored or
/// DHL asks for the postcode, the lookup goes on to the session request that
/// spends the postcode; only when neither is the case does it end at once with
/// the anonymous view.
pub proof fn law_postcode_tried_when_asked(l: LookupView, reply: Result<ApiReply, String>)
    requires
        l.stage is Search,
        l.zip is Some,
        api_details(reply) is Ok,
    ensures
        ({
            let a = api_details(reply)->Ok_0;
            let (next, step) = lookup_next(l, DhlReply::Search(reply));
            &&& (a.censored || a.plz_required) ==> {
                &&& step == StepView::Request(RequestView::Session(session_url_of()))
                &&& next.stage == StageView::Session(a)
            }
            &&& (!a.censored && !a.plz_required) ==> {
                &&& step == StepView::Done(Ok(a))
                &&& next.stage is Finished
            }
        }),
{
}

/// Without a postcode the anonymous view is the result, whatever it withholds.
pub proof fn law_no_postcode_no_request(l: LookupView, reply: Result<ApiReply, String>)
    requires
        l.stage is Search,
        l.zip is None,
        api_details(reply) is Ok,
    ensures
        lookup_next(l, DhlReply::Search(reply)).1 == StepView::Done(Ok(api_details(reply)->Ok_0)),
{
}

} // verus!
