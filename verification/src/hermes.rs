//! Hermes tracking: the timeline of Hermes' JSON endpoint, oldest entry
//! first, and the lookup that falls back to the tracking page.
use vstd::prelude::*;
use vstd::string::*;
use crate::dhl::{
    details_from_snapshot, event_views, fallback_failed, opt_text, snapshot_details, text_or,
    EventView, PageSnapshot, TrackingEvent,
};
use crate::text::{concat2, concat3, trim, trimmed};

verus! {

/// One shipment of Hermes' reply.
pub struct Shipment {
    /// `parcelProgress`
    pub parcel_progress: Option<Vec<Progress>>,
}

/// One timeline entry as Hermes sends it.
pub struct Progress {
    pub timestamp: Option<String>,
    /// `historyText`
    pub history_text: Option<String>,
    pub status: Option<String>,
}

/// Whether `a` comes no later than `b` in lexicographic order of their
/// characters, the order in which `String` compares (UTF-8 keeps the order of
/// code points).
pub open spec fn text_le(a: Seq<char>, b: Seq<char>) -> bool
    decreases a.len(),
{
    if a.len() == 0 {
        true
    } else if b.len() == 0 {
        false
    } else if a[0] != b[0] {
        (a[0] as int) < (b[0] as int)
    } else {
        text_le(a.drop_first(), b.drop_first())
    }
}

/// The order of optional timestamps that `Option<String>` compares by: a
/// missing timestamp first, then the timestamps in text order.
pub open spec fn key_le(a: Option<Seq<char>>, b: Option<Seq<char>>) -> bool {
    match (a, b) {
        (None, _) => true,
        (Some(_), None) => false,
        (Some(x), Some(y)) => text_le(x, y),
    }
}

/// The timestamp that an entry is ordered by.
pub open spec fn time_key(p: Progress) -> Option<Seq<char>> {
    opt_text(p.timestamp)
}

/// `order` lists the indices of `items` so that their timestamps ascend, and
/// entries with the same timestamp keep their order: the order of a stable sort.
pub open spec fn stable_time_order(items: Seq<Progress>, order: Seq<int>) -> bool {
    &&& order.len() == items.len()
    &&& forall|i: int| 0 <= i < order.len() ==> 0 <= #[trigger] order[i] < items.len()
    &&& forall|i: int, j: int|
        0 <= i < order.len() && 0 <= j < order.len() && i != j ==> order[i] != order[j]
    &&& forall|i: int, j: int|
        0 <= i < j < order.len() ==> key_le(
            time_key(items[#[trigger] order[i]]),
            time_key(items[#[trigger] order[j]]),
        )
    &&& forall|i: int, j: int|
        0 <= i < j < order.len() && time_key(items[#[trigger] order[i]]) == time_key(
            items[#[trigger] order[j]],
        ) ==> order[i] < order[j]
}

/// An entry as the tracker shows it: the history text, else the status, as
/// its description, and no location, which Hermes does not report.
pub open spec fn progress_event(p: Progress) -> EventView {
    EventView {
        timestamp: text_or(p.timestamp, "Time not available"@),
        location: "Location not available"@,
        description: match p.history_text {
            Some(h) => h@,
            None => text_or(p.status, "No description available"@),
        },
    }
}

/// `events` are the entries of `items`, oldest first as a stable sort by
/// timestamp orders them.
pub open spec fn is_timeline(items: Seq<Progress>, events: Seq<EventView>) -> bool {
    exists|order: Seq<int>|
        {
            &&& stable_time_order(items, order)
            &&& events.len() == items.len()
            &&& forall|i: int| 0 <= i < events.len() ==> #[trigger] events[i] == progress_event(items[order[i]])
        }
}

proof fn lemma_text_le_reflexive(a: Seq<char>)
    ensures
        text_le(a, a),
    decreases a.len(),
{
    if a.len() > 0 {
        lemma_text_le_reflexive(a.drop_first());
    }
}

proof fn lemma_text_le_total(a: Seq<char>, b: Seq<char>)
    ensures
        text_le(a, b) || text_le(b, a),
        text_le(a, b) && text_le(b, a) ==> a == b,
    decreases a.len(),
{
    if a.len() > 0 && b.len() > 0 && a[0] == b[0] {
        lemma_text_le_total(a.drop_first(), b.drop_first());
        if text_le(a, b) && text_le(b, a) {
            assert(a =~= seq![a[0]] + a.drop_first());
            assert(b =~= seq![b[0]] + b.drop_first());
        }
    } else if a.len() > 0 && b.len() > 0 {
        assert((a[0] as int) != (b[0] as int));
    } else if a.len() == 0 && b.len() == 0 {
        assert(a =~= b);
    }
}

proof fn lemma_text_le_transitive(a: Seq<char>, b: Seq<char>, c: Seq<char>)
    requires
        text_le(a, b),
        text_le(b, c),
    ensures
        text_le(a, c),
    decreases a.len(),
{
    if a.len() > 0 && b.len() > 0 && c.len() > 0 && a[0] == b[0] && b[0] == c[0] {
        lemma_text_le_transitive(a.drop_first(), b.drop_first(), c.drop_first());
    }
}

proof fn lemma_key_le_facts(a: Option<Seq<char>>, b: Option<Seq<char>>)
    ensures
        key_le(a, a),
        key_le(a, b) || key_le(b, a),
        key_le(a, b) && key_le(b, a) ==> a == b,
{
    if let Some(x) = a {
        lemma_text_le_reflexive(x);
        if let Some(y) = b {
            lemma_text_le_total(x, y);
        }
    }
}

proof fn lemma_key_le_transitive(a: Option<Seq<char>>, b: Option<Seq<char>>, c: Option<Seq<char>>)
    requires
        key_le(a, b),
        key_le(b, c),
    ensures
        key_le(a, c),
{
    if a is Some && b is Some && c is Some {
        lemma_text_le_transitive(a->0, b->0, c->0);
    }
}

fn text_le_exec(a: &str, b: &str) -> (r: bool)
    ensures
        r == text_le(a@, b@),
{
    let n = a.unicode_len();
    let m = b.unicode_len();
    let mut i: usize = 0;
    assert(a@.skip(0) =~= a@);
    assert(b@.skip(0) =~= b@);
    while i < n && i < m && a.get_char(i) == b.get_char(i)
        invariant
            n == a@.len(),
            m == b@.len(),
            i <= n,
            i <= m,
            text_le(a@, b@) == text_le(a@.skip(i as int), b@.skip(i as int)),
        decreases n - i,
    {
        assert(a@.skip(i as int).drop_first() =~= a@.skip(i + 1));
        assert(b@.skip(i as int).drop_first() =~= b@.skip(i + 1));
        i = i + 1;
    }
    if i == n {
        true
    } else if i == m {
        false
    } else {
        let x: u32 = a.get_char(i) as u32;
        let y: u32 = b.get_char(i) as u32;
        assert(a@.skip(i as int)[0] == a@[i as int]);
        assert(b@.skip(i as int)[0] == b@[i as int]);
        x < y
    }
}

fn key_le_exec(a: &Option<String>, b: &Option<String>) -> (r: bool)
    ensures
        r == key_le(opt_text(*a), opt_text(*b)),
{
    match (a, b) {
        (None, _) => true,
        (Some(_), None) => false,
        (Some(x), Some(y)) => text_le_exec(x.as_str(), y.as_str()),
    }
}

fn copy_text(o: &Option<String>) -> (r: Option<String>)
    ensures
        opt_text(r) == opt_text(*o),
{
    match o {
        Some(s) => Some(s.clone()),
        None => None,
    }
}

fn progress_to_event(p: &Progress) -> (e: TrackingEvent)
    ensures
        e@ == progress_event(*p),
{
    let timestamp = match &p.timestamp {
        Some(t) => t.clone(),
        None => String::from_str("Time not available"),
    };
    let description = match &p.history_text {
        Some(h) => h.clone(),
        None => match &p.status {
            Some(s) => s.clone(),
            None => String::from_str("No description available"),
        },
    };
    TrackingEvent { timestamp, location: String::from_str("Location not available"), description }
}

/// The entries as tracking events, oldest first: a stable sort by timestamp,
/// in which an entry without timestamp comes before all others.
pub fn timeline(items: &Vec<Progress>) -> (events: Vec<TrackingEvent>)
    ensures
        is_timeline(items@, event_views(events@)),
{
    let n = items.len();
    let mut events: Vec<TrackingEvent> = Vec::new();
    let mut keys: Vec<Option<String>> = Vec::new();
    let ghost mut order: Seq<int> = seq![];
    let mut k: usize = 0;
    while k < n
        invariant
            n == items@.len(),
            k <= n,
            events@.len() == k,
            keys@.len() == k,
            order.len() == k,
            forall|i: int| 0 <= i < k ==> 0 <= #[trigger] order[i] < k,
            forall|i: int, j: int| 0 <= i < k && 0 <= j < k && i != j ==> order[i] != order[j],
            forall|i: int|
                0 <= i < k ==> opt_text(#[trigger] keys@[i]) == time_key(items@[order[i]]),
            forall|i: int| 0 <= i < k ==> (#[trigger] events@[i])@ == progress_event(items@[order[i]]),
            forall|i: int, j: int|
                0 <= i < j < k ==> key_le(
                    time_key(items@[#[trigger] order[i]]),
                    time_key(items@[#[trigger] order[j]]),
                ),
            forall|i: int, j: int|
                0 <= i < j < k && time_key(items@[#[trigger] order[i]]) == time_key(
                    items@[#[trigger] order[j]],
                ) ==> order[i] < order[j],
        decreases n - k,
    {
        let key = copy_text(&items[k].timestamp);
        let event = progress_to_event(&items[k]);
        let ghost kk = time_key(items@[k as int]);
        let mut pos: usize = keys.len();
        while pos > 0 && !key_le_exec(&keys[pos - 1], &key)
            invariant
                pos <= keys@.len(),
                keys@.len() == k,
                opt_text(key) == kk,
                forall|j: int| pos <= j < k ==> !key_le(opt_text(#[trigger] keys@[j]), kk),
            decreases pos,
        {
            pos = pos - 1;
        }
        let ghost old_order = order;
        let ghost old_keys = keys@;
        let ghost old_events = events@;
        keys.insert(pos, key);
        events.insert(pos, event);
        proof {
            order = old_order.insert(pos as int, k as int);
            assert forall|i: int| 0 <= i < k + 1 implies 0 <= #[trigger] order[i] < k + 1 by {
                if i < pos {
                    assert(order[i] == old_order[i]);
                } else if i > pos {
                    assert(order[i] == old_order[i - 1]);
                }
            }
            assert forall|i: int, j: int|
                0 <= i < k + 1 && 0 <= j < k + 1 && i != j implies order[i] != order[j] by {
                let oi = if i < pos {
                    i
                } else {
                    i - 1
                };
                let oj = if j < pos {
                    j
                } else {
                    j - 1
                };
                if i != pos && j != pos {
                    assert(order[i] == old_order[oi]);
                    assert(order[j] == old_order[oj]);
                } else if i == pos {
                    assert(order[j] == old_order[oj]);
                } else {
                    assert(order[i] == old_order[oi]);
                }
            }
            assert forall|i: int| 0 <= i < k + 1 implies opt_text(#[trigger] keys@[i]) == time_key(
                items@[order[i]],
            ) by {
                if i < pos {
                    assert(keys@[i] == old_keys[i]);
                } else if i > pos {
                    assert(keys@[i] == old_keys[i - 1]);
                }
            }
            assert forall|i: int| 0 <= i < k + 1 implies (#[trigger] events@[i])@ == progress_event(
                items@[order[i]],
            ) by {
                if i < pos {
                    assert(events@[i] == old_events[i]);
                } else if i > pos {
                    assert(events@[i] == old_events[i - 1]);
                }
            }
            assert forall|i: int, j: int| 0 <= i < j < k + 1 implies key_le(
                time_key(items@[#[trigger] order[i]]),
                time_key(items@[#[trigger] order[j]]),
            ) && (time_key(items@[order[i]]) == time_key(items@[order[j]]) ==> order[i]
                < order[j]) by {
                if j < pos {
                    assert(order[i] == old_order[i]);
                    assert(order[j] == old_order[j]);
                } else if i > pos {
                    assert(order[i] == old_order[i - 1]);
                    assert(order[j] == old_order[j - 1]);
                } else if i < pos && j > pos {
                    assert(order[i] == old_order[i]);
                    assert(order[j] == old_order[j - 1]);
                } else if j == pos {
                    assert(order[i] == old_order[i]);
                    let below = time_key(items@[old_order[pos - 1]]);
                    assert(opt_text(old_keys[pos - 1]) == below);
                    assert(key_le(below, kk));
                    if i < pos - 1 {
                        assert(key_le(time_key(items@[old_order[i]]), below));
                        lemma_key_le_transitive(time_key(items@[old_order[i]]), below, kk);
                    }
                    assert(order[j] == k);
                } else {
                    assert(i == pos);
                    assert(order[i] == k);
                    assert(order[j] == old_order[j - 1]);
                    let above = time_key(items@[old_order[j - 1]]);
                    assert(opt_text(old_keys[j - 1]) == above);
                    assert(!key_le(above, kk));
                    lemma_key_le_facts(kk, above);
                }
            }
        }
        k = k + 1;
    }
    proof {
        assert(stable_time_order(items@, order));
        let ev = event_views(events@);
        assert(forall|i: int| 0 <= i < ev.len() ==> #[trigger] ev[i] == progress_event(items@[order[i]]));
    }
    events
}

/// Hermes' answer to the search: its HTTP status, and its body read as a list
/// of shipments (`None` when the body is no such JSON).
pub struct ApiReply {
    pub status: u16,
    pub body: Option<Vec<Shipment>>,
}

/// The timeline entries of a shipment.
pub open spec fn progress_of(s: Shipment) -> Seq<Progress> {
    match s.parcel_progress {
        Some(p) => p@,
        None => seq![],
    }
}

/// Why the answer to the search yields no timeline, if it does not.
pub open spec fn api_failure(reply: Result<ApiReply, String>) -> Option<Seq<char>> {
    match reply {
        Err(e) => Some(e@),
        Ok(r) => if r.status == 404 {
            Some("Hermes holds no data for this tracking number"@)
        } else if 400 <= r.status <= 599 {
            Some("Tracking server returned an error status"@)
        } else {
            match r.body {
                None => Some("Failed to parse tracking JSON"@),
                Some(b) => if b@.len() == 0 {
                    Some("No shipment data returned"@)
                } else if progress_of(b@[0]).len() == 0 {
                    Some("No events available for this tracking number"@)
                } else {
                    None
                },
            }
        },
    }
}

/// The timeline entries of the first shipment of an answer that has one.
pub open spec fn api_progress(reply: Result<ApiReply, String>) -> Seq<Progress> {
    progress_of(reply->Ok_0.body->0@[0])
}

/// Interprets the answer to the search (see [`search_url`]): the first
/// shipment's timeline, oldest entry first.
pub fn fetch_via_api(reply: Result<ApiReply, String>) -> (res: Result<Vec<TrackingEvent>, String>)
    ensures
        api_failure(reply) matches Some(m) ==> (res matches Err(e) && e@ == m),
        api_failure(reply) is None ==> (res matches Ok(events) && is_timeline(
            api_progress(reply),
            event_views(events@),
        )),
{
    match reply {
        Err(e) => Err(e),
        Ok(r) => {
            if r.status == 404 {
                return Err(String::from_str("Hermes holds no data for this tracking number"));
            }
            if 400 <= r.status && r.status <= 599 {
                return Err(String::from_str("Tracking server returned an error status"));
            }
            match &r.body {
                None => Err(String::from_str("Failed to parse tracking JSON")),
                Some(shipments) => {
                    if shipments.len() == 0 {
                        return Err(String::from_str("No shipment data returned"));
                    }
                    match &shipments[0].parcel_progress {
                        None => Err(
                            String::from_str("No events available for this tracking number"),
                        ),
                        Some(progress) => {
                            if progress.len() == 0 {
                                Err(String::from_str("No events available for this tracking number"))
                            } else {
                                Ok(timeline(progress))
                            }
                        },
                    }
                },
            }
        },
    }
}

/// The address of Hermes' search for a tracking number.
pub open spec fn search_url_of(tracking_id: Seq<char>) -> Seq<char> {
    "https://api.my-deliveries.de/tnt/v2/shipments/search/"@ + tracking_id
}

/// The address of the tracking page that a browser opens when the JSON
/// endpoint fails.
pub open spec fn page_url_of(tracking_id: Seq<char>) -> Seq<char> {
    "https://www.myhermes.de/empfangen/sendungsverfolgung/sendungsinformation/#"@ + tracking_id
}

/// The address of Hermes' search for a tracking number.
pub fn search_url(tracking_id: &str) -> (r: String)
    ensures
        r@ == search_url_of(tracking_id@),
{
    concat2("https://api.my-deliveries.de/tnt/v2/shipments/search/", tracking_id)
}

fn page_url(tracking_id: &str) -> (r: String)
    ensures
        r@ == page_url_of(tracking_id@),
{
    concat2("https://www.myhermes.de/empfangen/sendungsverfolgung/sendungsinformation/#", tracking_id)
}

/// A request that the caller performs for a Hermes lookup.
pub enum HermesRequest {
    /// `GET` the JSON timeline from this address, with `Accept:
    /// application/json`, `X-Language: de` and Hermes' site as origin and referer.
    Search { url: String },
    /// Open this tracking page in a headless browser and read its text.
    Headless { url: String },
}

/// A [`HermesRequest`] with its address taken as a character sequence.
pub enum HermesRequestView {
    Search(Seq<char>),
    Headless(Seq<char>),
}

impl View for HermesRequest {
    type V = HermesRequestView;

    open spec fn view(&self) -> HermesRequestView {
        match self {
            HermesRequest::Search { url } => HermesRequestView::Search(url@),
            HermesRequest::Headless { url } => HermesRequestView::Headless(url@),
        }
    }
}

/// The answer to a [`HermesRequest`], of the same kind. An `Err` carries the
/// reason why the request itself failed.
pub enum HermesReply {
    Search(Result<ApiReply, String>),
    Headless(Result<PageSnapshot, String>),
}

/// What a Hermes lookup asks for next: a request, or its result.
pub enum HermesStep {
    Request(HermesRequest),
    Done(Result<Vec<TrackingEvent>, String>),
}

/// Where a Hermes lookup stands.
pub enum HermesStage {
    /// Waiting for the JSON timeline.
    Search,
    /// The JSON endpoint failed for this reason; waiting for the browser.
    Headless(String),
    /// The lookup has its result.
    Finished,
}

/// A lookup of one Hermes tracking number.
pub struct HermesLookup {
    pub tracking_id: String,
    pub stage: HermesStage,
}

/// Whether `reply` answers the request that a lookup at `stage` waits for.
pub open spec fn hermes_expects(stage: HermesStage, reply: HermesReply) -> bool {
    match (stage, reply) {
        (HermesStage::Search, HermesReply::Search(_)) => true,
        (HermesStage::Headless(_), HermesReply::Headless(_)) => true,
        _ => false,
    }
}

/// How many answers a Hermes lookup may still need at most.
pub open spec fn hermes_rank(stage: HermesStage) -> nat {
    match stage {
        HermesStage::Search => 2,
        HermesStage::Headless(_) => 1,
        HermesStage::Finished => 0,
    }
}

/// The events of a list, or an error, with their text taken as character
/// sequences.
pub open spec fn events_outcome(r: Result<Vec<TrackingEvent>, String>) -> Result<
    Seq<EventView>,
    Seq<char>,
> {
    match r {
        Ok(events) => Ok(event_views(events@)),
        Err(e) => Err(e@),
    }
}

/// The result of a lookup whose JSON endpoint failed with `api_error`, given
/// what the browser read.
pub open spec fn page_events(api_error: Seq<char>, page: Result<PageSnapshot, String>) -> Result<
    Seq<EventView>,
    Seq<char>,
> {
    match page {
        Err(h) => Err(fallback_failed(api_error, h@)),
        Ok(s) => match snapshot_details(s) {
            Err(h) => Err(fallback_failed(api_error, h)),
            Ok(d) => Ok(d.events),
        },
    }
}

/// Starts the lookup of a Hermes tracking number: the lookup and its first
/// request, the JSON search. The caller performs each request and hands the
/// answer to [`HermesLookup::advance`] until the lookup is done. A tracking
/// number that is empty or only white space is refused.
pub fn fetch_tracking_events(tracking_id: &str) -> (res: Result<(HermesLookup, HermesRequest), String>)
    ensures
        trimmed(tracking_id@).len() == 0 <==> res is Err,
        res matches Err(e) ==> e@ == "Tracking number is empty"@,
        res matches Ok((l, req)) ==> {
            &&& l.tracking_id@ == trimmed(tracking_id@)
            &&& l.stage is Search
            &&& req@ == HermesRequestView::Search(search_url_of(trimmed(tracking_id@)))
        },
{
    let trimmed_id = trim(tracking_id);
    if trimmed_id.unicode_len() == 0 {
        return Err(String::from_str("Tracking number is empty"));
    }
    let url = search_url(trimmed_id.as_str());
    Ok((HermesLookup { tracking_id: trimmed_id, stage: HermesStage::Search }, HermesRequest::Search { url }))
}

impl HermesLookup {
    /// Whether `reply` answers the request that this lookup waits for.
    pub fn expects_reply(&self, reply: &HermesReply) -> (b: bool)
        ensures
            b == hermes_expects(self.stage, *reply),
    {
        match (&self.stage, reply) {
            (HermesStage::Search, HermesReply::Search(_)) => true,
            (HermesStage::Headless(_), HermesReply::Headless(_)) => true,
            _ => false,
        }
    }

    /// Takes the answer to the request the lookup waits for, and returns the
    /// lookup's next state and what it asks for next. A failed JSON endpoint
    /// falls back to the browser.
    pub fn advance(self, reply: HermesReply) -> (r: (HermesLookup, HermesStep))
        requires
            hermes_expects(self.stage, reply),
        ensures
            r.0.tracking_id@ == self.tracking_id@,
            hermes_rank(r.0.stage) < hermes_rank(self.stage),
            r.1 is Done <==> r.0.stage is Finished,
            match (self.stage, reply) {
                (HermesStage::Search, HermesReply::Search(a)) => match api_failure(a) {
                    None => (r.1 matches HermesStep::Done(Ok(events)) && is_timeline(
                        api_progress(a),
                        event_views(events@),
                    )),
                    Some(m) => {
                        &&& r.0.stage matches HermesStage::Headless(e) && e@ == m
                        &&& r.1 matches HermesStep::Request(req) && req@ == HermesRequestView::Headless(
                            page_url_of(self.tracking_id@),
                        )
                    },
                },
                (HermesStage::Headless(api_error), HermesReply::Headless(p)) => (r.1 matches HermesStep::Done(
                    res,
                ) && events_outcome(res) == page_events(api_error@, p)),
                _ => false,
            },
    {
        let HermesLookup { tracking_id, stage } = self;
        match (stage, reply) {
            (HermesStage::Search, HermesReply::Search(a)) => match fetch_via_api(a) {
                Ok(events) => (
                    HermesLookup { tracking_id, stage: HermesStage::Finished },
                    HermesStep::Done(Ok(events)),
                ),
                Err(e) => {
                    let url = page_url(tracking_id.as_str());
                    (
                        HermesLookup { tracking_id, stage: HermesStage::Headless(e) },
                        HermesStep::Request(HermesRequest::Headless { url }),
                    )
                },
            },
            (HermesStage::Headless(api_error), HermesReply::Headless(p)) => {
                let ghost page = p;
                let result = match p {
                    Err(h) => Err(
                        concat3(
                            "API failed: ",
                            api_error.as_str(),
                            concat2("; headless Chrome failed: ", h.as_str()).as_str(),
                        ),
                    ),
                    Ok(snapshot) => match details_from_snapshot(snapshot) {
                        Err(h) => Err(
                            concat3(
                                "API failed: ",
                                api_error.as_str(),
                                concat2("; headless Chrome failed: ", h.as_str()).as_str(),
                            ),
                        ),
                        Ok(d) => Ok(d.events),
                    },
                };
                proof {
                    if result is Err {
                        let m = result->Err_0@;
                        match page {
                            Err(h) => {
                                assert(m =~= fallback_failed(api_error@, h@));
                            },
                            Ok(snapshot) => {
                                assert(m =~= fallback_failed(
                                    api_error@,
                                    snapshot_details(snapshot)->Err_0,
                                ));
                            },
                        }
                    }
                }
                (HermesLookup { tracking_id, stage: HermesStage::Finished }, HermesStep::Done(result))
            },
            (stage, _) => (
                HermesLookup { tracking_id, stage },
                HermesStep::Done(Err(String::from_str("unexpected answer"))),
            ),
        }
    }
}

/// An order of `n` indices without repeats holds every index below `n`.
proof fn lemma_order_covers(order: Seq<int>, n: int, x: int)
    requires
        order.len() == n,
        forall|i: int| 0 <= i < order.len() ==> 0 <= #[trigger] order[i] < n,
        forall|i: int, j: int| 0 <= i < order.len() && 0 <= j < order.len() && i != j ==> order[i] != order[j],
        0 <= x < n,
    ensures
        exists|j: int| 0 <= j < n && order[j] == x,
{
    broadcast use vstd::seq_lib::group_seq_properties;
    broadcast use vstd::set::group_set_axioms;

    order.unique_seq_to_set();
    vstd::set_lib::lemma_int_range(0, n);
    let range = vstd::set_lib::set_int_range(0, n);
    let values = order.to_set();
    assert forall|v: int| values.contains(v) implies range.contains(v) by {
        assert(order.contains(v));
        let j = choose|j: int| 0 <= j < order.len() && order[j] == v;
        assert(0 <= order[j] < n);
    }
    vstd::set_lib::lemma_subset_equality(values, range);
    assert(range.contains(x));
    assert(values.contains(x));
    assert(order.contains(x));
}

proof fn lemma_orders_agree_below(items: Seq<Progress>, o1: Seq<int>, o2: Seq<int>, k: int)
    requires
        stable_time_order(items, o1),
        stable_time_order(items, o2),
        0 <= k <= items.len(),
    ensures
        forall|i: int| 0 <= i < k ==> o1[i] == o2[i],
    decreases k,
{
    if k > 0 {
        lemma_orders_agree_below(items, o1, o2, k - 1);
        let p = k - 1;
        let n = items.len() as int;
        let a = o1[p];
        let b = o2[p];
        if a != b {
            lemma_order_covers(o2, n, a);
            let j = choose|j: int| 0 <= j < n && o2[j] == a;
            lemma_order_covers(o1, n, b);
            let m = choose|m: int| 0 <= m < n && o1[m] == b;
            if j < p {
                assert(o1[j] == o2[j]);
            }
            if m < p {
                assert(o1[m] == o2[m]);
            }
            assert(j > p);
            assert(m > p);
            assert(key_le(time_key(items[o1[p]]), time_key(items[o1[m]])));
            assert(key_le(time_key(items[o2[p]]), time_key(items[o2[j]])));
            lemma_key_le_facts(time_key(items[a]), time_key(items[b]));
            assert(time_key(items[a]) == time_key(items[b]));
            assert(o1[p] < o1[m]);
            assert(o2[p] < o2[j]);
        }
    }
}

/// The timeline of a list of entries is unique: a stable sort by timestamp
/// leaves no choice, so the result of [`timeline`] is determined by the entries.
pub proof fn law_timeline_unique(items: Seq<Progress>, first: Seq<EventView>, second: Seq<EventView>)
    requires
        is_timeline(items, first),
        is_timeline(items, second),
    ensures
        first == second,
{
    let o1 = choose|order: Seq<int>|
        {
            &&& stable_time_order(items, order)
            &&& first.len() == items.len()
            &&& forall|i: int| 0 <= i < first.len() ==> #[trigger] first[i] == progress_event(items[order[i]])
        };
    let o2 = choose|order: Seq<int>|
        {
            &&& stable_time_order(items, order)
            &&& second.len() == items.len()
            &&& forall|i: int| 0 <= i < second.len() ==> #[trigger] second[i] == progress_event(items[order[i]])
        };
    lemma_orders_agree_below(items, o1, o2, items.len() as int);
    assert forall|i: int| 0 <= i < first.len() implies first[i] == second[i] by {
        assert(o1[i] == o2[i]);
    }
    assert(first =~= second);
}

/// The text order is `String`'s: two texts that agree up to position `k` and
/// differ there are ordered by the code points at `k`.
pub proof fn law_text_order_first_difference(a: Seq<char>, b: Seq<char>, k: int)
    requires
        0 <= k < a.len(),
        k < b.len(),
        a.take(k) == b.take(k),
        a[k] != b[k],
    ensures
        text_le(a, b) <==> (a[k] as int) < (b[k] as int),
        text_le(a, b) <==> !text_le(b, a),
    decreases k,
{
    if k == 0 {
        assert((a[0] as int) != (b[0] as int));
    } else {
        assert(a[0] == a.take(k)[0]);
        assert(b[0] == b.take(k)[0]);
        assert(a.drop_first().take(k - 1) =~= a.take(k).drop_first());
        assert(b.drop_first().take(k - 1) =~= b.take(k).drop_first());
        law_text_order_first_difference(a.drop_first(), b.drop_first(), k - 1);
    }
}

/// A text comes no later than every text that extends it.
pub proof fn law_text_order_prefix(a: Seq<char>, b: Seq<char>)
    requires
        a.len() <= b.len(),
        b.take(a.len() as int) == a,
    ensures
        text_le(a, b),
    decreases a.len(),
{
    if a.len() > 0 {
        assert(a[0] == b.take(a.len() as int)[0]);
        assert(b.drop_first().take(a.len() - 1) =~= b.take(a.len() as int).drop_first());
        law_text_order_prefix(a.drop_first(), b.drop_first());
    }
}

/// An entry without a timestamp comes before every entry with one, and an
/// entry with a timestamp never comes before one without.
pub proof fn law_missing_time_first(a: Option<Seq<char>>, t: Seq<char>)
    ensures
        key_le(None, a),
        !key_le(Some(t), None),
{
}

} // verus!
