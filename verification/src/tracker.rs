//! The tracked list: adding and archiving tracking numbers, taking in the
//! results of lookups, and the one-line summary shown for each shipment.
use vstd::prelude::*;
use vstd::string::*;
use crate::dhl::{event_views, opt_text, DetailsView, EventView, TrackingDetails, TrackingEvent};
use crate::text::{concat2, concat3, join, joined, render_u64, decimal, trim, trimmed, views};

verus! {

/// One tracked shipment.
pub struct TrackingItem {
    pub code: String,
    pub name: Option<String>,
    /// Recipient postcode; DHL releases the uncensored detail view in exchange for it.
    pub zip: Option<String>,
    pub events: Vec<TrackingEvent>,
    pub last_status: String,
    pub plz_required: bool,
}

/// The content of a [`TrackingItem`], its text taken as character sequences.
pub struct ItemView {
    pub code: Seq<char>,
    pub name: Option<Seq<char>>,
    pub zip: Option<Seq<char>>,
    pub events: Seq<EventView>,
    pub last_status: Seq<char>,
    pub plz_required: bool,
}

impl View for TrackingItem {
    type V = ItemView;

    open spec fn view(&self) -> ItemView {
        ItemView {
            code: self.code@,
            name: opt_text(self.name),
            zip: opt_text(self.zip),
            events: event_views(self.events@),
            last_status: self.last_status@,
            plz_required: self.plz_required,
        }
    }
}

/// The views of the items of a list.
pub open spec fn item_views(items: Seq<TrackingItem>) -> Seq<ItemView> {
    items.map_values(|i: TrackingItem| i@)
}

/// The tracking numbers of a list, in order.
pub open spec fn codes(items: Seq<ItemView>) -> Seq<Seq<char>> {
    items.map_values(|i: ItemView| i.code)
}

/// No tracking number is listed twice.
pub open spec fn codes_unique(items: Seq<ItemView>) -> bool {
    forall|i: int, j: int| 0 <= i < j < items.len() ==> items[i].code != items[j].code
}

/// Whether the list holds `code`.
pub open spec fn lists(items: Seq<ItemView>, code: Seq<char>) -> bool {
    exists|i: int| 0 <= i < items.len() && #[trigger] items[i].code == code
}

/// `i` is the first position of the list that holds `code`.
pub open spec fn is_first(items: Seq<ItemView>, code: Seq<char>, i: int) -> bool {
    &&& 0 <= i < items.len()
    &&& items[i].code == code
    &&& forall|j: int| 0 <= j < i ==> #[trigger] items[j].code != code
}

/// The first position of the list that holds `code`, if any.
pub open spec fn first_index(items: Seq<ItemView>, code: Seq<char>) -> Option<int> {
    if lists(items, code) {
        Some(choose|i: int| is_first(items, code, i))
    } else {
        None
    }
}

proof fn lemma_first_index(items: Seq<ItemView>, code: Seq<char>, i: int)
    requires
        is_first(items, code, i),
    ensures
        first_index(items, code) == Some(i),
{
    assert(lists(items, code));
    let k = choose|k: int| is_first(items, code, k);
    assert(is_first(items, code, k));
    if k < i {
        assert(items[k].code != code);
    } else if i < k {
        assert(items[i].code != code);
    }
}

/// Finds the first item that holds `code`.
pub fn find_item(items: &Vec<TrackingItem>, code: &str) -> (r: Option<usize>)
    ensures
        match r {
            Some(i) => first_index(item_views(items@), code@) == Some(i as int) && is_first(
                item_views(items@),
                code@,
                i as int,
            ),
            None => first_index(item_views(items@), code@) is None,
        },
{
    let ghost v = item_views(items@);
    let mut i: usize = 0;
    while i < items.len()
        invariant
            i <= items.len(),
            v == item_views(items@),
            forall|j: int| 0 <= j < i ==> #[trigger] v[j].code != code@,
        decreases items.len() - i,
    {
        if items[i].code == String::from_str(code) {
            proof {
                lemma_first_index(v, code@, i as int);
            }
            return Some(i);
        }
        i = i + 1;
    }
    assert(!lists(v, code@));
    None
}

/// Why a tracking number was not added.
pub enum AddRefusal {
    /// Nothing but white space was entered.
    Empty,
    /// The list already holds the tracking number.
    AlreadyListed,
}

impl AddRefusal {
    /// The message that tells the user why nothing was added.
    pub fn message(&self) -> (m: String)
        ensures
            m@ == match self {
                AddRefusal::Empty => "Please enter a tracking number."@,
                AddRefusal::AlreadyListed => "Tracking number is already in the list."@,
            },
    {
        match self {
            AddRefusal::Empty => String::from_str("Please enter a tracking number."),
            AddRefusal::AlreadyListed => String::from_str("Tracking number is already in the list."),
        }
    }
}

/// A newly added shipment: no name, no postcode, no events yet.
pub open spec fn new_item(code: Seq<char>) -> ItemView {
    ItemView {
        code,
        name: None,
        zip: None,
        events: seq![],
        last_status: "Pending first check..."@,
        plz_required: false,
    }
}

/// Adds the tracking number that was entered, without surrounding white
/// space, at the end of the list, and returns it. Nothing is added when
/// nothing but white space was entered or the list already holds the number.
pub fn add_tracking_number(items: &mut Vec<TrackingItem>, input: &str) -> (r: Result<String, AddRefusal>)
    ensures
        trimmed(input@).len() == 0 ==> r matches Err(AddRefusal::Empty),
        trimmed(input@).len() > 0 && lists(item_views(old(items)@), trimmed(input@)) ==> r matches Err(
            AddRefusal::AlreadyListed,
        ),
        r is Err ==> final(items)@ == old(items)@,
        r is Ok <==> trimmed(input@).len() > 0 && !lists(item_views(old(items)@), trimmed(input@)),
        r matches Ok(code) ==> {
            &&& code@ == trimmed(input@)
            &&& item_views(final(items)@) == item_views(old(items)@).push(new_item(code@))
        },
        codes_unique(item_views(old(items)@)) ==> codes_unique(item_views(final(items)@)),
{
    let code = trim(input);
    if code.unicode_len() == 0 {
        return Err(AddRefusal::Empty);
    }
    if find_item(items, code.as_str()).is_some() {
        return Err(AddRefusal::AlreadyListed);
    }
    let ghost before = item_views(items@);
    let item = TrackingItem {
        code: code.clone(),
        name: None,
        zip: None,
        events: Vec::new(),
        last_status: String::from_str("Pending first check..."),
        plz_required: false,
    };
    items.push(item);
    proof {
        assert(event_views(Seq::<TrackingEvent>::empty()) =~= seq![]);
        assert(item_views(items@) =~= before.push(new_item(code@)));
        assert(!lists(before, code@));
    }
    Ok(code)
}

/// Removes the first item that holds `code`, if any, and returns its position.
pub fn archive_tracking(items: &mut Vec<TrackingItem>, code: &str) -> (r: Option<usize>)
    ensures
        r == match first_index(item_views(old(items)@), code@) {
            Some(i) => Some(i as usize),
            None => None::<usize>,
        },
        r is None ==> final(items)@ == old(items)@,
        r matches Some(i) ==> item_views(final(items)@) == item_views(old(items)@).remove(i as int),
        codes_unique(item_views(old(items)@)) ==> codes_unique(item_views(final(items)@)),
{
    match find_item(items, code) {
        None => None,
        Some(i) => {
            let ghost before = item_views(items@);
            items.remove(i);
            assert(item_views(items@) =~= before.remove(i as int));
            Some(i)
        },
    }
}

/// The tracking numbers and postcodes of all items, in order: what a refresh
/// of the whole list looks up.
pub fn refresh_all_items(items: &Vec<TrackingItem>) -> (r: Vec<(String, Option<String>)>)
    ensures
        r@.len() == items@.len(),
        forall|i: int|
            0 <= i < r@.len() ==> (#[trigger] r@[i]).0@ == items@[i].code@ && opt_text(r@[i].1)
                == opt_text(items@[i].zip),
{
    let mut r: Vec<(String, Option<String>)> = Vec::new();
    let mut i: usize = 0;
    while i < items.len()
        invariant
            i <= items.len(),
            r@.len() == i,
            forall|k: int|
                0 <= k < i ==> (#[trigger] r@[k]).0@ == items@[k].code@ && opt_text(r@[k].1)
                    == opt_text(items@[k].zip),
        decreases items.len() - i,
    {
        let zip = match &items[i].zip {
            Some(z) => Some(z.clone()),
            None => None,
        };
        r.push((items[i].code.clone(), zip));
        i = i + 1;
    }
    r
}

/// The first part of a summary: DHL's short status, else whether the parcel
/// was delivered.
pub open spec fn status_part(details: DetailsView) -> Seq<Seq<char>> {
    match details.short_status {
        Some(s) => seq![s],
        None => if details.delivered {
            seq!["Delivered"@]
        } else {
            seq![]
        },
    }
}

/// The progress part of a summary.
pub open spec fn progress_part(details: DetailsView) -> Seq<Seq<char>> {
    match details.progress {
        Some((step, total)) => seq!["step "@ + decimal(step as nat) + "/"@ + decimal(total as nat)],
        None => seq![],
    }
}

/// The delivery window part of a summary; a window that starts and ends at
/// the same time is shown once.
pub open spec fn window_part(details: DetailsView) -> Seq<Seq<char>> {
    match details.delivery_window {
        Some((from, to)) => if from == to {
            seq!["delivery "@ + from]
        } else {
            seq!["delivery "@ + from + " - "@ + to]
        },
        None => seq![],
    }
}

/// The part of a summary that says what DHL still wants.
pub open spec fn wanted_part(item: ItemView, details: DetailsView) -> Seq<Seq<char>> {
    if details.versanddatum_required && item.events.len() == 0 {
        seq!["shipping date required"@]
    } else if item.plz_required {
        match item.zip {
            Some(_) => seq!["postcode did not unlock more"@],
            None => seq!["enter recipient postcode for more"@],
        }
    } else {
        seq![]
    }
}

/// The part of a summary that reports a rejected postcode.
pub open spec fn rejected_part(details: DetailsView) -> Seq<Seq<char>> {
    match details.zip_error {
        Some(e) => seq!["postcode rejected: "@ + e],
        None => seq![],
    }
}

/// The parts of a summary: status, progress, delivery window, what DHL still
/// wants, and a rejected postcode.
pub open spec fn summary_parts(item: ItemView, details: DetailsView) -> Seq<Seq<char>> {
    status_part(details) + progress_part(details) + window_part(details) + wanted_part(item, details)
        + rejected_part(details)
}

/// The single line shown under a shipment's name.
pub open spec fn summary(item: ItemView, details: DetailsView) -> Seq<char> {
    let parts = summary_parts(item, details);
    let count = decimal(item.events.len());
    if parts.len() == 0 {
        count + " events available"@
    } else {
        joined(parts, " - "@) + " ("@ + count + " events)"@
    }
}

fn push_status(parts: &mut Vec<String>, details: &TrackingDetails)
    ensures
        views(final(parts)@) == views(old(parts)@) + status_part(details@),
{
    let ghost before = views(parts@);
    match &details.short_status {
        Some(status) => {
            parts.push(status.clone());
        },
        None => {
            if details.delivered {
                parts.push(String::from_str("Delivered"));
            }
        },
    }
    assert(views(parts@) =~= before + status_part(details@));
}

fn push_progress(parts: &mut Vec<String>, details: &TrackingDetails)
    ensures
        views(final(parts)@) == views(old(parts)@) + progress_part(details@),
{
    let ghost before = views(parts@);
    if let Some((step, total)) = details.progress {
        let a = render_u64(step as u64);
        let b = render_u64(total as u64);
        let text = concat3("step ", a.as_str(), concat2("/", b.as_str()).as_str());
        parts.push(text);
        assert(text@ =~= "step "@ + decimal(step as nat) + "/"@ + decimal(total as nat));
    }
    assert(views(parts@) =~= before + progress_part(details@));
}

fn push_window(parts: &mut Vec<String>, details: &TrackingDetails)
    ensures
        views(final(parts)@) == views(old(parts)@) + window_part(details@),
{
    let ghost before = views(parts@);
    if let Some((from, to)) = &details.delivery_window {
        if *from == *to {
            parts.push(concat2("delivery ", from.as_str()));
        } else {
            let text = concat3("delivery ", from.as_str(), concat2(" - ", to.as_str()).as_str());
            assert(text@ =~= "delivery "@ + from@ + " - "@ + to@);
            parts.push(text);
        }
    }
    assert(views(parts@) =~= before + window_part(details@));
}

fn push_wanted(parts: &mut Vec<String>, item: &TrackingItem, details: &TrackingDetails)
    ensures
        views(final(parts)@) == views(old(parts)@) + wanted_part(item@, details@),
{
    let ghost before = views(parts@);
    if details.versanddatum_required && item.events.len() == 0 {
        parts.push(String::from_str("shipping date required"));
    } else if item.plz_required {
        match &item.zip {
            Some(_) => {
                parts.push(String::from_str("postcode did not unlock more"));
            },
            None => {
                parts.push(String::from_str("enter recipient postcode for more"));
            },
        }
    }
    assert(views(parts@) =~= before + wanted_part(item@, details@));
}

fn push_rejected(parts: &mut Vec<String>, details: &TrackingDetails)
    ensures
        views(final(parts)@) == views(old(parts)@) + rejected_part(details@),
{
    let ghost before = views(parts@);
    if let Some(err) = &details.zip_error {
        parts.push(concat2("postcode rejected: ", err.as_str()));
    }
    assert(views(parts@) =~= before + rejected_part(details@));
}

/// Condenses what DHL reported into the single line shown under the shipment name.
pub fn summarize(item: &TrackingItem, details: &TrackingDetails) -> (s: String)
    ensures
        s@ == summary(item@, details@),
{
    let mut parts: Vec<String> = Vec::new();
    assert(views(parts@) =~= seq![]);
    push_status(&mut parts, details);
    push_progress(&mut parts, details);
    push_window(&mut parts, details);
    push_wanted(&mut parts, item, details);
    push_rejected(&mut parts, details);
    assert(views(parts@) =~= summary_parts(item@, details@));
    let count = render_u64(item.events.len() as u64);
    if parts.len() == 0 {
        return concat2(count.as_str(), " events available");
    }
    let joined_parts = join(&parts, " - ");
    let r = concat3(joined_parts.as_str(), " (", concat2(count.as_str(), " events)").as_str());
    assert(r@ =~= joined(summary_parts(item@, details@), " - "@) + " ("@ + decimal(
        item.events@.len(),
    ) + " events)"@);
    r
}

/// An item after a successful lookup: the events it reported, and whether
/// DHL withholds something, without a new summary yet.
pub open spec fn refreshed(item: ItemView, details: DetailsView) -> ItemView {
    ItemView {
        events: details.events,
        plz_required: details.censored || details.plz_required,
        ..item
    }
}

/// An item after a successful lookup, with its summary.
pub open spec fn updated_item(item: ItemView, details: DetailsView) -> ItemView {
    let r = refreshed(item, details);
    ItemView { last_status: summary(r, DetailsView { events: seq![], ..details }), ..r }
}

/// An item after a failed lookup: no events, and the error as its status.
pub open spec fn failed_item(item: ItemView, error: Seq<char>) -> ItemView {
    ItemView { events: seq![], last_status: "Error: "@ + error, ..item }
}

/// Takes in the result of a lookup for `code`: the first item that holds the
/// number gets the reported events and a new summary, or, when the lookup
/// failed, loses its events and shows the error. Returns a line that says what
/// happened.
pub fn apply_lookup_message(
    items: &mut Vec<TrackingItem>,
    code: &str,
    result: Result<TrackingDetails, String>,
) -> (message: String)
    ensures
        match first_index(item_views(old(items)@), code@) {
            None => {
                &&& final(items)@ == old(items)@
                &&& message@ == "Received update for an unknown tracking number"@
            },
            Some(i) => {
                &&& final(items)@.len() == old(items)@.len()
                &&& forall|j: int|
                    0 <= j < old(items)@.len() && j != i ==> #[trigger] final(items)@[j] == old(
                        items,
                    )@[j]
                &&& match result {
                    Ok(d) => {
                        &&& final(items)@[i]@ == updated_item(old(items)@[i]@, d@)
                        &&& final(items)@[i].plz_required == (d.censored || d.plz_required)
                        &&& final(items)@[i]@.events == d@.events
                        &&& message@ == "Updated "@ + code@
                    },
                    Err(e) => {
                        &&& final(items)@[i]@ == failed_item(old(items)@[i]@, e@)
                        &&& message@ == "Error while updating "@ + code@
                    },
                }
            },
        },
        codes(item_views(final(items)@)) == codes(item_views(old(items)@)),
{
    let ghost before = items@;
    match find_item(items, code) {
        None => {
            assert(codes(item_views(items@)) =~= codes(item_views(before)));
            String::from_str("Received update for an unknown tracking number")
        },
        Some(i) => {
            let mut item = items.remove(i);
            let message = match result {
                Ok(details) => {
                    let mut details = details;
                    item.plz_required = details.censored || details.plz_required;
                    let mut taken: Vec<TrackingEvent> = Vec::new();
                    std::mem::swap(&mut taken, &mut details.events);
                    item.events = taken;
                    assert(event_views(details.events@) =~= seq![]);
                    assert(details@ == (DetailsView { events: seq![], ..details@ }));
                    item.last_status = summarize(&item, &details);
                    concat2("Updated ", item.code.as_str())
                },
                Err(err) => {
                    item.events = Vec::new();
                    item.last_status = concat2("Error: ", err.as_str());
                    assert(event_views(item.events@) =~= seq![]);
                    concat2("Error while updating ", item.code.as_str())
                },
            };
            items.insert(i, item);
            proof {
                assert forall|j: int| 0 <= j < before.len() && j != i implies #[trigger] items@[j]
                    == before[j] by {
                    if j < i {
                        assert(items@[j] == before[j]);
                    } else {
                        assert(items@[j] == before[j]);
                    }
                }
                assert(codes(item_views(items@)) =~= codes(item_views(before)));
            }
            message
        },
    }
}

/// The postcode or name that the user typed, without surrounding white space,
/// or `None` when nothing else is left of it.
pub open spec fn entered(raw: Seq<char>) -> Option<Seq<char>> {
    if trimmed(raw).len() > 0 {
        Some(trimmed(raw))
    } else {
        None
    }
}

/// Reads what the user typed into a name or postcode field.
pub fn entered_text(raw: &str) -> (r: Option<String>)
    ensures
        opt_text(r) == entered(raw@),
{
    let t = trim(raw);
    if t.unicode_len() == 0 {
        None
    } else {
        Some(t)
    }
}

/// Gives the first item that holds `code` the name the user typed; clearing
/// the field removes the name.
pub fn rename_item(items: &mut Vec<TrackingItem>, code: &str, raw: &str)
    ensures
        match first_index(item_views(old(items)@), code@) {
            None => final(items)@ == old(items)@,
            Some(i) => {
                &&& final(items)@.len() == old(items)@.len()
                &&& forall|j: int|
                    0 <= j < old(items)@.len() && j != i ==> #[trigger] final(items)@[j] == old(
                        items,
                    )@[j]
                &&& final(items)@[i]@ == (ItemView { name: entered(raw@), ..old(items)@[i]@ })
            },
        },
        codes(item_views(final(items)@)) == codes(item_views(old(items)@)),
{
    let ghost before = items@;
    match find_item(items, code) {
        None => {},
        Some(i) => {
            let mut item = items.remove(i);
            item.name = entered_text(raw);
            items.insert(i, item);
            assert forall|j: int| 0 <= j < before.len() && j != i implies #[trigger] items@[j]
                == before[j] by {
                if j < i {
                    assert(items@[j] == before[j]);
                } else {
                    assert(items@[j] == before[j]);
                }
            }
        },
    }
    assert(codes(item_views(items@)) =~= codes(item_views(before)));
}

/// Gives the first item that holds `code` the postcode the user typed;
/// clearing the field removes the postcode.
pub fn set_item_zip(items: &mut Vec<TrackingItem>, code: &str, raw: &str)
    ensures
        match first_index(item_views(old(items)@), code@) {
            None => final(items)@ == old(items)@,
            Some(i) => {
                &&& final(items)@.len() == old(items)@.len()
                &&& forall|j: int|
                    0 <= j < old(items)@.len() && j != i ==> #[trigger] final(items)@[j] == old(
                        items,
                    )@[j]
                &&& final(items)@[i]@ == (ItemView { zip: entered(raw@), ..old(items)@[i]@ })
            },
        },
        codes(item_views(final(items)@)) == codes(item_views(old(items)@)),
{
    let ghost before = items@;
    match find_item(items, code) {
        None => {},
        Some(i) => {
            let mut item = items.remove(i);
            item.zip = entered_text(raw);
            items.insert(i, item);
            assert forall|j: int| 0 <= j < before.len() && j != i implies #[trigger] items@[j]
                == before[j] by {
                if j < i {
                    assert(items@[j] == before[j]);
                } else {
                    assert(items@[j] == before[j]);
                }
            }
        },
    }
    assert(codes(item_views(items@)) =~= codes(item_views(before)));
}

/// The name a shipment is listed under: its custom name, else its tracking number.
pub fn display_name(item: &TrackingItem) -> (s: String)
    ensures
        s@ == match item@.name {
            Some(n) => n,
            None => item@.code,
        },
{
    match &item.name {
        Some(n) => n.clone(),
        None => item.code.clone(),
    }
}

/// The line shown under a shipment's name: its summary, which names the short
/// status, the progress step and the delivery window (see [`summarize`]).
pub fn latest_status(item: &TrackingItem) -> (s: String)
    ensures
        s@ == item@.last_status,
{
    item.last_status.clone()
}

/// The hint under the postcode field of the detail window.
pub fn zip_hint(plz_required: bool) -> (s: String)
    ensures
        s@ == if plz_required {
            "DHL withholds details for this shipment until you enter the recipient postcode."@
        } else {
            "DHL reports nothing withheld here, so a postcode adds nothing."@
        },
{
    if plz_required {
        String::from_str(
            "DHL withholds details for this shipment until you enter the recipient postcode.",
        )
    } else {
        String::from_str("DHL reports nothing withheld here, so a postcode adds nothing.")
    }
}

/// The first line of an event in the detail window: its time and its place.
pub fn event_meta(e: &TrackingEvent) -> (s: String)
    ensures
        s@ == e@.timestamp + " — "@ + e@.location,
{
    concat3(e.timestamp.as_str(), " — ", e.location.as_str())
}

fn copy_event(e: &TrackingEvent) -> (r: TrackingEvent)
    ensures
        r@ == e@,
{
    TrackingEvent {
        timestamp: e.timestamp.clone(),
        location: e.location.clone(),
        description: e.description.clone(),
    }
}

/// The events newest first, the order of the detail window.
pub fn events_newest_first(events: &Vec<TrackingEvent>) -> (r: Vec<TrackingEvent>)
    ensures
        event_views(r@) == event_views(events@).reverse(),
{
    let n = events.len();
    let mut r: Vec<TrackingEvent> = Vec::new();
    let mut i: usize = 0;
    while i < n
        invariant
            n == events@.len(),
            i <= n,
            r@.len() == i,
            forall|k: int| 0 <= k < i ==> (#[trigger] r@[k])@ == events@[n - 1 - k]@,
        decreases n - i,
    {
        r.push(copy_event(&events[n - 1 - i]));
        i = i + 1;
    }
    assert(event_views(r@) =~= event_views(events@).reverse());
    r
}

/// Adding a tracking number and archiving it again leaves the list as it was.
pub proof fn law_add_then_archive(items: Seq<ItemView>, code: Seq<char>)
    requires
        !lists(items, code),
    ensures
        first_index(items.push(new_item(code)), code) == Some(items.len() as int),
        items.push(new_item(code)).remove(items.len() as int) == items,
{
    let after = items.push(new_item(code));
    assert forall|j: int| 0 <= j < items.len() implies #[trigger] after[j].code != code by {
        assert(after[j] == items[j]);
    }
    lemma_first_index(after, code, items.len() as int);
    assert(after.remove(items.len() as int) =~= items);
}

/// A list whose tracking numbers are unique keeps them unique under every
/// change: adding refuses a listed number, and the other changes keep the
/// numbers as they are or remove one.
pub proof fn law_codes_stay_unique(before: Seq<ItemView>, after: Seq<ItemView>, removed: Option<int>)
    requires
        codes_unique(before),
        match removed {
            None => codes(after) == codes(before),
            Some(i) => 0 <= i < before.len() && after == before.remove(i),
        },
    ensures
        codes_unique(after),
{
    match removed {
        None => {
            assert(after.len() == codes(after).len());
            assert forall|i: int, j: int| 0 <= i < j < after.len() implies after[i].code
                != after[j].code by {
                assert(codes(after)[i] == after[i].code);
                assert(codes(after)[j] == after[j].code);
                assert(codes(after)[i] == codes(before)[i]);
                assert(codes(after)[j] == codes(before)[j]);
            }
        },
        Some(k) => {
            assert forall|i: int, j: int| 0 <= i < j < after.len() implies after[i].code
                != after[j].code by {
                let oi = if i < k {
                    i
                } else {
                    i + 1
                };
                let oj = if j < k {
                    j
                } else {
                    j + 1
                };
                assert(after[i] == before[oi]);
                assert(after[j] == before[oj]);
            }
        },
    }
}

/// An archived shipment is no longer in the list, so no refresh looks it up
/// again: with unique tracking numbers, removing the item that holds a number
/// removes the number.
pub proof fn law_archived_not_refreshed(items: Seq<ItemView>, code: Seq<char>, i: int)
    requires
        codes_unique(items),
        is_first(items, code, i),
    ensures
        !lists(items.remove(i), code),
{
    let after = items.remove(i);
    assert forall|j: int| 0 <= j < after.len() implies #[trigger] after[j].code != code by {
        if j < i {
            assert(after[j] == items[j]);
        } else {
            assert(after[j] == items[j + 1]);
        }
    }
}

/// After a successful lookup an item shows the events taken in, keeps its
/// number, name and postcode, and counts as withholding exactly when the
/// details are censored or ask for the postcode.
pub proof fn law_refresh_takes_flags(item: ItemView, d: DetailsView)
    ensures
        updated_item(item, d).plz_required == (d.censored || d.plz_required),
        updated_item(item, d).events == d.events,
        updated_item(item, d).code == item.code,
        updated_item(item, d).name == item.name,
        updated_item(item, d).zip == item.zip,
{
}

/// The shipping date is only asked for while a shipment has no events: once it
/// has some, whether DHL wants the shipping date does not change its summary.
/// Without events, a request for the shipping date is named in the summary.
pub proof fn law_shipping_date_only_without_events(item: ItemView, d: DetailsView)
    ensures
        item.events.len() > 0 ==> summary(item, d) == summary(
            item,
            DetailsView { versanddatum_required: !d.versanddatum_required, ..d },
        ),
        item.events.len() == 0 && d.versanddatum_required ==> summary_parts(item, d).contains(
            "shipping date required"@,
        ),
{
    let flipped = DetailsView { versanddatum_required: !d.versanddatum_required, ..d };
    if item.events.len() > 0 {
        assert(summary_parts(item, d) == summary_parts(item, flipped));
    }
    if item.events.len() == 0 && d.versanddatum_required {
        let p = summary_parts(item, d);
        let k: int = (status_part(d).len() + progress_part(d).len() + window_part(d).len()) as int;
        assert(p[k] == "shipping date required"@);
    }
}

/// After a failed lookup an item has no events, shows the error prefixed by
/// "Error: ", and keeps its number, name, postcode and postcode flag.
pub proof fn law_failure_clears_events(item: ItemView, error: Seq<char>)
    ensures
        failed_item(item, error).events.len() == 0,
        failed_item(item, error).last_status == "Error: "@ + error,
        failed_item(item, error).code == item.code,
        failed_item(item, error).name == item.name,
        failed_item(item, error).zip == item.zip,
        failed_item(item, error).plz_required == item.plz_required,
{
}

} // verus!
