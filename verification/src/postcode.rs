//! The postcode-verified view of a DHL shipment: the session that the request
//! needs, and what DHL's answer to a postcode amounts to.
use vstd::prelude::*;
use vstd::string::*;
use crate::dhl::{
    details_from_response, response_details, text_or, ApiResponse, DetailsView,
    TrackingDetails,
};
use crate::text::{
    concat2, joined, law_decimal_round_trip, parse_i64, parsed_i64, render_i64, signed_decimal,
    views, join,
};

verus! {

/// The part of a `Set-Cookie` value before its first `;`: the cookie's name
/// and value without its attributes.
pub open spec fn cookie_pair(s: Seq<char>) -> Seq<char>
    decreases s.len(),
{
    if s.len() == 0 {
        s
    } else if s[0] == ';' {
        seq![]
    } else {
        seq![s[0]] + cookie_pair(s.drop_first())
    }
}

/// The cookie pairs of the `Set-Cookie` values that are text, in order.
pub open spec fn cookie_pairs(values: Seq<Option<String>>) -> Seq<Seq<char>>
    decreases values.len(),
{
    if values.len() == 0 {
        seq![]
    } else {
        let rest = cookie_pairs(values.drop_last());
        match values.last() {
            Some(v) => rest.push(cookie_pair(v@)),
            None => rest,
        }
    }
}

/// The `Cookie` header that sends back the cookies a session set.
pub open spec fn cookie_header(values: Seq<Option<String>>) -> Seq<char> {
    joined(cookie_pairs(values), "; "@)
}

fn first_pair(s: &str) -> (r: String)
    ensures
        r@ == cookie_pair(s@),
{
    let n = s.unicode_len();
    let mut i: usize = 0;
    assert(s@.skip(0) =~= s@);
    while i < n && s.get_char(i) != ';'
        invariant
            n == s@.len(),
            i <= n,
            cookie_pair(s@) == s@.take(i as int) + cookie_pair(s@.skip(i as int)),
        decreases n - i,
    {
        assert(s@.skip(i as int).drop_first() =~= s@.skip(i + 1));
        assert(s@.take(i + 1) =~= s@.take(i as int) + seq![s@[i as int]]);
        i = i + 1;
    }
    assert(s@.take(i as int) + cookie_pair(s@.skip(i as int)) =~= s@.take(i as int));
    String::from_str(s.substring_char(0, i))
}

/// Joins the cookies that a session set into one `Cookie` header. Values that
/// are not text are skipped.
pub fn session_cookies(values: &Vec<Option<String>>) -> (r: String)
    ensures
        r@ == cookie_header(values@),
{
    let mut parts: Vec<String> = Vec::new();
    let mut i: usize = 0;
    while i < values.len()
        invariant
            i <= values.len(),
            views(parts@) == cookie_pairs(values@.take(i as int)),
        decreases values.len() - i,
    {
        assert(values@.take(i + 1).drop_last() =~= values@.take(i as int));
        if let Some(v) = &values[i] {
            let pair = first_pair(v.as_str());
            parts.push(pair);
            assert(views(parts@) =~= cookie_pairs(values@.take(i as int)).push(pair@));
        }
        i = i + 1;
    }
    assert(values@.take(values.len() as int) =~= values@);
    join(&parts, "; ")
}

/// What the tracker reads from the session configuration: its CSRF token, if
/// it holds one as text.
pub struct SessionConfig {
    pub csrf_token: Option<String>,
}

/// The answer to the session request: its HTTP status, the values of its
/// `Set-Cookie` headers (`None` where a value is not visible ASCII), and its
/// body read as a configuration (`None` when the body is no JSON).
pub struct SessionReply {
    pub status: u16,
    pub set_cookies: Vec<Option<String>>,
    pub config: Option<SessionConfig>,
}

/// The CSRF token and the cookie header that a postcode request needs, or the
/// reason why the session could not be had.
pub open spec fn session_of(reply: Result<SessionReply, String>) -> Result<
    (Seq<char>, Seq<char>),
    Seq<char>,
> {
    match reply {
        Err(e) => Err(e@),
        Ok(r) => if 400 <= r.status <= 599 {
            Err("DHL session config returned an error status"@)
        } else {
            match r.config {
                None => Err("Failed to parse DHL session config"@),
                Some(c) => match c.csrf_token {
                    None => Err("DHL session config contained no CSRF token"@),
                    Some(t) => Ok((t@, cookie_header(r.set_cookies@))),
                },
            }
        },
    }
}

/// The text of a token and cookie pair, or of an error.
pub open spec fn pair_outcome(r: Result<(String, String), String>) -> Result<
    (Seq<char>, Seq<char>),
    Seq<char>,
> {
    match r {
        Ok((a, b)) => Ok((a@, b@)),
        Err(e) => Err(e@),
    }
}

/// Takes the CSRF token and the session cookies from the answer to the
/// session request.
pub fn session_from_reply(reply: Result<SessionReply, String>) -> (res: Result<
    (String, String),
    String,
>)
    ensures
        pair_outcome(res) == session_of(reply),
{
    match reply {
        Err(e) => Err(e),
        Ok(r) => {
            if 400 <= r.status && r.status <= 599 {
                return Err(String::from_str("DHL session config returned an error status"));
            }
            let cookies = session_cookies(&r.set_cookies);
            match r.config {
                None => Err(String::from_str("Failed to parse DHL session config")),
                Some(c) => match c.csrf_token {
                    None => Err(String::from_str("DHL session config contained no CSRF token")),
                    Some(t) => Ok((t, cookies)),
                },
            }
        },
    }
}

/// The `blockTime` of DHL's refusal, as the JSON value gives it: the value as
/// an `i64` if it is an integer in range, as text if it is a string, and the
/// value written out as JSON.
pub struct BlockTime {
    pub number: Option<i64>,
    pub text: Option<String>,
    pub rendered: String,
}

/// The unix timestamp that a block time holds: the integer, or the string read
/// as a decimal integer.
pub open spec fn block_stamp(b: BlockTime) -> Option<i64> {
    match b.number {
        Some(n) => Some(n),
        None => match b.text {
            Some(t) => parsed_i64(t@),
            None => None,
        },
    }
}

/// The timestamp of a block time in seconds: DHL sends milliseconds at times,
/// recognisable as values above 100 000 000 000.
pub open spec fn block_seconds(stamp: i64) -> i64 {
    if stamp > 100_000_000_000 {
        (stamp / 1000) as i64
    } else {
        stamp
    }
}

/// The unix timestamp that a block time holds.
pub fn stamp_of(b: &BlockTime) -> (r: Option<i64>)
    ensures
        r == block_stamp(*b),
{
    match b.number {
        Some(n) => Some(n),
        None => match &b.text {
            Some(t) => parse_i64(t.as_str()),
            None => None,
        },
    }
}

/// The end of a block in unix seconds.
pub fn seconds_of(stamp: i64) -> (r: i64)
    ensures
        r == block_seconds(stamp),
{
    if stamp > 100_000_000_000 {
        stamp / 1000
    } else {
        stamp
    }
}

/// A block ends at the same time whichever form DHL gives its stamp in: in
/// milliseconds, in seconds, or as the decimal text of either. A stamp above
/// 100 000 000 000 (and below 100 000 000 000 000) is read as milliseconds,
/// which leads to the same second as the stamp divided by 1000, and the text of
/// a stamp is read back as that stamp.
pub proof fn law_block_time_forms(stamp: i64, as_text: BlockTime)
    requires
        100_000_000_000 < stamp <= 100_000_000_000_000,
        as_text.number is None,
        as_text.text matches Some(t) && t@ == signed_decimal(stamp as int),
    ensures
        block_seconds(stamp) == block_seconds((stamp / 1000) as i64),
        block_seconds(stamp) == (stamp / 1000) as i64,
        parsed_i64(signed_decimal(stamp as int)) == Some(stamp),
        block_stamp(as_text) == Some(stamp),
{
    assert(stamp / 1000 <= 100_000_000_000) by (nonlinear_arith)
        requires
            stamp <= 100_000_000_000_000,
    ;
    law_decimal_round_trip(stamp);
}

/// The message that reports a block until the given time.
pub open spec fn blocked_message(until: Seq<char>) -> Seq<char> {
    "too many wrong attempts, DHL blocked PLZ lookups until "@ + until
}

/// The time at which a block ends as the tracker shows it: the local time of
/// day if it could be formatted, else the raw timestamp.
pub open spec fn block_until(stamp: i64, local: Option<String>) -> Seq<char> {
    match local {
        Some(t) => t@,
        None => signed_decimal(stamp as int),
    }
}

/// The message that reports a block that ends at `stamp`, given the local time
/// of day that the stamp was formatted to, if any.
pub fn blocked_until(stamp: i64, local: Option<String>) -> (r: String)
    ensures
        r@ == blocked_message(block_until(stamp, local)),
{
    let until = match local {
        Some(t) => t,
        None => render_i64(stamp),
    };
    concat2("too many wrong attempts, DHL blocked PLZ lookups until ", until.as_str())
}

/// The body of DHL's answer to a postcode, read as JSON: its `blockTime`, its
/// `error` if that is a string, and the whole body read as a tracker reply
/// (`None` when it is none).
pub struct ZipBody {
    pub block_time: Option<BlockTime>,
    pub error: Option<String>,
    pub payload: Option<ApiResponse>,
}

/// The answer to a postcode request: its HTTP status and its body (`None`
/// when the body is no JSON).
pub struct ZipReply {
    pub status: u16,
    pub body: Option<ZipBody>,
}

/// What DHL's answer to a postcode amounts to.
pub enum ZipVerdict {
    /// The postcode unlocked these details.
    Unlocked(TrackingDetails),
    /// DHL refused, for this reason.
    Refused(String),
    /// DHL blocks further postcode lookups until this timestamp.
    Blocked(i64),
}

/// A [`ZipVerdict`] with its text taken as character sequences.
pub enum ZipVerdictView {
    Unlocked(DetailsView),
    Refused(Seq<char>),
    Blocked(i64),
}

impl View for ZipVerdict {
    type V = ZipVerdictView;

    open spec fn view(&self) -> ZipVerdictView {
        match self {
            ZipVerdict::Unlocked(d) => ZipVerdictView::Unlocked(d@),
            ZipVerdict::Refused(e) => ZipVerdictView::Refused(e@),
            ZipVerdict::Blocked(s) => ZipVerdictView::Blocked(*s),
        }
    }
}

/// What the answer to a postcode request amounts to.
pub open spec fn zip_verdict(reply: Result<ZipReply, String>) -> ZipVerdictView {
    match reply {
        Err(e) => ZipVerdictView::Refused(e@),
        Ok(r) => match r.body {
            None => ZipVerdictView::Refused("Failed to parse PLZ response"@),
            Some(b) => if !(200 <= r.status <= 299) {
                match b.block_time {
                    Some(bt) => match block_stamp(bt) {
                        Some(stamp) => ZipVerdictView::Blocked(stamp),
                        None => ZipVerdictView::Refused(blocked_message(bt.rendered@)),
                    },
                    None => ZipVerdictView::Refused(text_or(b.error, "DHL rejected the postcode"@)),
                }
            } else {
                match b.payload {
                    None => ZipVerdictView::Refused("Failed to parse PLZ payload"@),
                    Some(p) => match response_details(p) {
                        Ok(d) => ZipVerdictView::Unlocked(d),
                        Err(e) => ZipVerdictView::Refused(e),
                    },
                }
            },
        },
    }
}

/// Decides what the answer to a postcode request amounts to.
pub fn judge_zip_reply(reply: Result<ZipReply, String>) -> (v: ZipVerdict)
    ensures
        v@ == zip_verdict(reply),
{
    match reply {
        Err(e) => ZipVerdict::Refused(e),
        Ok(r) => match r.body {
            None => ZipVerdict::Refused(String::from_str("Failed to parse PLZ response")),
            Some(b) => {
                if !(200 <= r.status && r.status <= 299) {
                    match b.block_time {
                        Some(bt) => match stamp_of(&bt) {
                            Some(stamp) => ZipVerdict::Blocked(stamp),
                            None => ZipVerdict::Refused(
                                concat2(
                                    "too many wrong attempts, DHL blocked PLZ lookups until ",
                                    bt.rendered.as_str(),
                                ),
                            ),
                        },
                        None => match b.error {
                            Some(e) => ZipVerdict::Refused(e),
                            None => ZipVerdict::Refused(String::from_str("DHL rejected the postcode")),
                        },
                    }
                } else {
                    match b.payload {
                        None => ZipVerdict::Refused(String::from_str("Failed to parse PLZ payload")),
                        Some(p) => match details_from_response(p) {
                            Ok(d) => ZipVerdict::Unlocked(d),
                            Err(e) => ZipVerdict::Refused(e),
                        },
                    }
                }
            },
        },
    }
}

/// The anonymous details with the reason why the postcode did not unlock more.
pub open spec fn with_zip_error(anonymous: DetailsView, error: Seq<char>) -> DetailsView {
    DetailsView { zip_error: Some(error), ..anonymous }
}

/// Keeps the anonymous view and records why the postcode did not unlock more.
pub fn keep_anonymous(anonymous: TrackingDetails, error: String) -> (d: TrackingDetails)
    ensures
        d@ == with_zip_error(anonymous@, error@),
{
    let mut d = anonymous;
    d.zip_error = Some(error);
    d
}

} // verus!
