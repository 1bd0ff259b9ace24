//! The Matrix room tools: `matrix_history` fetches the recent messages of a
//! room, `matrix_rooms` lists the joined rooms with their names and aliases.
//!
//! The library plans the client-server API requests and turns the plain data
//! read from the responses into the tool's result.
use vstd::prelude::*;
use vstd::utf8::encode_utf8;
use crate::text::{
    chars_of, contains_chars, contains_run, decimal, push_decimal, str_eq, string_of_range,
    skip_trailing, strip_trailing,
};
use crate::directive::opt_view;
use crate::encoding::{encode_path_segment, percent_encode};

verus! {

/// Path of the client-server API under the homeserver URL.
pub const CLIENT_API_PREFIX: &'static str = "/_matrix/client/v3";

/// State event holding a room's display name.
pub const ROOM_NAME_EVENT: &'static str = "m.room.name";

/// State event holding a room's canonical alias.
pub const CANONICAL_ALIAS_EVENT: &'static str = "m.room.canonical_alias";

/// The event filter of the history request: message events only.
pub const MESSAGE_EVENT_FILTER: &'static str = "{\"types\":[\"m.room.message\"]}";

/// Messages fetched when the caller gives no limit.
pub const DEFAULT_HISTORY_LIMIT: u64 = 20;

/// Fewest messages fetched.
pub const MIN_HISTORY_LIMIT: u64 = 1;

/// Most messages fetched.
pub const MAX_HISTORY_LIMIT: u64 = 100;

/// The outcome of a tool call.
pub struct ToolResult {
    pub success: bool,
    pub output: String,
    pub error: Option<String>,
}

/// One parameter of a tool's JSON argument object: its name, JSON type and
/// description.
pub struct ToolParameter {
    pub name: &'static str,
    pub json_type: &'static str,
    pub description: &'static str,
}

/// What `chrono` renders for the UTC instant `secs` seconds and `nanos`
/// nanoseconds after the Unix epoch with the format `pattern`, or `None` when
/// the instant is out of chrono's range.
pub uninterp spec fn chrono_utc_format(secs: i64, nanos: u32, pattern: Seq<char>) -> Option<Seq<char>>;

/// The date format of history lines, down to the minute.
pub open spec fn minute_pattern() -> Seq<char> {
    "%Y-%m-%d %H:%M"@
}

/// `chrono::DateTime::from_timestamp(secs, nanos)` and, when it yields a
/// date, `format(pattern).to_string()` on it.  The contract names the result
/// as a function of the arguments; it admits only the pattern the library
/// uses, which chrono's formatter renders without error.
#[verifier::external_body]
fn format_utc_timestamp(secs: i64, nanos: u32, pattern: &str) -> (r: Option<String>)
    requires
        pattern@ == minute_pattern(),
    ensures
        opt_view(r) == chrono_utc_format(secs, nanos, pattern@),
{
    match chrono::DateTime::from_timestamp(secs, nanos) {
        Some(dt) => Some(dt.format(pattern).to_string()),
        None => None,
    }
}

/// What `str::to_lowercase` gives for `s` (full Unicode lower-case mapping).
pub uninterp spec fn lowercase(s: Seq<char>) -> Seq<char>;

/// `str::to_lowercase`: the contract only names the result as a function of
/// the text; the Unicode case mapping itself is left to the name.
#[verifier::external_body]
fn to_lowercase(s: &str) -> (r: String)
    ensures
        r@ == lowercase(s@),
{
    s.to_lowercase()
}

/// The text of `o`, or `d` when there is none.
pub open spec fn or_default(o: Option<String>, d: Seq<char>) -> Seq<char> {
    match o {
        Some(s) => s@,
        None => d,
    }
}

/// The lines joined with `sep` between consecutive ones.
pub open spec fn join_lines(lines: Seq<Seq<char>>, sep: Seq<char>) -> Seq<char>
    decreases lines.len(),
{
    if lines.len() == 0 {
        Seq::empty()
    } else if lines.len() == 1 {
        lines[0]
    } else {
        join_lines(lines.drop_last(), sep) + sep + lines.last()
    }
}

/// The failed result for an unsuccessful HTTP status.
pub open spec fn api_error_text(status: Seq<char>, body: Seq<char>) -> Seq<char> {
    "Matrix API returned "@ + status + ": "@ + body
}

/// The result of a request that the homeserver answered with an
/// unsuccessful status (`status` as the status line shows it, e.g.
/// `404 Not Found`, and the response body).
pub fn api_error_result(status: &str, body: &str) -> (r: ToolResult)
    ensures
        !r.success,
        r.output@ == Seq::<char>::empty(),
        r.error matches Some(e) && e@ == api_error_text(status@, body@),
{
    let mut e = "Matrix API returned ".to_owned();
    e.append(status);
    e.append(": ");
    e.append(body);
    ToolResult { success: false, output: String::new(), error: Some(e) }
}

/// The `Authorization` header value for an access token.
pub open spec fn bearer(token: Seq<char>) -> Seq<char> {
    "Bearer "@ + token
}

fn bearer_header(token: &str) -> (r: String)
    ensures
        r@ == bearer(token@),
{
    let mut r = "Bearer ".to_owned();
    r.append(token);
    r
}

/// The homeserver URL without its trailing slashes.
fn without_trailing_slashes(homeserver: String) -> (r: String)
    ensures
        r@ == strip_trailing(homeserver@, '/'),
{
    let v = chars_of(homeserver.as_str());
    let j = skip_trailing(&v, '/');
    assert(v@.subrange(0, j as int) =~= v@.take(j as int));
    string_of_range(&v, 0, j)
}

/// The homeserver URL kept by the tools never ends with `/`, and stripping
/// again changes nothing.
pub proof fn law_homeserver_has_no_trailing_slash(homeserver: Seq<char>)
    ensures
        !(strip_trailing(homeserver, '/').len() > 0 && strip_trailing(homeserver, '/').last()
            == '/'),
        strip_trailing(strip_trailing(homeserver, '/'), '/') == strip_trailing(homeserver, '/'),
    decreases homeserver.len(),
{
    if homeserver.len() > 0 && homeserver.last() == '/' {
        law_homeserver_has_no_trailing_slash(homeserver.drop_last());
    }
}

// ---------------------------------------------------------------- history

/// One message event of a room, as far as the history tool reads it.
pub struct RoomEvent {
    pub sender: Option<String>,
    pub origin_server_ts: Option<u64>,
    pub body: Option<String>,
    pub msgtype: Option<String>,
}

/// The event's timestamp in milliseconds, 0 when it has none.
pub open spec fn event_ts(e: RoomEvent) -> u64 {
    match e.origin_server_ts {
        Some(t) => t,
        None => 0,
    }
}

/// Whole seconds of a millisecond timestamp.
pub open spec fn ts_secs(ts: u64) -> i64 {
    (ts / 1000) as i64
}

/// Nanoseconds beyond the whole seconds of a millisecond timestamp.
pub open spec fn ts_nanos(ts: u64) -> u32 {
    ((ts % 1000) * 1000000) as u32
}

/// The date chrono renders for an event's timestamp.
pub open spec fn event_datetime(e: RoomEvent) -> Option<Seq<char>> {
    chrono_utc_format(ts_secs(event_ts(e)), ts_nanos(event_ts(e)), minute_pattern())
}

/// One history line: `[date] sender (msgtype): body`, the message type shown
/// only when it is not `m.text`, and the raw timestamp when no date could be
/// rendered.
pub open spec fn event_line(e: RoomEvent, datetime: Option<Seq<char>>) -> Seq<char> {
    let when = match datetime {
        Some(d) => d,
        None => decimal(event_ts(e) as nat),
    };
    let msgtype = or_default(e.msgtype, "m.text"@);
    let tag = if msgtype == "m.text"@ {
        Seq::<char>::empty()
    } else {
        " ("@ + msgtype + ")"@
    };
    "["@ + when + "] "@ + or_default(e.sender, "unknown"@) + tag + ": "@ + or_default(
        e.body,
        "[no text content]"@,
    )
}

/// The lines of a newest-first list of events, in chronological order.
pub open spec fn history_lines(events: Seq<RoomEvent>) -> Seq<Seq<char>> {
    Seq::new(
        events.len(),
        |k: int| event_line(events[events.len() - 1 - k], event_datetime(events[events.len() - 1 - k])),
    )
}

/// The output of the history tool for a room and its newest-first events.
pub open spec fn history_output(room_id: Seq<char>, events: Seq<RoomEvent>) -> Seq<char> {
    if events.len() == 0 {
        "No messages found in room "@ + room_id + "."@
    } else {
        "Room history ("@ + room_id + ") — "@ + decimal(events.len()) + " most recent messages:\n\n"@
            + join_lines(history_lines(events), "\n"@)
    }
}

/// The number of messages requested: the caller's limit within 1..=100, or 20.
pub open spec fn history_limit(limit: Option<u64>) -> u64 {
    match limit {
        Some(v) => if v < MIN_HISTORY_LIMIT {
            MIN_HISTORY_LIMIT
        } else if v > MAX_HISTORY_LIMIT {
            MAX_HISTORY_LIMIT
        } else {
            v
        },
        None => DEFAULT_HISTORY_LIMIT,
    }
}

/// The URL of the messages request: newest first (`dir=b`), `limit` of them,
/// message events only.
pub open spec fn messages_url(homeserver: Seq<char>, room_id: Seq<char>, limit: u64) -> Seq<char> {
    homeserver + CLIENT_API_PREFIX@ + "/rooms/"@ + percent_encode(encode_utf8(room_id))
        + "/messages?dir=b&limit="@ + decimal(limit as nat) + "&filter="@ + MESSAGE_EVENT_FILTER@
}

/// The request the history tool makes.
pub struct HistoryRequest {
    /// The room whose history is fetched.
    pub room_id: String,
    /// The URL of the messages request.
    pub url: String,
}

/// Why the history tool makes no request.
pub enum HistoryError {
    /// Neither the call nor the configuration names a room.
    NoRoomId,
}

impl HistoryError {
    /// The error message.
    pub fn message(&self) -> (r: &'static str)
        ensures
            r@ == "No room_id provided and no default room configured"@,
    {
        "No room_id provided and no default room configured"
    }
}

/// Fetches recent message history from a Matrix room via the client-server API.
pub struct MatrixHistoryTool {
    homeserver: String,
    access_token: String,
    default_room_id: Option<String>,
}

impl MatrixHistoryTool {
    /// The homeserver URL, without trailing slashes.
    pub closed spec fn homeserver_view(&self) -> Seq<char> {
        self.homeserver@
    }

    /// The access token.
    pub closed spec fn access_token_view(&self) -> Seq<char> {
        self.access_token@
    }

    /// The room used when the call names none.
    pub closed spec fn default_room_view(&self) -> Option<Seq<char>> {
        opt_view(self.default_room_id)
    }

    /// A history tool for `homeserver` (trailing slashes dropped).
    pub fn new(homeserver: String, access_token: String, default_room_id: Option<String>) -> (t: Self)
        ensures
            t.homeserver_view() == strip_trailing(homeserver@, '/'),
            t.access_token_view() == access_token@,
            t.default_room_view() == opt_view(default_room_id),
    {
        MatrixHistoryTool {
            homeserver: without_trailing_slashes(homeserver),
            access_token,
            default_room_id,
        }
    }

    /// The tool's name.
    pub fn name(&self) -> (r: &'static str)
        ensures
            r@ == "matrix_history"@,
    {
        "matrix_history"
    }

    /// The tool's description.
    pub fn description(&self) -> (r: &'static str)
        ensures
            r@ == "Fetch recent message history from a Matrix room. Returns the most recent messages with sender, timestamp, and content. Use to review earlier conversation or catch up on missed context."@,
    {
        "Fetch recent message history from a Matrix room. Returns the most recent messages with sender, timestamp, and content. Use to review earlier conversation or catch up on missed context."
    }

    /// The parameters the tool accepts: an optional room and an optional
    /// number of messages.
    pub fn parameters(&self) -> (r: Vec<ToolParameter>)
        ensures
            r@.len() == 2,
            r@[0].name@ == "room_id"@,
            r@[0].json_type@ == "string"@,
            r@[0].description@
                == "Matrix room ID (e.g. !abc:matrix.org). Omit to use the current room."@,
            r@[1].name@ == "limit"@,
            r@[1].json_type@ == "integer"@,
            r@[1].description@ == "Number of messages to fetch (default: 20, max: 100)"@,
    {
        let mut r = Vec::new();
        r.push(
            ToolParameter {
                name: "room_id",
                json_type: "string",
                description: "Matrix room ID (e.g. !abc:matrix.org). Omit to use the current room.",
            },
        );
        r.push(
            ToolParameter {
                name: "limit",
                json_type: "integer",
                description: "Number of messages to fetch (default: 20, max: 100)",
            },
        );
        r
    }

    /// The homeserver URL.
    pub fn homeserver(&self) -> (r: &str)
        ensures
            r@ == self.homeserver_view(),
    {
        self.homeserver.as_str()
    }

    /// The `Authorization` header value of the tool's requests.
    pub fn authorization(&self) -> (r: String)
        ensures
            r@ == bearer(self.access_token_view()),
    {
        bearer_header(self.access_token.as_str())
    }

    /// The number of messages to fetch for the caller's `limit`.
    pub fn clamp_limit(limit: Option<u64>) -> (r: u64)
        ensures
            r == history_limit(limit),
            MIN_HISTORY_LIMIT <= r <= MAX_HISTORY_LIMIT,
    {
        match limit {
            Some(v) => if v < MIN_HISTORY_LIMIT {
                MIN_HISTORY_LIMIT
            } else if v > MAX_HISTORY_LIMIT {
                MAX_HISTORY_LIMIT
            } else {
                v
            },
            None => DEFAULT_HISTORY_LIMIT,
        }
    }

    /// The request for a call naming `room_id` (else the default room) and
    /// `limit`.
    pub fn plan_request(&self, room_id: Option<String>, limit: Option<u64>) -> (r: Result<HistoryRequest, HistoryError>)
        ensures
            ({
                let chosen = match room_id {
                    Some(id) => Some(id@),
                    None => self.default_room_view(),
                };
                match r {
                    Ok(req) => {
                        &&& chosen == Some(req.room_id@)
                        &&& req.url@ == messages_url(
                            self.homeserver_view(),
                            req.room_id@,
                            history_limit(limit),
                        )
                    },
                    Err(_) => chosen is None,
                }
            }),
    {
        let room = match room_id {
            Some(id) => id,
            None => match &self.default_room_id {
                Some(id) => id.clone(),
                None => {
                    return Err(HistoryError::NoRoomId);
                },
            },
        };
        let lim = Self::clamp_limit(limit);
        let encoded = encode_path_segment(room.as_str());
        let mut url = self.homeserver.clone();
        url.append(CLIENT_API_PREFIX);
        url.append("/rooms/");
        url.append(encoded.as_str());
        url.append("/messages?dir=b&limit=");
        push_decimal(&mut url, lim);
        url.append("&filter=");
        url.append(MESSAGE_EVENT_FILTER);
        Ok(HistoryRequest { room_id: room, url })
    }

    /// One history line for `event`, given what chrono rendered for its
    /// timestamp (`None` when it rendered nothing).
    pub fn format_event_line(event: &RoomEvent, datetime: Option<String>) -> (r: String)
        ensures
            r@ == event_line(*event, opt_view(datetime)),
    {
        let ts: u64 = match event.origin_server_ts {
            Some(t) => t,
            None => 0,
        };
        let mut line = "[".to_owned();
        match datetime {
            Some(d) => line.append(d.as_str()),
            None => push_decimal(&mut line, ts),
        }
        line.append("] ");
        match &event.sender {
            Some(s) => line.append(s.as_str()),
            None => line.append("unknown"),
        }
        let msgtype: &str = match &event.msgtype {
            Some(m) => m.as_str(),
            None => "m.text",
        };
        if !str_eq(msgtype, "m.text") {
            line.append(" (");
            line.append(msgtype);
            line.append(")");
        }
        line.append(": ");
        match &event.body {
            Some(b) => line.append(b.as_str()),
            None => line.append("[no text content]"),
        }
        line
    }

    /// The history line of an event, its date rendered by chrono.
    fn event_line_of(event: &RoomEvent) -> (r: String)
        ensures
            r@ == event_line(*event, event_datetime(*event)),
    {
        let ts: u64 = match event.origin_server_ts {
            Some(t) => t,
            None => 0,
        };
        let secs: i64 = (ts / 1000) as i64;
        let nanos: u32 = ((ts % 1000) * 1000000) as u32;
        let datetime = format_utc_timestamp(secs, nanos, "%Y-%m-%d %H:%M");
        Self::format_event_line(event, datetime)
    }

    /// The tool's result for a room and its events as the homeserver returned
    /// them (newest first): the lines in chronological order under a header.
    pub fn history_result(room_id: &str, events: &Vec<RoomEvent>) -> (r: ToolResult)
        ensures
            r.success,
            r.error is None,
            r.output@ == history_output(room_id@, events@),
    {
        let n = events.len();
        if n == 0 {
            let mut out = "No messages found in room ".to_owned();
            out.append(room_id);
            out.append(".");
            return ToolResult { success: true, output: out, error: None };
        }
        let ghost lines = history_lines(events@);
        let mut body = String::new();
        let mut k: usize = 0;
        while k < n
            invariant
                n == events@.len(),
                n > 0,
                k <= n,
                lines == history_lines(events@),
                body@ == join_lines(lines.take(k as int), "\n"@),
            decreases n - k,
        {
            let line = Self::event_line_of(&events[n - 1 - k]);
            assert(line@ == lines[k as int]);
            let ghost prev = body@;
            if k > 0 {
                body.append("\n");
            }
            body.append(line.as_str());
            proof {
                let t = lines.take(k + 1);
                assert(t.drop_last() =~= lines.take(k as int));
                assert(t.last() == lines[k as int]);
                if k == 0 {
                    assert(prev == Seq::<char>::empty());
                    assert(body@ =~= t[0]);
                }
            }
            k += 1;
        }
        assert(lines.take(n as int) =~= lines);
        let mut out = "Room history (".to_owned();
        out.append(room_id);
        out.append(") — ");
        push_decimal(&mut out, n as u64);
        out.append(" most recent messages:\n\n");
        out.append(body.as_str());
        ToolResult { success: true, output: out, error: None }
    }
}

// ---------------------------------------------------------------- rooms

/// A joined room, its display name and canonical alias.
pub struct RoomInfo {
    pub room_id: String,
    pub name: Option<String>,
    pub alias: Option<String>,
}

/// A room passes a (lower-case) filter when the filter occurs in its
/// lower-cased name or alias.
pub open spec fn room_matches(r: RoomInfo, filter: Seq<char>) -> bool {
    ||| contains_run(lowercase(or_default(r.name, Seq::empty())), filter)
    ||| contains_run(lowercase(or_default(r.alias, Seq::empty())), filter)
}

/// The rooms that pass the filter, in their order.
pub open spec fn rooms_passing(rooms: Seq<RoomInfo>, filter: Option<Seq<char>>) -> Seq<RoomInfo>
    decreases rooms.len(),
{
    if rooms.len() == 0 {
        Seq::empty()
    } else {
        let kept = rooms_passing(rooms.drop_last(), filter);
        let passes = match filter {
            Some(f) => room_matches(rooms.last(), f),
            None => true,
        };
        if passes {
            kept.push(rooms.last())
        } else {
            kept
        }
    }
}

/// The listing line of a room: its name (or `(unnamed)`), id and alias.
pub open spec fn room_line(r: RoomInfo) -> Seq<char> {
    "- "@ + or_default(r.name, "(unnamed)"@) + "\n  id: "@ + r.room_id@ + (match r.alias {
        Some(a) => "  alias: "@ + a@,
        None => Seq::<char>::empty(),
    })
}

/// The output of the rooms tool for the rooms found and the filter.
pub open spec fn rooms_output(rooms: Seq<RoomInfo>, filter: Option<Seq<char>>) -> Seq<char> {
    let kept = rooms_passing(rooms, filter);
    if kept.len() == 0 {
        match filter {
            Some(f) => "No rooms matched filter \""@ + f + "\"."@,
            None => "No joined rooms found."@,
        }
    } else {
        "Joined rooms ("@ + decimal(kept.len()) + " total):\n\n"@ + join_lines(
            kept.map_values(|r: RoomInfo| room_line(r)),
            "\n"@,
        )
    }
}

/// The room ids among the entries of `joined_rooms`, in order; entries that
/// are not strings are `None` and skipped.
pub open spec fn string_entries(raw: Seq<Option<String>>) -> Seq<Seq<char>>
    decreases raw.len(),
{
    if raw.len() == 0 {
        Seq::empty()
    } else {
        let ids = string_entries(raw.drop_last());
        match raw.last() {
            Some(s) => ids.push(s@),
            None => ids,
        }
    }
}

/// What follows the list of joined rooms.
pub enum JoinedRoomsStep {
    /// The list is empty: this is the tool's result.
    Finished(ToolResult),
    /// Fetch the name and alias of each of these rooms.
    FetchDetails(Vec<String>),
}

/// Lists joined Matrix rooms with their display names, enabling room name resolution.
pub struct MatrixRoomsTool {
    homeserver: String,
    access_token: String,
}

impl MatrixRoomsTool {
    /// The homeserver URL, without trailing slashes.
    pub closed spec fn homeserver_view(&self) -> Seq<char> {
        self.homeserver@
    }

    /// The access token.
    pub closed spec fn access_token_view(&self) -> Seq<char> {
        self.access_token@
    }

    /// A rooms tool for `homeserver` (trailing slashes dropped).
    pub fn new(homeserver: String, access_token: String) -> (t: Self)
        ensures
            t.homeserver_view() == strip_trailing(homeserver@, '/'),
            t.access_token_view() == access_token@,
    {
        MatrixRoomsTool { homeserver: without_trailing_slashes(homeserver), access_token }
    }

    /// The tool's name.
    pub fn name(&self) -> (r: &'static str)
        ensures
            r@ == "matrix_rooms"@,
    {
        "matrix_rooms"
    }

    /// The tool's description.
    pub fn description(&self) -> (r: &'static str)
        ensures
            r@ == "List joined Matrix rooms with display names and aliases. Use to resolve a room name (e.g. \"General\") to its room ID, or to discover available rooms."@,
    {
        "List joined Matrix rooms with display names and aliases. Use to resolve a room name (e.g. \"General\") to its room ID, or to discover available rooms."
    }

    /// The homeserver URL.
    pub fn homeserver(&self) -> (r: &str)
        ensures
            r@ == self.homeserver_view(),
    {
        self.homeserver.as_str()
    }

    /// The `Authorization` header value of the tool's requests.
    pub fn authorization(&self) -> (r: String)
        ensures
            r@ == bearer(self.access_token_view()),
    {
        bearer_header(self.access_token.as_str())
    }

    /// The parameter the tool accepts: an optional filter.
    pub fn parameters(&self) -> (r: Vec<ToolParameter>)
        ensures
            r@.len() == 1,
            r@[0].name@ == "filter"@,
            r@[0].json_type@ == "string"@,
            r@[0].description@
                == "Optional case-insensitive substring to filter rooms by name or alias."@,
    {
        let mut r = Vec::new();
        r.push(
            ToolParameter {
                name: "filter",
                json_type: "string",
                description: "Optional case-insensitive substring to filter rooms by name or alias.",
            },
        );
        r
    }

    /// The URL listing the joined rooms.
    pub fn joined_rooms_url(&self) -> (r: String)
        ensures
            r@ == self.homeserver_view() + CLIENT_API_PREFIX@ + "/joined_rooms"@,
    {
        let mut url = self.homeserver.clone();
        url.append(CLIENT_API_PREFIX);
        url.append("/joined_rooms");
        url
    }

    /// The URL of a state event of a room (`encoded_room_id` already
    /// percent-encoded).
    pub fn state_event_url(&self, encoded_room_id: &str, event_type: &str) -> (r: String)
        ensures
            r@ == self.homeserver_view() + CLIENT_API_PREFIX@ + "/rooms/"@ + encoded_room_id@
                + "/state/"@ + event_type@,
    {
        let mut url = self.homeserver.clone();
        url.append(CLIENT_API_PREFIX);
        url.append("/rooms/");
        url.append(encoded_room_id);
        url.append("/state/");
        url.append(event_type);
        url
    }

    /// The filter of a call, lower-cased.
    pub fn normalize_filter(filter: Option<&str>) -> (r: Option<String>)
        ensures
            opt_view(r) == (match filter {
                Some(f) => Some(lowercase(f@)),
                None => None,
            }),
    {
        match filter {
            Some(f) => Some(to_lowercase(f)),
            None => None,
        }
    }

    /// Whether a room passes the filter, from the lower-cased name and alias
    /// (each empty when absent) of the room.
    pub fn passes_filter(lower_name: &str, lower_alias: &str, filter: &str) -> (r: bool)
        ensures
            r == (contains_run(lower_name@, filter@) || contains_run(lower_alias@, filter@)),
    {
        let f = chars_of(filter);
        contains_chars(&chars_of(lower_name), &f) || contains_chars(&chars_of(lower_alias), &f)
    }

    /// Whether a room passes a lower-case filter.
    pub fn room_matches(room: &RoomInfo, filter: &str) -> (r: bool)
        ensures
            r == room_matches(*room, filter@),
    {
        let name = match &room.name {
            Some(n) => to_lowercase(n.as_str()),
            None => to_lowercase(""),
        };
        let alias = match &room.alias {
            Some(a) => to_lowercase(a.as_str()),
            None => to_lowercase(""),
        };
        proof {
            reveal_strlit("");
            assert(""@ =~= Seq::<char>::empty());
        }
        Self::passes_filter(name.as_str(), alias.as_str(), filter)
    }

    /// The listing line of a room.
    pub fn room_line(room: &RoomInfo) -> (r: String)
        ensures
            r@ == room_line(*room),
    {
        let mut line = "- ".to_owned();
        match &room.name {
            Some(n) => line.append(n.as_str()),
            None => line.append("(unnamed)"),
        }
        line.append("\n  id: ");
        line.append(room.room_id.as_str());
        match &room.alias {
            Some(a) => {
                line.append("  alias: ");
                line.append(a.as_str());
            },
            None => {},
        }
        line
    }

    /// What follows the `joined_rooms` response: its entries, `None` for each
    /// entry that is not a string.
    pub fn joined_rooms_step(raw: &Vec<Option<String>>) -> (r: JoinedRoomsStep)
        ensures
            raw@.len() == 0 ==> (r matches JoinedRoomsStep::Finished(res) && res.success
                && res.error is None && res.output@ == "No joined rooms found."@),
            raw@.len() > 0 ==> (r matches JoinedRoomsStep::FetchDetails(ids) && ids@.map_values(
                |s: String| s@,
            ) == string_entries(raw@)),
    {
        if raw.len() == 0 {
            return JoinedRoomsStep::Finished(
                ToolResult {
                    success: true,
                    output: "No joined rooms found.".to_owned(),
                    error: None,
                },
            );
        }
        let mut ids: Vec<String> = Vec::new();
        let mut i: usize = 0;
        while i < raw.len()
            invariant
                i <= raw@.len(),
                ids@.map_values(|s: String| s@) == string_entries(raw@.take(i as int)),
            decreases raw.len() - i,
        {
            proof {
                assert(raw@.take(i + 1).drop_last() =~= raw@.take(i as int));
                assert(raw@.take(i + 1).last() == raw@[i as int]);
            }
            match &raw[i] {
                Some(s) => {
                    ids.push(s.clone());
                    assert(ids@.map_values(|s: String| s@) =~= string_entries(
                        raw@.take(i as int),
                    ).push(s@));
                },
                None => {},
            }
            i += 1;
        }
        assert(raw@.take(raw@.len() as int) =~= raw@);
        JoinedRoomsStep::FetchDetails(ids)
    }

    /// The tool's result for the rooms found, with the call's filter (already
    /// lower-cased): the rooms that pass it, or a message when none does.
    pub fn rooms_result(rooms: &Vec<RoomInfo>, filter: Option<&str>) -> (r: ToolResult)
        ensures
            r.success,
            r.error is None,
            r.output@ == rooms_output(
                rooms@,
                match filter {
                    Some(f) => Some(f@),
                    None => None,
                },
            ),
    {
        let ghost fv: Option<Seq<char>> = match filter {
            Some(f) => Some(f@),
            None => None,
        };
        let mut body = String::new();
        let mut count: usize = 0;
        let mut i: usize = 0;
        while i < rooms.len()
            invariant
                i <= rooms@.len(),
                fv == (match filter {
                    Some(f) => Some(f@),
                    None => None::<Seq<char>>,
                }),
                count <= i,
                count == rooms_passing(rooms@.take(i as int), fv).len(),
                body@ == join_lines(
                    rooms_passing(rooms@.take(i as int), fv).map_values(|r: RoomInfo| room_line(r)),
                    "\n"@,
                ),
            decreases rooms.len() - i,
        {
            let room = &rooms[i];
            let passes = match filter {
                Some(f) => Self::room_matches(room, f),
                None => true,
            };
            let ghost kept = rooms_passing(rooms@.take(i as int), fv);
            proof {
                assert(rooms@.take(i + 1).drop_last() =~= rooms@.take(i as int));
                assert(rooms@.take(i + 1).last() == rooms@[i as int]);
            }
            if passes {
                let line = Self::room_line(room);
                let ghost prev = body@;
                if count > 0 {
                    body.append("\n");
                }
                body.append(line.as_str());
                proof {
                    let lines = kept.push(*room).map_values(|r: RoomInfo| room_line(r));
                    assert(lines.drop_last() =~= kept.map_values(|r: RoomInfo| room_line(r)));
                    assert(lines.last() == room_line(*room));
                    if count == 0 {
                        assert(body@ =~= lines[0]);
                    }
                }
                count += 1;
            }
            i += 1;
        }
        assert(rooms@.take(rooms@.len() as int) =~= rooms@);
        if count == 0 {
            let out = match filter {
                Some(f) => {
                    let mut m = "No rooms matched filter \"".to_owned();
                    m.append(f);
                    m.append("\".");
                    m
                },
                None => "No joined rooms found.".to_owned(),
            };
            return ToolResult { success: true, output: out, error: None };
        }
        let mut out = "Joined rooms (".to_owned();
        push_decimal(&mut out, count as u64);
        out.append(" total):\n\n");
        out.append(body.as_str());
        ToolResult { success: true, output: out, error: None }
    }
}

/// The history lists the events in the exact reverse of the order the
/// homeserver returns them (newest first), so it reads oldest first: line `k`
/// is the line of event `n - 1 - k`, and there is one line per event.
pub proof fn law_history_is_oldest_first(events: Seq<RoomEvent>)
    ensures
        history_lines(events).len() == events.len(),
        forall|k: int|
            0 <= k < events.len() ==> #[trigger] history_lines(events)[k] == event_line(
                events[events.len() - 1 - k],
                event_datetime(events[events.len() - 1 - k]),
            ),
{
}

/// An event older than all others (appended at the end of the newest-first
/// list) gets the first line, and the lines of the other events follow
/// unchanged and in the same order.
pub proof fn law_older_event_comes_first(events: Seq<RoomEvent>, older: RoomEvent)
    ensures
        history_lines(events.push(older)) == seq![event_line(older, event_datetime(older))]
            + history_lines(events),
{
    let n = events.len();
    let l = history_lines(events.push(older));
    let r = seq![event_line(older, event_datetime(older))] + history_lines(events);
    assert forall|k: int| 0 <= k < l.len() implies l[k] == r[k] by {
        if k == 0 {
            assert(events.push(older)[n as int] == older);
        } else {
            assert(events.push(older)[n - k] == events[n - 1 - (k - 1)]);
        }
    }
    assert(l =~= r);
}

/// Filtering distributes over concatenation: the rooms kept from `a + b` are
/// those kept from `a` followed by those kept from `b`.
pub proof fn law_rooms_filter_concat(a: Seq<RoomInfo>, b: Seq<RoomInfo>, filter: Option<Seq<char>>)
    ensures
        rooms_passing(a + b, filter) == rooms_passing(a, filter) + rooms_passing(b, filter),
    decreases b.len(),
{
    if b.len() == 0 {
        assert(a + b =~= a);
        assert(rooms_passing(b, filter) =~= Seq::<RoomInfo>::empty());
        assert(rooms_passing(a, filter) + Seq::<RoomInfo>::empty() =~= rooms_passing(a, filter));
    } else {
        law_rooms_filter_concat(a, b.drop_last(), filter);
        assert((a + b).drop_last() =~= a + b.drop_last());
        assert((a + b).last() == b.last());
        let kb = rooms_passing(b.drop_last(), filter);
        assert((rooms_passing(a, filter) + kb).push(b.last()) =~= rooms_passing(a, filter) + kb.push(
            b.last(),
        ));
    }
}

/// A single room is listed exactly when it passes the filter (or there is no
/// filter).
pub proof fn law_rooms_filter_single(r: RoomInfo, filter: Option<Seq<char>>)
    ensures
        rooms_passing(seq![r], filter) == (if (match filter {
            Some(f) => room_matches(r, f),
            None => true,
        }) {
            seq![r]
        } else {
            Seq::<RoomInfo>::empty()
        }),
{
    assert(seq![r].drop_last() =~= Seq::<RoomInfo>::empty());
    assert(rooms_passing(Seq::<RoomInfo>::empty(), filter) == Seq::<RoomInfo>::empty());
    assert(seq![r].last() == r);
    assert(Seq::<RoomInfo>::empty().push(r) =~= seq![r]);
}

/// Every room that passes the filter is listed, every listed room is a room of
/// the input that passes it, and the listing keeps the input order.
pub proof fn law_rooms_filter_keeps_every_match(rooms: Seq<RoomInfo>, f: Seq<char>)
    ensures
        forall|i: int|
            0 <= i < rooms.len() && room_matches(#[trigger] rooms[i], f) ==> rooms_passing(
                rooms,
                Some(f),
            ).contains(rooms[i]),
        forall|j: int|
            0 <= j < rooms_passing(rooms, Some(f)).len() ==> room_matches(
                #[trigger] rooms_passing(rooms, Some(f))[j],
                f,
            ) && rooms.contains(rooms_passing(rooms, Some(f))[j]),
    decreases rooms.len(),
{
    if rooms.len() > 0 {
        let init = rooms.drop_last();
        law_rooms_filter_keeps_every_match(init, f);
        let kept = rooms_passing(rooms, Some(f));
        let k0 = rooms_passing(init, Some(f));
        assert forall|i: int| 0 <= i < rooms.len() && room_matches(#[trigger] rooms[i], f) implies kept.contains(rooms[i]) by {
            if i < rooms.len() - 1 {
                assert(init[i] == rooms[i]);
                let j = choose|j: int| 0 <= j < k0.len() && k0[j] == init[i];
                if room_matches(rooms.last(), f) {
                    assert(kept[j] == k0[j]);
                } else {
                    assert(kept[j] == k0[j]);
                }
            } else {
                assert(kept[kept.len() - 1] == rooms[i]);
            }
        }
        assert forall|j: int| 0 <= j < kept.len() implies room_matches(#[trigger] kept[j], f) && rooms.contains(kept[j]) by {
            if j < k0.len() {
                assert(kept[j] == k0[j]);
                let i = choose|i: int| 0 <= i < init.len() && init[i] == k0[j];
                assert(rooms[i] == init[i]);
            } else {
                assert(kept[j] == rooms.last());
                assert(rooms[rooms.len() - 1] == rooms.last());
            }
        }
    }
}

} // verus!
