//! The Chrome DevTools Protocol: what a client does with requests, responses and events. The
//! socket itself is driven from outside: it hands in what happened, and is told what follows.
use crate::error;
use crate::error::{ErrorView, WebPilotError};
use crate::json;
use crate::json::{Json, JsonView};
use crate::pending::Pending;
use crate::text;
use crate::text::{clip, contains, same};
use vstd::prelude::*;
use vstd::string::StringExecFns;

verus! {

/// The seconds a heartbeat may take.
pub const HEARTBEAT_TIMEOUT_S: u64 = 5;

/// The silent heartbeats in a row after which the connection counts as dead.
pub const HEARTBEAT_MAX_MISSES: u32 = 3;

/// The characters of a malformed message that a log shows.
pub const PARSE_PREVIEW_CHARS: usize = 200;

/// The longest wait, in milliseconds, between two looks at whether a session still lives.
pub const TICK_MS: u64 = 250;

/// The execution context that a request was for no longer exists: the call never started.
#[derive(Debug, Clone, Copy, PartialEq, Eq)]
pub struct ContextGone;

impl ContextGone {
    /// What the failure says of itself.
    pub fn message(&self) -> (r: &'static str)
        ensures
            r@ == "execution context no longer exists"@,
    {
        "execution context no longer exists"
    }
}

/// The execution context was destroyed while a call was in flight: the call may have run.
#[derive(Debug, Clone, Copy, PartialEq, Eq)]
pub struct ContextDestroyedMidFlight;

impl ContextDestroyedMidFlight {
    /// What the failure says of itself.
    pub fn message(&self) -> (r: &'static str)
        ensures
            r@ == "execution context was destroyed mid-call (the document navigated)"@,
    {
        "execution context was destroyed mid-call (the document navigated)"
    }
}

/// Why a request failed.
pub enum CdpFailure {
    Typed(WebPilotError),
    Gone(ContextGone),
    Destroyed(ContextDestroyedMidFlight),
}

/// What a failure is.
pub enum CdpFailureView {
    Typed(ErrorView),
    Gone,
    Destroyed,
}

impl View for CdpFailure {
    type V = CdpFailureView;

    open spec fn view(&self) -> CdpFailureView {
        match self {
            CdpFailure::Typed(e) => CdpFailureView::Typed(e@),
            CdpFailure::Gone(_) => CdpFailureView::Gone,
            CdpFailure::Destroyed(_) => CdpFailureView::Destroyed,
        }
    }
}

/// The first `max_chars` characters of a text.
pub fn char_safe_prefix(s: &str, max_chars: usize) -> (r: String)
    ensures
        r@ == text::clipped(s@, max_chars as nat),
{
    clip(s, max_chars)
}

/// A request as it goes out: `params` is an empty object where there are none, and a request of a
/// session carries the session's id.
pub open spec fn request_view(
    id: u64,
    method: Seq<char>,
    params: Option<JsonView>,
    session: Option<Seq<char>>,
) -> JsonView {
    let plain = JsonView::object().with("id"@, JsonView::number(id)).with(
        "method"@,
        JsonView::Str(method),
    ).with(
        "params"@,
        match params {
            Some(p) => p,
            None => JsonView::object(),
        },
    );
    match session {
        Some(s) => plain.with("sessionId"@, JsonView::Str(s)),
        None => plain,
    }
}

/// The model of an optional string.
pub open spec fn str_opt(s: Option<&str>) -> Option<Seq<char>> {
    match s {
        Some(s) => Some(s@),
        None => None,
    }
}

fn request(id: u64, method: &str, params: Option<Json>, session: Option<&str>) -> (r: Json)
    ensures
        r@ == request_view(id, method@, json::json_opt(params), str_opt(session)),
{
    let params = match params {
        Some(p) => p,
        None => Json::object(),
    };
    let plain = Json::object().with("id", Json::number(id)).with(
        "method",
        Json::string(method),
    ).with("params", params);
    match session {
        Some(s) => plain.with("sessionId", Json::string(s)),
        None => plain,
    }
}

/// The client's side of one connection: whether it lives, the next request id, how many frames
/// have arrived, and the requests that wait for a response.
pub struct CdpClient<T> {
    pub alive: bool,
    pub next_id: u64,
    pub activity: u64,
    pub pending: Pending<T>,
}

/// How a request begins: on a living connection it gets the next id, waits for its response under
/// that id, and its message is what goes to the socket; on a dead one nothing changes.
pub open spec fn begun<T>(
    before: CdpClient<T>,
    after: CdpClient<T>,
    r: Result<(u64, Json), WebPilotError>,
    session: Option<Seq<char>>,
    method: Seq<char>,
    params: Option<JsonView>,
    slot: T,
) -> bool {
    match r {
        Ok((id, msg)) => {
            &&& before.alive
            &&& id == before.next_id
            &&& msg@ == request_view(id, method, params, session)
            &&& after.pending@ == before.pending@.insert(id, slot)
            &&& after.next_id == if id == u64::MAX {
                0
            } else {
                (id + 1) as u64
            }
            &&& after.alive
            &&& after.activity == before.activity
        },
        Err(e) => {
            &&& !before.alive
            &&& e@ == ErrorView::ConnectionLost("CDP reader exited before sending "@ + method)
            &&& after == before
        },
    }
}

/// How writing a request to the socket ended.
pub enum WriteOutcome {
    /// It was written.
    Written,
    /// The socket refused it.
    Failed,
    /// The connection had died before it could be written.
    Dead,
    /// It could not be written before the deadline.
    TimedOut,
}

/// What a tick of the wait for a response brought.
pub enum Poll {
    /// The response.
    Response(Json),
    /// No response can come any more.
    Closed,
    /// Nothing.
    Quiet,
}

/// What came from the socket.
pub enum SocketFrame {
    Text(String),
    Close,
    Other,
    Error,
}

/// What follows from what came from the socket.
pub enum Routed<T> {
    /// The response goes to the request that waits for it.
    Deliver { slot: T, response: Json },
    /// The event goes to all who listen.
    Event(Json),
    /// Nothing, but for a warning with the reason and the start of the text.
    Malformed { reason: String, preview: String },
    /// Nothing.
    Nothing,
    /// Reading ends.
    Stop,
}

/// The id of a response. A message without one is an event.
pub open spec fn message_id(msg: JsonView) -> Option<u64> {
    match msg.get("id"@) {
        Some(v) => v.as_u64(),
        None => None,
    }
}

impl<T> CdpClient<T> {
    /// No request waits on a dead connection.
    pub open spec fn wf(&self) -> bool {
        !self.alive ==> self.pending@ =~= Map::<u64, T>::empty()
    }

    /// A connection on which nothing has happened yet.
    pub fn connect() -> (r: Self)
        ensures
            r.wf(),
            r.alive,
            r.next_id == 1,
            r.activity == 0,
            r.pending@ == Map::<u64, T>::empty(),
    {
        CdpClient { alive: true, next_id: 1, activity: 0, pending: Pending::new() }
    }

    /// Takes the next id.
    fn fresh_id(&mut self) -> (r: u64)
        ensures
            r == old(self).next_id,
            final(self).next_id == if r == u64::MAX {
                0
            } else {
                (r + 1) as u64
            },
            final(self).alive == old(self).alive,
            final(self).activity == old(self).activity,
            final(self).pending == old(self).pending,
    {
        let id = self.next_id;
        self.next_id = if id == u64::MAX {
            0
        } else {
            id + 1
        };
        id
    }

    /// The connection is dead: no request waits for a response that cannot come.
    fn die(&mut self)
        ensures
            !final(self).alive,
            final(self).pending@ == Map::<u64, T>::empty(),
            final(self).next_id == old(self).next_id,
            final(self).activity == old(self).activity,
    {
        self.alive = false;
        self.pending.clear();
    }

    /// Begins a request: on a living connection it gets an id of its own, waits for its response
    /// under that id, and its message is what goes to the socket.
    pub fn send_on(
        &mut self,
        session: Option<&str>,
        method: &str,
        params: Option<Json>,
        slot: T,
    ) -> (r: Result<(u64, Json), WebPilotError>)
        ensures
            old(self).wf() ==> final(self).wf(),
            begun(
                *old(self),
                *final(self),
                r,
                str_opt(session),
                method@,
                json::json_opt(params),
                slot,
            ),
    {
        if !self.alive {
            return Err(
                WebPilotError::ConnectionLost {
                    detail: "CDP reader exited before sending ".to_owned().concat(method),
                },
            );
        }
        let id = self.fresh_id();
        let msg = request(id, method, params, session);
        self.pending.insert(id, slot);
        Ok((id, msg))
    }

    /// Goes on from the write of a request. A socket that refuses or stalls is dead, and with it
    /// every request that waits.
    pub fn after_write(&mut self, id: u64, method: &str, timeout_ms: u64, write: WriteOutcome) -> (r:
        Result<(), WebPilotError>)
        ensures
            old(self).wf() ==> final(self).wf(),
            match write {
                WriteOutcome::Written => r is Ok && *final(self) == *old(self),
                WriteOutcome::Failed => {
                    &&& r is Err
                    &&& r->Err_0@ == ErrorView::ConnectionLost(
                        "CDP socket write failed for "@ + method@,
                    )
                    &&& !final(self).alive
                    &&& final(self).pending@ == Map::<u64, T>::empty()
                },
                WriteOutcome::Dead => {
                    &&& r is Err
                    &&& r->Err_0@ == ErrorView::ConnectionLost(
                        "CDP connection died before sending "@ + method@,
                    )
                    &&& final(self).alive == old(self).alive
                    &&& final(self).pending@ == old(self).pending@.remove(id)
                },
                WriteOutcome::TimedOut => {
                    &&& r is Err
                    &&& r->Err_0@ == ErrorView::Timeout(method@, timeout_ms)
                    &&& !final(self).alive
                    &&& final(self).pending@ == Map::<u64, T>::empty()
                },
            },
            final(self).next_id == old(self).next_id,
            final(self).activity == old(self).activity,
    {
        match write {
            WriteOutcome::Written => Ok(()),
            WriteOutcome::Failed => {
                self.die();
                Err(
                    WebPilotError::ConnectionLost {
                        detail: "CDP socket write failed for ".to_owned().concat(method),
                    },
                )
            },
            WriteOutcome::Dead => {
                let _ = self.pending.take(id);
                Err(
                    WebPilotError::ConnectionLost {
                        detail: "CDP connection died before sending ".to_owned().concat(method),
                    },
                )
            },
            WriteOutcome::TimedOut => {
                self.die();
                Err(WebPilotError::Timeout { kind: method.to_owned(), elapsed_ms: timeout_ms })
            },
        }
    }

    /// How long the next tick of the wait for a response may take. Past the deadline the request
    /// no longer waits.
    pub fn before_tick(
        &mut self,
        id: u64,
        method: &str,
        timeout_ms: u64,
        now_ms: u64,
        deadline_ms: u64,
    ) -> (r: Result<u64, WebPilotError>)
        ensures
            old(self).wf() ==> final(self).wf(),
            now_ms >= deadline_ms ==> {
                &&& r is Err
                &&& r->Err_0@ == ErrorView::Timeout(method@, timeout_ms)
                &&& final(self).pending@ == old(self).pending@.remove(id)
            },
            now_ms < deadline_ms ==> {
                &&& r is Ok
                &&& r->Ok_0 == if deadline_ms - now_ms < TICK_MS {
                    deadline_ms - now_ms
                } else {
                    TICK_MS as int
                }
                &&& final(self).pending@ == old(self).pending@
            },
            final(self).alive == old(self).alive,
            final(self).next_id == old(self).next_id,
            final(self).activity == old(self).activity,
    {
        if now_ms >= deadline_ms {
            let _ = self.pending.take(id);
            return Err(WebPilotError::Timeout { kind: method.to_owned(), elapsed_ms: timeout_ms });
        }
        let left: u64 = deadline_ms - now_ms;
        Ok(
            if left < TICK_MS {
                left
            } else {
                TICK_MS
            },
        )
    }

    /// Goes on from a tick: a response that has arrived counts, whatever became of the session;
    /// only where none has does a detached session end the wait. `None` waits another tick.
    pub fn after_tick(
        &mut self,
        id: u64,
        method: &str,
        session_alive: Option<bool>,
        poll: Poll,
    ) -> (r: Result<Option<Json>, WebPilotError>)
        ensures
            old(self).wf() ==> final(self).wf(),
            match poll {
                Poll::Response(v) => {
                    &&& r matches Ok(Some(w))
                    &&& w == v
                    &&& final(self).pending@ == old(self).pending@
                },
                Poll::Closed => {
                    &&& r is Err
                    &&& r->Err_0@ == ErrorView::ConnectionLost(
                        "CDP channel closed while awaiting "@ + method@,
                    )
                    &&& final(self).pending@ == old(self).pending@.remove(id)
                },
                Poll::Quiet => if session_alive == Some(false) {
                    &&& r is Err
                    &&& r->Err_0@ == ErrorView::ConnectionLost(
                        "CDP session detached while awaiting "@ + method@,
                    )
                    &&& final(self).pending@ == old(self).pending@.remove(id)
                } else {
                    &&& r matches Ok(None)
                    &&& final(self).pending@ == old(self).pending@
                },
            },
            final(self).alive == old(self).alive,
            final(self).next_id == old(self).next_id,
            final(self).activity == old(self).activity,
    {
        match poll {
            Poll::Response(v) => Ok(Some(v)),
            Poll::Closed => {
                let _ = self.pending.take(id);
                Err(
                    WebPilotError::ConnectionLost {
                        detail: "CDP channel closed while awaiting ".to_owned().concat(method),
                    },
                )
            },
            Poll::Quiet => match session_alive {
                Some(false) => {
                    let _ = self.pending.take(id);
                    Err(
                        WebPilotError::ConnectionLost {
                            detail: "CDP session detached while awaiting ".to_owned().concat(method),
                        },
                    )
                },
                _ => Ok(None),
            },
        }
    }

    /// Routes a message: a response to the request that waits for it, anything else as an event.
    pub fn route(&mut self, msg: Json) -> (r: Routed<T>)
        ensures
            old(self).wf() ==> final(self).wf(),
            match message_id(msg@) {
                Some(id) => {
                    &&& final(self).pending@ == old(self).pending@.remove(id)
                    &&& if old(self).pending@.contains_key(id) {
                        r == (Routed::Deliver { slot: old(self).pending@[id], response: msg })
                    } else {
                        r == Routed::<T>::Nothing
                    }
                },
                None => r == Routed::<T>::Event(msg) && final(self).pending@ == old(self).pending@,
            },
            final(self).alive == old(self).alive,
            final(self).next_id == old(self).next_id,
            final(self).activity == old(self).activity,
    {
        let id = match msg.get("id") {
            Some(v) => v.as_u64(),
            None => None,
        };
        match id {
            Some(id) => match self.pending.take(id) {
                Some(slot) => Routed::Deliver { slot, response: msg },
                None => Routed::Nothing,
            },
            None => Routed::Event(msg),
        }
    }

    /// Goes on from a frame of the socket. Every frame that could be read is a sign of life; where
    /// reading ends, the connection is dead and no request waits.
    pub fn on_frame(&mut self, frame: SocketFrame) -> (r: Routed<T>)
        ensures
            old(self).wf() ==> final(self).wf(),
            final(self).next_id == old(self).next_id,
            final(self).activity == if frame is Error {
                old(self).activity
            } else if old(self).activity == u64::MAX {
                0
            } else {
                (old(self).activity + 1) as u64
            },
            match frame {
                SocketFrame::Text(t) => {
                    &&& final(self).alive == old(self).alive
                    &&& match json::parsed_json(t@) {
                        Ok(msg) => match message_id(msg) {
                            Some(id) => {
                                &&& final(self).pending@ == old(self).pending@.remove(id)
                                &&& if old(self).pending@.contains_key(id) {
                                    &&& r is Deliver
                                    &&& r->slot == old(self).pending@[id]
                                    &&& r->response@ == msg
                                } else {
                                    r == Routed::<T>::Nothing
                                }
                            },
                            None => {
                                &&& r is Event
                                &&& r->Event_0@ == msg
                                &&& final(self).pending@ == old(self).pending@
                            },
                        },
                        Err(reason) => {
                            &&& r is Malformed
                            &&& r->reason@ == reason
                            &&& r->preview@ == text::clipped(t@, PARSE_PREVIEW_CHARS as nat)
                            &&& final(self).pending@ == old(self).pending@
                        },
                    }
                },
                SocketFrame::Other => {
                    &&& r == Routed::<T>::Nothing
                    &&& final(self).alive == old(self).alive
                    &&& final(self).pending@ == old(self).pending@
                },
                _ => {
                    &&& r == Routed::<T>::Stop
                    &&& !final(self).alive
                    &&& final(self).pending@ == Map::<u64, T>::empty()
                },
            },
    {
        match frame {
            SocketFrame::Error => {},
            _ => {
                self.activity = if self.activity == u64::MAX {
                    0
                } else {
                    self.activity + 1
                };
            },
        }
        match frame {
            SocketFrame::Text(t) => match Json::parse(t.as_str()) {
                Ok(msg) => self.route(msg),
                Err(reason) => Routed::Malformed {
                    reason,
                    preview: char_safe_prefix(t.as_str(), PARSE_PREVIEW_CHARS),
                },
            },
            SocketFrame::Other => Routed::Nothing,
            _ => {
                self.die();
                Routed::Stop
            },
        }
    }

    /// Begins a heartbeat: a request for the browser's version. `None` on a dead connection, where
    /// the heartbeat ends.
    pub fn beat(&mut self, slot: T) -> (r: Option<(u64, Json)>)
        ensures
            old(self).wf() ==> final(self).wf(),
            !old(self).alive ==> r is None && *final(self) == *old(self),
            old(self).alive ==> r is Some && begun(
                *old(self),
                *final(self),
                Ok::<(u64, Json), WebPilotError>(r->0),
                None,
                "Browser.getVersion"@,
                None,
                slot,
            ),
    {
        match self.send_on(None, "Browser.getVersion", None, slot) {
            Ok(sent) => Some(sent),
            Err(_) => None,
        }
    }

    /// Goes on from the write of a heartbeat: whether the heartbeat goes on. A socket that refuses
    /// it is dead.
    pub fn after_beat_write(&mut self, written: bool) -> (r: bool)
        ensures
            old(self).wf() ==> final(self).wf(),
            r == written,
            written ==> *final(self) == *old(self),
            !written ==> !final(self).alive && final(self).pending@ == Map::<u64, T>::empty(),
            final(self).next_id == old(self).next_id,
            final(self).activity == old(self).activity,
    {
        if !written {
            self.die();
        }
        written
    }

    /// Goes on from a heartbeat: whether the heartbeat goes on. `misses` counts the heartbeats in a
    /// row that were neither answered nor accompanied by any other frame; too many of them, and
    /// the connection is dead. A miss short of that leaves every other request waiting.
    pub fn after_beat(
        &mut self,
        misses: &mut u32,
        id: u64,
        answered: bool,
        activity_before: u64,
    ) -> (r: bool)
        requires
            *old(misses) < HEARTBEAT_MAX_MISSES,
        ensures
            old(self).wf() ==> final(self).wf(),
            *final(misses) == misses_after(
                *old(misses) as nat,
                !answered && old(self).activity == activity_before,
            ),
            r == (*final(misses) < HEARTBEAT_MAX_MISSES),
            r ==> final(self).alive == old(self).alive,
            r ==> final(self).pending@ == if answered {
                old(self).pending@
            } else {
                old(self).pending@.remove(id)
            },
            !r ==> !final(self).alive && final(self).pending@ == Map::<u64, T>::empty(),
            final(self).next_id == old(self).next_id,
            final(self).activity == old(self).activity,
    {
        if answered {
            *misses = 0;
            return true;
        }
        let _ = self.pending.take(id);
        if self.activity != activity_before {
            *misses = 0;
            return true;
        }
        *misses = *misses + 1;
        if *misses >= HEARTBEAT_MAX_MISSES {
            self.die();
            return false;
        }
        true
    }
}

/// The message of an error response, where it has one.
pub open spec fn error_message(error: JsonView) -> Option<Seq<char>> {
    error.get_str("message"@)
}

/// The code of an error response, where it has one.
pub open spec fn error_code(error: JsonView) -> Option<i64> {
    match error.get("code"@) {
        Some(v) => v.as_i64(),
        None => None,
    }
}

/// The failure that an error response stands for. Bad parameters are the caller's; a session that
/// is not found is a lost connection; two wordings of Chrome's say that the execution context is
/// gone, or went while the call ran. Anything else is reported as it came.
pub open spec fn response_failure(
    in_session: bool,
    method: Seq<char>,
    error: JsonView,
) -> CdpFailureView {
    let code = error_code(error);
    let message = error_message(error);
    if code == Some(-32602i64) {
        CdpFailureView::Typed(
            ErrorView::InvalidArgument(
                match message {
                    Some(m) => m,
                    None => "invalid parameters"@,
                },
            ),
        )
    } else if code == Some(-32001i64) && in_session {
        CdpFailureView::Typed(
            ErrorView::ConnectionLost(
                "CDP session gone while sending "@ + method + " (tab closed?)"@,
            ),
        )
    } else if code == Some(-32000i64) && message is Some && text::holds(
        message->0,
        "Cannot find context with specified id"@,
    ) {
        CdpFailureView::Gone
    } else if code == Some(-32000i64) && message is Some && (text::holds(
        message->0,
        "Execution context was destroyed"@,
    ) || text::holds(message->0, "Inspected target navigated or closed"@)) {
        CdpFailureView::Destroyed
    } else {
        CdpFailureView::Typed(
            ErrorView::Other("CDP error: "@ + json::compact_json(json::settled(error))),
        )
    }
}

/// What a response comes to: its result, `null` where it has none, or the failure it reports.
pub open spec fn response_outcome(in_session: bool, method: Seq<char>, response: JsonView) -> Result<
    JsonView,
    CdpFailureView,
> {
    match response.get("error"@) {
        Some(error) => Err(response_failure(in_session, method, error)),
        None => Ok(response.get_or_null("result"@)),
    }
}

/// What a response comes to.
pub fn conclude(in_session: bool, method: &str, response: &Json) -> (r: Result<Json, CdpFailure>)
    ensures
        r is Ok <==> response_outcome(in_session, method@, response@) is Ok,
        r is Ok ==> r->Ok_0@ == response_outcome(in_session, method@, response@)->Ok_0,
        r is Err ==> r->Err_0@ == response_outcome(in_session, method@, response@)->Err_0,
{
    let error = match response.get("error") {
        Some(e) => e,
        None => {
            return Ok(response.get_or_null("result"));
        },
    };
    let code: Option<i64> = match error.get("code") {
        Some(v) => v.as_i64(),
        None => None,
    };
    let message = error.get_str("message");
    let is_code = |wanted: i64| -> (b: bool)
        ensures
            b == (code == Some(wanted)),
        { match code { Some(c) => c == wanted, None => false } };
    if is_code(-32602) {
        let detail = match message {
            Some(m) => m.to_owned(),
            None => "invalid parameters".to_owned(),
        };
        return Err(CdpFailure::Typed(WebPilotError::InvalidArgument { detail }));
    }
    if is_code(-32001) && in_session {
        let detail = "CDP session gone while sending ".to_owned().concat(method).concat(
            " (tab closed?)",
        );
        return Err(CdpFailure::Typed(WebPilotError::ConnectionLost { detail }));
    }
    if is_code(-32000) {
        if let Some(m) = message {
            if contains(m, "Cannot find context with specified id") {
                return Err(CdpFailure::Gone(ContextGone));
            }
            if contains(m, "Execution context was destroyed") || contains(
                m,
                "Inspected target navigated or closed",
            ) {
                return Err(CdpFailure::Destroyed(ContextDestroyedMidFlight));
            }
        }
    }
    let detail = "CDP error: ".to_owned().concat(error.to_text().as_str());
    Err(CdpFailure::Typed(WebPilotError::Other { detail }))
}

/// The string in a required field, or the error for its absence.
pub open spec fn required_str(
    result: JsonView,
    field: Seq<char>,
    missing: Seq<char>,
) -> Result<Seq<char>, ErrorView> {
    match result.get_str(field) {
        Some(s) => Ok(s),
        None => Err(ErrorView::Other(missing)),
    }
}

fn require_str(result: &Json, field: &str, missing: &str) -> (r: Result<String, WebPilotError>)
    ensures
        error::outcome(r) == required_str(result@, field@, missing@),
{
    match result.get_str(field) {
        Some(s) => Ok(s.to_owned()),
        None => Err(WebPilotError::other(missing)),
    }
}

/// The items of a required array, or the error for its absence.
pub open spec fn required_array(result: JsonView, field: Seq<char>, method: Seq<char>) -> Result<
    Seq<JsonView>,
    ErrorView,
> {
    match result.get(field) {
        Some(JsonView::Array(items)) => Ok(items),
        _ => Err(
            ErrorView::Other(
                "malformed "@ + method + " response: missing '"@ + field + "' array"@,
            ),
        ),
    }
}

/// The items of an array that a response must carry. A field that is missing or no array is a
/// malformed response, never an empty list.
pub fn require_array<'a>(value: &'a Json, field: &str, method: &str) -> (r: Result<
    &'a Vec<Json>,
    WebPilotError,
>)
    ensures
        r is Ok <==> required_array(value@, field@, method@) is Ok,
        r is Ok ==> json::views(r->Ok_0@) == required_array(value@, field@, method@)->Ok_0,
        r is Err ==> r->Err_0@ == required_array(value@, field@, method@)->Err_0,
{
    if let Some(v) = value.get(field) {
        if let Some(items) = v.as_array() {
            return Ok(items);
        }
    }
    Err(
        WebPilotError::Other {
            detail: "malformed ".to_owned().concat(method).concat(" response: missing '").concat(
                field,
            ).concat("' array"),
        },
    )
}

/// The strings among some values, in order.
pub open spec fn strings_of(items: Seq<JsonView>) -> Seq<Seq<char>>
    decreases items.len(),
{
    if items.len() == 0 {
        Seq::empty()
    } else {
        match items.last() {
            JsonView::Str(s) => strings_of(items.drop_last()).push(s),
            _ => strings_of(items.drop_last()),
        }
    }
}

/// The browser contexts that `Target.getBrowserContexts` lists.
pub fn context_ids_of(result: &Json) -> (r: Result<Vec<String>, WebPilotError>)
    ensures
        match required_array(result@, "browserContextIds"@, "Target.getBrowserContexts"@) {
            Ok(items) => r is Ok && text::texts(r->Ok_0@) == strings_of(items),
            Err(e) => r is Err && r->Err_0@ == e,
        },
{
    match require_array(result, "browserContextIds", "Target.getBrowserContexts") {
        Ok(items) => {
            let mut out: Vec<String> = Vec::new();
            assert(json::views(items@).take(0) =~= Seq::empty());
            for i in 0..items.len()
                invariant
                    text::texts(out@) == strings_of(json::views(items@).take(i as int)),
            {
                proof {
                    json::lemma_views_index(items@);
                    let all = json::views(items@);
                    assert(all.take(i + 1).drop_last() =~= all.take(i as int));
                    assert(all.take(i + 1).last() == items@[i as int]@);
                }
                if let Some(s) = items[i].as_str() {
                    let s = s.to_owned();
                    proof {
                        text::lemma_texts_push(out@, s);
                    }
                    out.push(s);
                }
            }
            proof {
                json::lemma_views_index(items@);
                assert(json::views(items@).take(items@.len() as int) =~= json::views(items@));
            }
            Ok(out)
        },
        Err(e) => Err(e),
    }
}

/// The cookies that `Storage.getCookies` lists.
pub fn cookies_of<'a>(result: &'a Json) -> (r: Result<&'a Vec<Json>, WebPilotError>)
    ensures
        r is Ok <==> required_array(result@, "cookies"@, "Storage.getCookies"@) is Ok,
        r is Ok ==> json::views(r->Ok_0@) == required_array(
            result@,
            "cookies"@,
            "Storage.getCookies"@,
        )->Ok_0,
        r is Err ==> r->Err_0@ == required_array(
            result@,
            "cookies"@,
            "Storage.getCookies"@,
        )->Err_0,
{
    require_array(result, "cookies", "Storage.getCookies")
}

/// The targets that `Target.getTargets` lists.
pub fn targets_of<'a>(result: &'a Json) -> (r: Result<&'a Vec<Json>, WebPilotError>)
    ensures
        r is Ok <==> required_array(result@, "targetInfos"@, "Target.getTargets"@) is Ok,
        r is Ok ==> json::views(r->Ok_0@) == required_array(
            result@,
            "targetInfos"@,
            "Target.getTargets"@,
        )->Ok_0,
        r is Err ==> r->Err_0@ == required_array(
            result@,
            "targetInfos"@,
            "Target.getTargets"@,
        )->Err_0,
{
    require_array(result, "targetInfos", "Target.getTargets")
}

/// The browser context that `Target.createBrowserContext` made.
pub fn new_context_of(result: &Json) -> (r: Result<String, WebPilotError>)
    ensures
        error::outcome(r) == required_str(
            result@,
            "browserContextId"@,
            "No browserContextId in response"@,
        ),
{
    require_str(result, "browserContextId", "No browserContextId in response")
}

/// The target that `Target.createTarget` made.
pub fn new_target_of(result: &Json) -> (r: Result<String, WebPilotError>)
    ensures
        error::outcome(r) == required_str(result@, "targetId"@, "No targetId in response"@),
{
    require_str(result, "targetId", "No targetId in response")
}

/// The parameters that scope a request to a browser context; none where it is for all of them.
pub open spec fn context_params(browser_context_id: Option<Seq<char>>) -> Option<JsonView> {
    match browser_context_id {
        Some(id) => Some(JsonView::object().with("browserContextId"@, JsonView::Str(id))),
        None => None,
    }
}

/// The parameters of `Target.createTarget`.
pub open spec fn target_params(url: Seq<char>, browser_context_id: Option<Seq<char>>) -> JsonView {
    let params = JsonView::object().with("url"@, JsonView::Str(url));
    match browser_context_id {
        Some(ctx) => params.with("browserContextId"@, JsonView::Str(ctx)),
        None => params,
    }
}

/// The parameters of `Target.attachToTarget`: a flat session.
pub open spec fn attach_params(target_id: Seq<char>) -> JsonView {
    JsonView::object().with("targetId"@, JsonView::Str(target_id)).with(
        "flatten"@,
        JsonView::Bool(true),
    )
}

impl<T> CdpClient<T> {
    /// Asks for the cookies of a browser context, or of all of them.
    pub fn get_all_cookies(&mut self, browser_context_id: Option<&str>, slot: T) -> (r: Result<
        (u64, Json),
        WebPilotError,
    >)
        ensures
            old(self).wf() ==> final(self).wf(),
            begun(
                *old(self),
                *final(self),
                r,
                None,
                "Storage.getCookies"@,
                context_params(str_opt(browser_context_id)),
                slot,
            ),
    {
        let params = match browser_context_id {
            Some(id) => Some(Json::object().with("browserContextId", Json::string(id))),
            None => None,
        };
        self.send_on(None, "Storage.getCookies", params, slot)
    }

    /// Asks for the targets that there are.
    pub fn get_targets(&mut self, slot: T) -> (r: Result<(u64, Json), WebPilotError>)
        ensures
            old(self).wf() ==> final(self).wf(),
            begun(*old(self), *final(self), r, None, "Target.getTargets"@, None, slot),
    {
        self.send_on(None, "Target.getTargets", None, slot)
    }

    /// Asks for the browser contexts that there are.
    pub fn get_browser_contexts(&mut self, slot: T) -> (r: Result<(u64, Json), WebPilotError>)
        ensures
            old(self).wf() ==> final(self).wf(),
            begun(*old(self), *final(self), r, None, "Target.getBrowserContexts"@, None, slot),
    {
        self.send_on(None, "Target.getBrowserContexts", None, slot)
    }

    /// Asks for a new browser context, which outlives the connection.
    pub fn create_browser_context(&mut self, slot: T) -> (r: Result<(u64, Json), WebPilotError>)
        ensures
            old(self).wf() ==> final(self).wf(),
            begun(
                *old(self),
                *final(self),
                r,
                None,
                "Target.createBrowserContext"@,
                Some(JsonView::object().with("disposeOnDetach"@, JsonView::Bool(false))),
                slot,
            ),
    {
        let params = Json::object().with("disposeOnDetach", Json::Bool(false));
        self.send_on(None, "Target.createBrowserContext", Some(params), slot)
    }

    /// Asks to dispose of a browser context.
    pub fn dispose_browser_context(&mut self, browser_context_id: &str, slot: T) -> (r: Result<
        (u64, Json),
        WebPilotError,
    >)
        ensures
            old(self).wf() ==> final(self).wf(),
            begun(
                *old(self),
                *final(self),
                r,
                None,
                "Target.disposeBrowserContext"@,
                context_params(Some(browser_context_id@)),
                slot,
            ),
    {
        let params = Json::object().with("browserContextId", Json::string(browser_context_id));
        self.send_on(None, "Target.disposeBrowserContext", Some(params), slot)
    }

    /// Asks for a new page, in a browser context or in the default one.
    pub fn create_target(&mut self, url: &str, browser_context_id: Option<&str>, slot: T) -> (r:
        Result<(u64, Json), WebPilotError>)
        ensures
            old(self).wf() ==> final(self).wf(),
            begun(
                *old(self),
                *final(self),
                r,
                None,
                "Target.createTarget"@,
                Some(target_params(url@, str_opt(browser_context_id))),
                slot,
            ),
    {
        let params = Json::object().with("url", Json::string(url));
        let params = match browser_context_id {
            Some(ctx) => params.with("browserContextId", Json::string(ctx)),
            None => params,
        };
        self.send_on(None, "Target.createTarget", Some(params), slot)
    }

    /// Asks for a session to a target.
    pub fn attach(&mut self, target_id: &str, slot: T) -> (r: Result<(u64, Json), WebPilotError>)
        ensures
            old(self).wf() ==> final(self).wf(),
            begun(
                *old(self),
                *final(self),
                r,
                None,
                "Target.attachToTarget"@,
                Some(attach_params(target_id@)),
                slot,
            ),
    {
        let params = Json::object().with("targetId", Json::string(target_id)).with(
            "flatten",
            Json::Bool(true),
        );
        self.send_on(None, "Target.attachToTarget", Some(params), slot)
    }
}

/// A session to one target, on a connection it shares.
pub struct CdpSession {
    pub session_id: String,
    pub alive: bool,
}

/// The parameters of the `Runtime.evaluate` that evaluates an expression.
pub open spec fn evaluate_params(expression: Seq<char>) -> JsonView {
    JsonView::object().with("expression"@, JsonView::Str(expression)).with(
        "returnByValue"@,
        JsonView::Bool(true),
    ).with("awaitPromise"@, JsonView::Bool(true))
}

/// The parameters of `Page.captureScreenshot`: of the viewport, or of the whole page.
pub open spec fn screenshot_params(beyond: bool) -> JsonView {
    let params = JsonView::object().with("format"@, JsonView::Str("png"@));
    if beyond {
        params.with("captureBeyondViewport"@, JsonView::Bool(true))
    } else {
        params
    }
}

/// How a request of a session begins: as any request with the session's id; a detached session
/// sends nothing.
pub open spec fn session_begun<T>(
    session: CdpSession,
    before: CdpClient<T>,
    after: CdpClient<T>,
    r: Result<(u64, Json), WebPilotError>,
    method: Seq<char>,
    params: Option<JsonView>,
    slot: T,
) -> bool {
    if session.alive {
        begun(before, after, r, Some(session.session_id@), method, params, slot)
    } else {
        &&& r is Err
        &&& r->Err_0@ == ErrorView::ConnectionLost("CDP session detached before sending "@ + method)
        &&& after == before
    }
}

impl CdpSession {
    /// The session that `Target.attachToTarget` opened.
    pub fn attached(result: &Json) -> (r: Result<CdpSession, WebPilotError>)
        ensures
            match required_str(
                result@,
                "sessionId"@,
                "Target.attachToTarget returned no sessionId"@,
            ) {
                Ok(id) => r is Ok && r->Ok_0.session_id@ == id && r->Ok_0.alive,
                Err(e) => r is Err && r->Err_0@ == e,
            },
    {
        match require_str(result, "sessionId", "Target.attachToTarget returned no sessionId") {
            Ok(session_id) => Ok(CdpSession { session_id, alive: true }),
            Err(e) => Err(e),
        }
    }

    /// Begins a request of the session. A detached session sends nothing.
    pub fn send<T>(
        &self,
        client: &mut CdpClient<T>,
        method: &str,
        params: Option<Json>,
        slot: T,
    ) -> (r: Result<(u64, Json), WebPilotError>)
        ensures
            session_begun(
                *self,
                *old(client),
                *final(client),
                r,
                method@,
                json::json_opt(params),
                slot,
            ),
    {
        if !self.alive {
            return Err(
                WebPilotError::ConnectionLost {
                    detail: "CDP session detached before sending ".to_owned().concat(method),
                },
            );
        }
        client.send_on(Some(self.session_id.as_str()), method, params, slot)
    }

    /// Begins the evaluation of an expression, whose promise is waited for.
    pub fn evaluate<T>(&self, client: &mut CdpClient<T>, expression: &str, slot: T) -> (r: Result<
        (u64, Json),
        WebPilotError,
    >)
        ensures
            session_begun(
                *self,
                *old(client),
                *final(client),
                r,
                "Runtime.evaluate"@,
                Some(evaluate_params(expression@)),
                slot,
            ),
    {
        let params = Json::object().with("expression", Json::string(expression)).with(
            "returnByValue",
            Json::Bool(true),
        ).with("awaitPromise", Json::Bool(true));
        self.send(client, "Runtime.evaluate", Some(params), slot)
    }

    /// Begins a screenshot of what is on the screen.
    pub fn screenshot<T>(&self, client: &mut CdpClient<T>, slot: T) -> (r: Result<
        (u64, Json),
        WebPilotError,
    >)
        ensures
            session_begun(
                *self,
                *old(client),
                *final(client),
                r,
                "Page.captureScreenshot"@,
                Some(screenshot_params(false)),
                slot,
            ),
    {
        let params = Json::object().with("format", Json::string("png"));
        self.send(client, "Page.captureScreenshot", Some(params), slot)
    }

    /// Begins a screenshot of the whole page.
    pub fn screenshot_full_page<T>(&self, client: &mut CdpClient<T>, slot: T) -> (r: Result<
        (u64, Json),
        WebPilotError,
    >)
        ensures
            session_begun(
                *self,
                *old(client),
                *final(client),
                r,
                "Page.captureScreenshot"@,
                Some(screenshot_params(true)),
                slot,
            ),
    {
        let params = Json::object().with("format", Json::string("png")).with(
            "captureBeyondViewport",
            Json::Bool(true),
        );
        self.send(client, "Page.captureScreenshot", Some(params), slot)
    }

    /// Begins the end of the session, which the connection asks for: the session sends nothing any
    /// more.
    pub fn detach<T>(&mut self, client: &mut CdpClient<T>, slot: T) -> (r: Result<
        (u64, Json),
        WebPilotError,
    >)
        ensures
            !final(self).alive,
            final(self).session_id == old(self).session_id,
            begun(
                *old(client),
                *final(client),
                r,
                None,
                "Target.detachFromTarget"@,
                Some(JsonView::object().with("sessionId"@, JsonView::Str(old(self).session_id@))),
                slot,
            ),
    {
        self.alive = false;
        let params = Json::object().with("sessionId", Json::string(self.session_id.as_str()));
        client.send_on(None, "Target.detachFromTarget", Some(params), slot)
    }
}

/// What an event of the connection is to a session.
#[derive(Debug, Clone, Copy, PartialEq, Eq)]
pub enum EventFor {
    /// The session's own.
    Deliver,
    /// The news that the session is detached.
    Closed,
    /// Not the session's business.
    Skip,
}

/// What an event of the connection is to a session.
pub open spec fn event_for(event: JsonView, session_id: Seq<char>) -> EventFor {
    if event.get_str("sessionId"@) == Some(session_id) {
        EventFor::Deliver
    } else if event.get_str("method"@) == Some("Target.detachedFromTarget"@) && event.str_at2(
        "params"@,
        "sessionId"@,
    ) == Some(session_id) {
        EventFor::Closed
    } else {
        EventFor::Skip
    }
}

fn is_text(found: Option<&str>, wanted: &str) -> (r: bool)
    ensures
        r == (str_opt(found) == Some(wanted@)),
{
    match found {
        Some(f) => same(f, wanted),
        None => false,
    }
}

/// What an event of the connection is to a session.
pub fn classify_event(event: &Json, session_id: &str) -> (r: EventFor)
    ensures
        r == event_for(event@, session_id@),
{
    if is_text(event.get_str("sessionId"), session_id) {
        EventFor::Deliver
    } else if is_text(event.get_str("method"), "Target.detachedFromTarget") && is_text(
        event.str_at2("params", "sessionId"),
        session_id,
    ) {
        EventFor::Closed
    } else {
        EventFor::Skip
    }
}

/// The events of a connection, as one session sees them.
pub struct SessionEvents {
    pub session_id: String,
    pub events: Vec<Json>,
    pub next: usize,
}

/// What a session receives next.
#[derive(Debug, Clone, Copy, PartialEq, Eq)]
pub enum Receive {
    /// The event at this position.
    Event(usize),
    /// The end: the session is detached.
    Closed,
    /// Nothing for now.
    Empty,
}

impl SessionEvents {
    /// The place in the stream is within it.
    pub open spec fn wf(&self) -> bool {
        self.next <= self.events@.len()
    }

    /// What the event at a position is to the session.
    pub open spec fn kind(&self, i: int) -> EventFor {
        event_for(self.events@[i]@, self.session_id@)
    }

    /// The session's next event among those that have arrived: events of other sessions and of the
    /// browser are passed over, and the session's own detachment is the end.
    pub fn try_recv(&mut self) -> (r: Receive)
        requires
            old(self).wf(),
        ensures
            final(self).wf(),
            final(self).session_id == old(self).session_id,
            final(self).events == old(self).events,
            old(self).next <= final(self).next,
            match r {
                Receive::Event(i) => {
                    &&& old(self).next <= i < final(self).next
                    &&& final(self).next == i + 1
                    &&& old(self).kind(i as int) == EventFor::Deliver
                    &&& forall|j: int| old(self).next <= j < i ==> old(self).kind(j) == EventFor::Skip
                },
                Receive::Closed => {
                    &&& final(self).next > old(self).next
                    &&& old(self).kind(final(self).next - 1) == EventFor::Closed
                    &&& forall|j: int|
                        old(self).next <= j < final(self).next - 1 ==> old(self).kind(j)
                            == EventFor::Skip
                },
                Receive::Empty => {
                    &&& final(self).next == old(self).events@.len()
                    &&& forall|j: int|
                        old(self).next <= j < old(self).events@.len() ==> old(self).kind(j)
                            == EventFor::Skip
                },
            },
    {
        while self.next < self.events.len()
            invariant
                self.wf(),
                self.session_id == old(self).session_id,
                self.events == old(self).events,
                old(self).next <= self.next,
                forall|j: int|
                    old(self).next <= j < self.next ==> old(self).kind(j) == EventFor::Skip,
            decreases self.events@.len() - self.next,
        {
            let at: usize = self.next;
            self.next = at + 1;
            match classify_event(&self.events[at], self.session_id.as_str()) {
                EventFor::Deliver => {
                    return Receive::Event(at);
                },
                EventFor::Closed => {
                    return Receive::Closed;
                },
                EventFor::Skip => {},
            }
        }
        Receive::Empty
    }
}

/// The answer to a dialog of the page, where an event opens one: accept it, with the dialog's own
/// default for a prompt.
pub open spec fn dialog_answer(event: JsonView) -> Option<JsonView> {
    if event.get_str("method"@) == Some("Page.javascriptDialogOpening"@) {
        Some(
            JsonView::object().with("accept"@, JsonView::Bool(true)).with(
                "promptText"@,
                JsonView::Str(
                    match event.str_at2("params"@, "defaultPrompt"@) {
                        Some(t) => t,
                        None => ""@,
                    },
                ),
            ),
        )
    } else {
        None
    }
}

/// The parameters of the `Page.handleJavaScriptDialog` that answers an event, where it opens a
/// dialog.
pub fn answer_dialog(event: &Json) -> (r: Option<Json>)
    ensures
        json::json_opt(r) == dialog_answer(event@),
{
    if !is_text(event.get_str("method"), "Page.javascriptDialogOpening") {
        return None;
    }
    let prompt = match event.str_at2("params", "defaultPrompt") {
        Some(t) => t,
        None => "",
    };
    Some(Json::object().with("accept", Json::Bool(true)).with("promptText", Json::string(prompt)))
}

/// What an exception says of itself.
pub open spec fn exception_text(exception: JsonView) -> Seq<char> {
    let told = match exception.at2("exception"@, "description"@) {
        Some(d) => Some(d),
        None => exception.get("text"@),
    };
    match told {
        Some(JsonView::Str(s)) => s,
        _ => "JS exception"@,
    }
}

/// What an evaluation came to: its value, `null` where it has none, or the exception it threw.
pub open spec fn evaluated(result: JsonView) -> Result<JsonView, ErrorView> {
    match result.get("exceptionDetails"@) {
        Some(exception) => Err(ErrorView::Other(exception_text(exception))),
        None => Ok(
            match result.at2("result"@, "value"@) {
                Some(v) => v,
                None => JsonView::Null,
            },
        ),
    }
}

/// What an evaluation came to.
pub fn evaluation(result: &Json) -> (r: Result<Json, WebPilotError>)
    ensures
        error::outcome(r) == evaluated(result@),
{
    if let Some(exception) = result.get("exceptionDetails") {
        let described = match exception.get("exception") {
            Some(e) => e.get("description"),
            None => None,
        };
        let told = match described {
            Some(d) => Some(d),
            None => exception.get("text"),
        };
        let message = match told {
            Some(Json::Str(s)) => s.as_str(),
            _ => "JS exception",
        };
        return Err(WebPilotError::other(message));
    }
    let value = match result.get("result") {
        Some(r) => r.get("value"),
        None => None,
    };
    match value {
        Some(v) => Ok(v.copy()),
        None => Ok(Json::Null),
    }
}

/// The image that `Page.captureScreenshot` took, in base64.
pub fn screenshot_of(result: &Json) -> (r: Result<String, WebPilotError>)
    ensures
        error::outcome(r) == required_str(result@, "data"@, "No screenshot data"@),
{
    require_str(result, "data", "No screenshot data")
}

/// What a deadline means where events were lost meanwhile: nothing can be concluded.
pub open spec fn inconclusive(target: Seq<char>, timeout_ms: u64) -> ErrorView {
    ErrorView::Timeout(
        target
            + " — CDP event buffer overflowed; events were dropped, so the wait is inconclusive (retry, or raise cdp.event_buffer)"@,
        timeout_ms,
    )
}

/// What a deadline means where events were lost meanwhile: the event may have come and gone.
pub fn inconclusive_wait_timeout(target: &str, timeout_ms: u64) -> (r: WebPilotError)
    ensures
        r@ == inconclusive(target@, timeout_ms),
{
    WebPilotError::Timeout {
        kind: target.to_owned().concat(
            " — CDP event buffer overflowed; events were dropped, so the wait is inconclusive (retry, or raise cdp.event_buffer)",
        ),
        elapsed_ms: timeout_ms,
    }
}

/// A wait for an event: what it is for, how long it may take, and whether events were lost.
pub struct EventWait {
    pub target: String,
    pub timeout_ms: u64,
    pub deadline_ms: u64,
    pub lagged: bool,
}

/// What a tick of the wait for an event brought.
#[derive(Debug, Clone, Copy, PartialEq, Eq)]
pub enum EventPoll {
    /// An event: whether it is the one that is waited for.
    Event(bool),
    /// The news that events were lost.
    Lagged,
    /// The end of the stream.
    Closed,
    /// Nothing.
    Quiet,
}

impl EventWait {
    /// What a session's end means to the wait.
    pub open spec fn ended(&self) -> ErrorView {
        ErrorView::ConnectionLost("CDP session ended while waiting for "@ + self.target@)
    }

    /// How long the next tick may take: `Err` where the wait is over. A session or connection that
    /// has ended counts before the deadline does.
    pub fn before_tick(&self, connected: bool, attached: bool, now_ms: u64) -> (r: Result<
        u64,
        WebPilotError,
    >)
        ensures
            !(connected && attached) ==> r is Err && r->Err_0@ == self.ended(),
            connected && attached && now_ms >= self.deadline_ms ==> r is Err && r->Err_0@
                == if self.lagged {
                inconclusive(self.target@, self.timeout_ms)
            } else {
                ErrorView::Other("Timeout waiting for "@ + self.target@)
            },
            connected && attached && now_ms < self.deadline_ms ==> r is Ok && r->Ok_0
                == if self.deadline_ms - now_ms < TICK_MS {
                self.deadline_ms - now_ms
            } else {
                TICK_MS as int
            },
    {
        if !connected || !attached {
            return Err(
                WebPilotError::ConnectionLost {
                    detail: "CDP session ended while waiting for ".to_owned().concat(
                        self.target.as_str(),
                    ),
                },
            );
        }
        if now_ms >= self.deadline_ms {
            return Err(
                if self.lagged {
                    inconclusive_wait_timeout(self.target.as_str(), self.timeout_ms)
                } else {
                    WebPilotError::Other {
                        detail: "Timeout waiting for ".to_owned().concat(self.target.as_str()),
                    }
                },
            );
        }
        let left: u64 = self.deadline_ms - now_ms;
        Ok(
            if left < TICK_MS {
                left
            } else {
                TICK_MS
            },
        )
    }

    /// Whether a tick brought the event. Lost events are remembered.
    pub fn after_tick(&mut self, poll: EventPoll) -> (r: Result<bool, WebPilotError>)
        ensures
            match poll {
                EventPoll::Event(matches) => r is Ok && r->Ok_0 == matches,
                EventPoll::Closed => r is Err && r->Err_0@ == old(self).ended(),
                _ => r is Ok && !r->Ok_0,
            },
            final(self).lagged == (old(self).lagged || poll == EventPoll::Lagged),
            final(self).target == old(self).target,
            final(self).timeout_ms == old(self).timeout_ms,
            final(self).deadline_ms == old(self).deadline_ms,
    {
        match poll {
            EventPoll::Event(matches) => Ok(matches),
            EventPoll::Closed => Err(
                WebPilotError::ConnectionLost {
                    detail: "CDP session ended while waiting for ".to_owned().concat(
                        self.target.as_str(),
                    ),
                },
            ),
            EventPoll::Lagged => {
                self.lagged = true;
                Ok(false)
            },
            EventPoll::Quiet => Ok(false),
        }
    }
}

/// How long the next tick of a wait for an event may take, where only the event counts: `None`
/// where the event has not come, because the time is up or because the session or the connection
/// has ended.
pub fn receiver_tick(connected: bool, attached: bool, now_ms: u64, deadline_ms: u64) -> (r: Option<
    u64,
>)
    ensures
        r == (if connected && attached && now_ms < deadline_ms {
            Some(
                if deadline_ms - now_ms < TICK_MS {
                    (deadline_ms - now_ms) as u64
                } else {
                    TICK_MS
                },
            )
        } else {
            None
        }),
{
    if !connected || !attached || now_ms >= deadline_ms {
        return None;
    }
    let left: u64 = deadline_ms - now_ms;
    Some(
        if left < TICK_MS {
            left
        } else {
            TICK_MS
        },
    )
}

/// Whether the event has come, once that is known. Lost events are no news: only the end of the
/// stream says that it will not come.
pub open spec fn arrival(poll: EventPoll) -> Option<bool> {
    match poll {
        EventPoll::Event(true) => Some(true),
        EventPoll::Closed => Some(false),
        _ => None,
    }
}

/// Whether the event has come, once that is known.
pub fn wait_on_receiver(poll: EventPoll) -> (r: Option<bool>)
    ensures
        r == arrival(poll),
{
    match poll {
        EventPoll::Event(true) => Some(true),
        EventPoll::Closed => Some(false),
        _ => None,
    }
}

/// A session never receives an event of another session: what it receives carries its own id.
pub proof fn law_sessions_are_isolated(event: JsonView, mine: Seq<char>, other: Seq<char>)
    requires
        mine != other,
    ensures
        event_for(event, mine) == EventFor::Deliver ==> event.get_str("sessionId"@) == Some(mine),
        event_for(event, mine) == EventFor::Deliver ==> event_for(event, other)
            != EventFor::Deliver,
{
}

/// Every request of a session carries the session's id, and one of the connection carries none.
pub proof fn law_requests_carry_the_session(
    id: u64,
    method: Seq<char>,
    params: Option<JsonView>,
    session: Option<Seq<char>>,
)
    ensures
        request_view(id, method, params, session).get_str("sessionId"@) == session,
        message_id(request_view(id, method, params, session)) == Some(id),
        request_view(id, method, params, session).get_str("method"@) == Some(method),
{
    reveal_strlit("id");
    reveal_strlit("method");
    reveal_strlit("params");
    reveal_strlit("sessionId");
    assert("id"@.len() == 2 && "method"@.len() == 6 && "params"@.len() == 6 && "sessionId"@.len()
        == 9);
    assert("method"@[0] == 'm' && "params"@[0] == 'p');
}

/// An error response never comes out as a result.
pub proof fn law_errors_never_succeed(in_session: bool, method: Seq<char>, response: JsonView)
    ensures
        response_outcome(in_session, method, response) is Err <==> response.get("error"@) is Some,
{
}

/// The silent heartbeats in a row after one more.
pub open spec fn misses_after(misses: nat, silent: bool) -> nat {
    if silent {
        misses + 1
    } else {
        0
    }
}

/// The silent heartbeats in a row at the end of a run of heartbeats.
pub open spec fn trailing_misses(silent: Seq<bool>) -> nat
    decreases silent.len(),
{
    if silent.len() == 0 {
        0
    } else {
        misses_after(trailing_misses(silent.drop_last()), silent.last())
    }
}

/// A connection is declared dead only for silence: as many heartbeats in a row as it takes were
/// all neither answered nor accompanied by any frame.
pub proof fn law_only_silence_kills(silent: Seq<bool>)
    requires
        trailing_misses(silent) >= HEARTBEAT_MAX_MISSES,
    ensures
        silent.len() >= HEARTBEAT_MAX_MISSES,
        forall|i: int|
            silent.len() - HEARTBEAT_MAX_MISSES <= i < silent.len() ==> #[trigger] silent[i],
{
    lemma_trailing(silent);
}

/// The heartbeats that the count at the end of a run counts were all silent.
proof fn lemma_trailing(silent: Seq<bool>)
    ensures
        trailing_misses(silent) <= silent.len(),
        forall|i: int|
            silent.len() - trailing_misses(silent) <= i < silent.len() ==> #[trigger] silent[i],
    decreases silent.len(),
{
    if silent.len() > 0 {
        lemma_trailing(silent.drop_last());
        assert forall|i: int|
            silent.len() - trailing_misses(silent) <= i < silent.len() implies #[trigger] silent[i] by {
            if i < silent.len() - 1 {
                assert(silent.drop_last()[i]);
            }
        }
    }
}

/// A request gets an id of its own and waits under it; what goes to the socket carries that id, the
/// method, the parameters as they were given, and the session it is of. No other request is touched.
/// On a dead connection nothing is sent and nothing waits.
pub proof fn law_requests_wait_under_their_ids<T>(
    client: &mut CdpClient<T>,
    session: Option<&str>,
    method: &str,
    params: Option<Json>,
    slot: T,
    r: Result<(u64, Json), WebPilotError>,
)
    requires
        call_ensures(CdpClient::<T>::send_on, (client, session, method, params, slot), r),
    ensures
        r is Ok <==> old(client).alive,
        r matches Ok((id, msg)) ==> {
            &&& final(client).pending@.contains_key(id)
            &&& final(client).pending@[id] == slot
            &&& final(client).next_id != id
            &&& final(client).alive
            &&& forall|other: u64|
                other != id ==> (final(client).pending@.contains_key(other) <==> #[trigger] old(client).pending@.contains_key(other)) && (old(client).pending@.contains_key(other)
                    ==> final(client).pending@[other] == old(client).pending@[other])
            &&& msg@.get("id"@) == Some(JsonView::Num(json::NumberView::Unsigned(id)))
            &&& msg@.get("method"@) == Some(JsonView::Str(method@))
            &&& msg@.get("params"@) == Some(
                if params is Some {
                    params->0@
                } else {
                    JsonView::Object(Map::empty())
                },
            )
            &&& msg@.get("sessionId"@) == if session is Some {
                Some(JsonView::Str(session->0@))
            } else {
                None
            }
        },
        r matches Err(e) ==> e@ is ConnectionLost && *final(client) == *old(client),
{
    reveal_strlit("id");
    reveal_strlit("method");
    reveal_strlit("params");
    reveal_strlit("sessionId");
    assert("id"@.len() == 2);
    assert("method"@.len() == 6);
    assert("params"@.len() == 6);
    assert("sessionId"@.len() == 9);
    assert("method"@[0] != "params"@[0]);
}

/// A response is delivered to the request whose id it carries, once, and as it came; one that no
/// request waits for goes to none; a message without an id is an event. Where reading ends, the
/// connection is dead and nothing waits; what cannot be read changes nothing.
pub proof fn law_responses_go_to_their_requests<T>(
    client: &mut CdpClient<T>,
    text: String,
    msg: JsonView,
    r: Routed<T>,
)
    requires
        call_ensures(CdpClient::<T>::on_frame, (client, SocketFrame::Text(text)), r),
    ensures
        final(client).alive == old(client).alive,
        json::parsed_json(text@) == Ok::<JsonView, Seq<char>>(msg) ==> match msg.get("id"@) {
            Some(JsonView::Num(json::NumberView::Unsigned(id))) => {
                &&& old(client).pending@.contains_key(id) ==> (r matches Routed::Deliver {
                    slot,
                    response,
                } && slot == old(client).pending@[id] && response@ == msg)
                &&& !old(client).pending@.contains_key(id) ==> r is Nothing
                &&& !final(client).pending@.contains_key(id)
                &&& forall|other: u64|
                    other != id ==> (final(client).pending@.contains_key(other) <==> #[trigger] old(client).pending@.contains_key(other)) && (old(client).pending@.contains_key(other)
                        ==> final(client).pending@[other] == old(client).pending@[other])
            },
            _ => (r matches Routed::Event(e) && e@ == msg) && final(client).pending@ == old(client).pending@,
        },
        json::parsed_json(text@) is Err ==> r is Malformed && final(client).pending@ == old(client).pending@,
{
}

/// Where the socket ends, or fails, the connection is dead and no request waits any more; any other
/// frame is a sign of life and no more.
pub proof fn law_the_end_of_the_socket<T>(client: &mut CdpClient<T>, frame: SocketFrame, r: Routed<T>)
    requires
        call_ensures(CdpClient::<T>::on_frame, (client, frame), r),
        !(frame is Text),
    ensures
        frame is Close || frame is Error ==> r is Stop && !final(client).alive && forall|id: u64|
            !(#[trigger] final(client).pending@.contains_key(id)),
        frame is Other ==> r is Nothing && final(client).alive == old(client).alive && final(client).pending@ == old(client).pending@,
        frame is Other ==> final(client).activity != old(client).activity,
        frame is Error ==> final(client).activity == old(client).activity,
{
}

/// A write that went well changes nothing. One that the socket refused or stalled on is the end of
/// the connection; of one that came too late only the request itself no longer waits.
pub proof fn law_writes<T>(
    client: &mut CdpClient<T>,
    id: u64,
    method: &str,
    timeout_ms: u64,
    write: WriteOutcome,
    r: Result<(), WebPilotError>,
)
    requires
        call_ensures(CdpClient::<T>::after_write, (client, id, method, timeout_ms, write), r),
    ensures
        r is Ok <==> write is Written,
        write is Written ==> *final(client) == *old(client),
        write is Failed || write is TimedOut ==> !final(client).alive && forall|other: u64|
            !(#[trigger] final(client).pending@.contains_key(other)),
        write is Dead ==> final(client).alive == old(client).alive && !final(client).pending@.contains_key(id),
        write is TimedOut ==> r->Err_0@ == ErrorView::Timeout(method@, timeout_ms),
        write is Failed || write is Dead ==> r->Err_0@ is ConnectionLost,
{
}

/// A wait for a response goes on until its deadline and not beyond: then the request no longer waits
/// and the failure is a timeout. A response counts as it came; a closed channel or a detached session
/// is a lost connection; silence waits on.
pub proof fn law_waits_for_responses<T>(
    a: &mut CdpClient<T>,
    b: &mut CdpClient<T>,
    id: u64,
    method: &str,
    timeout_ms: u64,
    now_ms: u64,
    deadline_ms: u64,
    tick: Result<u64, WebPilotError>,
    session_alive: Option<bool>,
    poll: Poll,
    r: Result<Option<Json>, WebPilotError>,
)
    requires
        call_ensures(
            CdpClient::<T>::before_tick,
            (a, id, method, timeout_ms, now_ms, deadline_ms),
            tick,
        ),
        call_ensures(CdpClient::<T>::after_tick, (b, id, method, session_alive, poll), r),
    ensures
        tick is Ok <==> now_ms < deadline_ms,
        tick matches Ok(ms) ==> 0 < ms <= 250 && now_ms + ms <= deadline_ms && final(a).pending@
            == old(a).pending@ && (ms == 250 || now_ms + ms == deadline_ms),
        tick matches Err(e) ==> e@ == ErrorView::Timeout(method@, timeout_ms) && !final(a).pending@.contains_key(id),
        final(a).alive == old(a).alive,
        poll matches Poll::Response(v) ==> r == Ok::<Option<Json>, WebPilotError>(Some(v)),
        poll is Closed ==> r is Err && r->Err_0@ is ConnectionLost && !final(b).pending@.contains_key(id),
        poll is Quiet && session_alive == Some(false) ==> r is Err && r->Err_0@ is ConnectionLost,
        poll is Quiet && session_alive != Some(false) ==> r == Ok::<Option<Json>, WebPilotError>(
            None,
        ) && final(b).pending@ == old(b).pending@,
        final(b).alive == old(b).alive,
{
}

/// A heartbeat asks for the browser's version. One that is answered, or that any frame came with, is
/// no miss; a miss is one more, and the connection dies exactly where there are as many in a row as
/// it takes.
pub proof fn law_heartbeats<T>(
    client: &mut CdpClient<T>,
    slot: T,
    sent: Option<(u64, Json)>,
    c: &mut CdpClient<T>,
    misses: &mut u32,
    id: u64,
    answered: bool,
    activity_before: u64,
    r: bool,
)
    requires
        call_ensures(CdpClient::<T>::beat, (client, slot), sent),
        call_ensures(CdpClient::<T>::after_beat, (c, misses, id, answered, activity_before), r),
        *old(misses) < HEARTBEAT_MAX_MISSES,
    ensures
        sent is Some <==> old(client).alive,
        sent matches Some((n, msg)) ==> msg@.get("method"@) == Some(
            JsonView::Str("Browser.getVersion"@),
        ) && msg@.get("sessionId"@) is None && final(client).pending@.contains_key(n),
        answered || old(c).activity != activity_before ==> *final(misses) == 0 && r,
        !answered && old(c).activity == activity_before ==> *final(misses) == *old(misses) + 1,
        r ==> final(c).alive == old(c).alive,
        !r <==> *final(misses) >= HEARTBEAT_MAX_MISSES,
        !r ==> !final(c).alive && forall|other: u64|
            !(#[trigger] final(c).pending@.contains_key(other)),
        r && answered ==> final(c).pending@ == old(c).pending@,
        r && !answered ==> !final(c).pending@.contains_key(id),
{
    reveal_strlit("id");
    reveal_strlit("method");
    reveal_strlit("params");
    reveal_strlit("sessionId");
    assert("id"@.len() == 2);
    assert("method"@.len() == 6);
    assert("params"@.len() == 6);
    assert("sessionId"@.len() == 9);
    assert("method"@[0] != "params"@[0]);
}

/// A result comes out as it is, null where there is none. An error comes out as what it means: wrong
/// parameters are the caller's, an unknown session is a lost connection, a context that is gone or
/// went away is told apart, and anything else is told as it came.
pub proof fn law_errors_are_told_apart(in_session: bool, method: Seq<char>, response: JsonView)
    ensures
        response.get("error"@) is None ==> response_outcome(in_session, method, response) == Ok::<
            JsonView,
            CdpFailureView,
        >(
            if response.get("result"@) is Some {
                response.get("result"@)->0
            } else {
                JsonView::Null
            },
        ),
        response.get("error"@) matches Some(error) ==> {
            let code = |n: i64|
                error.get("code"@) == Some(JsonView::Num(json::NumberView::Negative(n)));
            let told = error.get("message"@);
            let failure = response_outcome(in_session, method, response)->Err_0;
            &&& code(-32602i64) ==> (failure matches CdpFailureView::Typed(
                ErrorView::InvalidArgument(m),
            ) && (told matches Some(JsonView::Str(t)) ==> m == t))
            &&& code(-32001i64) && in_session ==> (failure matches CdpFailureView::Typed(
                ErrorView::ConnectionLost(_),
            ))
            &&& code(-32000i64) ==> (told matches Some(JsonView::Str(t)) ==> {
                let within = |part: Seq<char>| text::holds(t, part);
                &&& within("Cannot find context with specified id"@) ==> failure is Gone
                &&& !within("Cannot find context with specified id"@) && (within(
                    "Execution context was destroyed"@,
                ) || within("Inspected target navigated or closed"@)) ==> failure is Destroyed
            })
            &&& failure is Gone || failure is Destroyed ==> code(-32000i64)
            &&& failure matches CdpFailureView::Typed(ErrorView::InvalidArgument(_)) ==> code(-32602i64)
            &&& failure matches CdpFailureView::Typed(ErrorView::ConnectionLost(_)) ==> code(-32001i64)
                && in_session
            &&& failure matches CdpFailureView::Typed(ErrorView::Other(m)) ==> m == "CDP error: "@
                + json::compact_json(json::settled(error))
        },
{
}

/// What is asked of the browser is asked by the method that does it, of the context, target or
/// address that was given, and for the connection as a whole.
pub proof fn law_the_browser_is_asked<T>(
    client: &mut CdpClient<T>,
    context: Option<&str>,
    id: &str,
    slot: T,
    r: Result<(u64, Json), WebPilotError>,
)
    ensures
        call_ensures(CdpClient::<T>::get_all_cookies, (client, context, slot), r) ==> asks(
            r,
            "Storage.getCookies"@,
        ) && (r is Ok ==> param(r, "browserContextId"@) == text_of(context)),
        call_ensures(CdpClient::<T>::get_targets, (client, slot), r) ==> asks(
            r,
            "Target.getTargets"@,
        ),
        call_ensures(CdpClient::<T>::get_browser_contexts, (client, slot), r) ==> asks(
            r,
            "Target.getBrowserContexts"@,
        ),
        call_ensures(CdpClient::<T>::create_browser_context, (client, slot), r) ==> asks(
            r,
            "Target.createBrowserContext"@,
        ) && (r is Ok ==> param(r, "disposeOnDetach"@) == Some(JsonView::Bool(false))),
        call_ensures(CdpClient::<T>::dispose_browser_context, (client, id, slot), r) ==> asks(
            r,
            "Target.disposeBrowserContext"@,
        ) && (r is Ok ==> param(r, "browserContextId"@) == Some(JsonView::Str(id@))),
        call_ensures(CdpClient::<T>::create_target, (client, id, context, slot), r) ==> asks(
            r,
            "Target.createTarget"@,
        ) && (r is Ok ==> param(r, "url"@) == Some(JsonView::Str(id@)) && param(
            r,
            "browserContextId"@,
        ) == text_of(context)),
        call_ensures(CdpClient::<T>::attach, (client, id, slot), r) ==> asks(
            r,
            "Target.attachToTarget"@,
        ) && (r is Ok ==> param(r, "targetId"@) == Some(JsonView::Str(id@)) && param(r, "flatten"@)
            == Some(JsonView::Bool(true))),
{
    reveal_strlit("id");
    reveal_strlit("method");
    reveal_strlit("params");
    reveal_strlit("sessionId");
    assert("id"@.len() == 2);
    assert("method"@.len() == 6);
    assert("params"@.len() == 6);
    assert("sessionId"@.len() == 9);
    assert("method"@[0] != "params"@[0]);
    reveal_strlit("browserContextId");
    reveal_strlit("url");
    reveal_strlit("targetId");
    reveal_strlit("flatten");
    reveal_strlit("disposeOnDetach");
    assert("browserContextId"@.len() == 16);
    assert("url"@.len() == 3);
    assert("targetId"@.len() == 8);
    assert("flatten"@.len() == 7);
    assert("disposeOnDetach"@.len() == 15);
}

/// Whether a request, where it was sent, is by a method and of no session.
pub open spec fn asks(r: Result<(u64, Json), WebPilotError>, method: Seq<char>) -> bool {
    r is Ok ==> r->Ok_0.1@.get("method"@) == Some(JsonView::Str(method)) && r->Ok_0.1@.get(
        "sessionId"@,
    ) is None
}

/// A parameter of a request that was sent.
pub open spec fn param(r: Result<(u64, Json), WebPilotError>, key: Seq<char>) -> Option<JsonView> {
    if r->Ok_0.1@.get("params"@) is Some {
        r->Ok_0.1@.get("params"@)->0.get(key)
    } else {
        None
    }
}

/// A text that may be given, as a parameter.
pub open spec fn text_of(t: Option<&str>) -> Option<JsonView> {
    if t is Some {
        Some(JsonView::Str(t->0@))
    } else {
        None
    }
}

/// What a session sends carries its id, asks for what was meant, and is sent only while the session
/// lives; its end is asked for by the connection.
pub proof fn law_sessions_send_as_themselves<T>(
    session: &CdpSession,
    client: &mut CdpClient<T>,
    method: &str,
    params: Option<Json>,
    expression: &str,
    slot: T,
    r: Result<(u64, Json), WebPilotError>,
)
    ensures
        call_ensures(CdpSession::send::<T>, (session, client, method, params, slot), r) ==> of_session(
            *session,
            r,
            method@,
        ) && (r is Ok ==> r->Ok_0.1@.get("params"@) == Some(
            if params is Some {
                params->0@
            } else {
                JsonView::Object(Map::empty())
            },
        )),
        call_ensures(CdpSession::evaluate::<T>, (session, client, expression, slot), r)
            ==> of_session(*session, r, "Runtime.evaluate"@) && (r is Ok ==> param(r, "expression"@)
            == Some(JsonView::Str(expression@)) && param(r, "returnByValue"@) == Some(
            JsonView::Bool(true),
        ) && param(r, "awaitPromise"@) == Some(JsonView::Bool(true))),
        call_ensures(CdpSession::screenshot::<T>, (session, client, slot), r) ==> of_session(
            *session,
            r,
            "Page.captureScreenshot"@,
        ) && (r is Ok ==> param(r, "format"@) == Some(JsonView::Str("png"@)) && param(
            r,
            "captureBeyondViewport"@,
        ) is None),
        call_ensures(CdpSession::screenshot_full_page::<T>, (session, client, slot), r)
            ==> of_session(*session, r, "Page.captureScreenshot"@) && (r is Ok ==> param(
            r,
            "format"@,
        ) == Some(JsonView::Str("png"@)) && param(r, "captureBeyondViewport"@) == Some(
            JsonView::Bool(true),
        )),
{
    reveal_strlit("id");
    reveal_strlit("method");
    reveal_strlit("params");
    reveal_strlit("sessionId");
    assert("id"@.len() == 2);
    assert("method"@.len() == 6);
    assert("params"@.len() == 6);
    assert("sessionId"@.len() == 9);
    assert("method"@[0] != "params"@[0]);
    reveal_strlit("expression");
    reveal_strlit("returnByValue");
    reveal_strlit("awaitPromise");
    reveal_strlit("format");
    reveal_strlit("captureBeyondViewport");
    assert("expression"@.len() == 10);
    assert("returnByValue"@.len() == 13);
    assert("awaitPromise"@.len() == 12);
    assert("format"@.len() == 6);
    assert("captureBeyondViewport"@.len() == 21);
}

/// Whether a request is one of a session: with its id, by a method, and only while it lives.
pub open spec fn of_session(
    session: CdpSession,
    r: Result<(u64, Json), WebPilotError>,
    method: Seq<char>,
) -> bool {
    &&& r is Ok ==> session.alive && r->Ok_0.1@.get("sessionId"@) == Some(
        JsonView::Str(session.session_id@),
    ) && r->Ok_0.1@.get("method"@) == Some(JsonView::Str(method))
    &&& r is Err ==> r->Err_0@ is ConnectionLost
}

/// A session that is detached is dead at once, and the request for it names it.
pub proof fn law_detaching<T>(
    session: &mut CdpSession,
    client: &mut CdpClient<T>,
    slot: T,
    r: Result<(u64, Json), WebPilotError>,
)
    requires
        call_ensures(CdpSession::detach::<T>, (session, client, slot), r),
    ensures
        !final(session).alive,
        final(session).session_id == old(session).session_id,
        asks(r, "Target.detachFromTarget"@),
        r is Ok ==> param(r, "sessionId"@) == Some(JsonView::Str(old(session).session_id@)),
{
    reveal_strlit("id");
    reveal_strlit("method");
    reveal_strlit("params");
    reveal_strlit("sessionId");
    assert("id"@.len() == 2);
    assert("method"@.len() == 6);
    assert("params"@.len() == 6);
    assert("sessionId"@.len() == 9);
    assert("method"@[0] != "params"@[0]);
}

/// What the browser lists or made is read from where it says so, all of it and in its order; what is
/// missing is an error, never an empty answer.
pub proof fn law_lists_are_read(items: Seq<JsonView>, key: Seq<char>, method: Seq<char>, result: JsonView, missing: Seq<char>)
    ensures
        result.get(key) == Some(JsonView::Array(items)) ==> required_array(result, key, method)
            == Ok::<Seq<JsonView>, ErrorView>(items),
        !(result.get(key) matches Some(JsonView::Array(_))) ==> required_array(result, key, method)
            is Err,
        forall|s: Seq<char>|
            (#[trigger] required_str(result, key, missing) == Ok::<Seq<char>, ErrorView>(s))
                <==> result.get(key) == Some(JsonView::Str(s)),
        required_str(result, key, missing) matches Err(e) ==> e == ErrorView::Other(missing),
        (forall|i: int| 0 <= i < items.len() ==> #[trigger] items[i] is Str) ==> strings_of(
            items,
        ).len() == items.len() && forall|i: int|
            0 <= i < items.len() ==> JsonView::Str(strings_of(items)[i]) == #[trigger] items[i],
    decreases items.len(),
{
    if items.len() > 0 && (forall|i: int| 0 <= i < items.len() ==> #[trigger] items[i] is Str) {
        let rest = items.drop_last();
        assert forall|i: int| 0 <= i < rest.len() implies #[trigger] rest[i] is Str by {
            assert(items[i] is Str);
        }
        law_lists_are_read(rest, key, method, result, missing);
        assert(items[items.len() - 1] is Str);
        assert forall|i: int| 0 <= i < items.len() implies JsonView::Str(strings_of(items)[i])
            == #[trigger] items[i] by {
            if i < rest.len() {
                assert(rest[i] == items[i]);
            }
        }
    }
}

/// Each thing that the browser made or lists is read from the field that the browser puts it in.
pub proof fn law_answers_are_read_where_they_stand(
    result: &Json,
    cookies: Result<&Vec<Json>, WebPilotError>,
    targets: Result<&Vec<Json>, WebPilotError>,
    context: Result<String, WebPilotError>,
    target: Result<String, WebPilotError>,
    session: Result<CdpSession, WebPilotError>,
    picture: Result<String, WebPilotError>,
    contexts: Result<Vec<String>, WebPilotError>,
)
    requires
        call_ensures(cookies_of, (result,), cookies),
        call_ensures(targets_of, (result,), targets),
        call_ensures(new_context_of, (result,), context),
        call_ensures(new_target_of, (result,), target),
        call_ensures(CdpSession::attached, (result,), session),
        call_ensures(screenshot_of, (result,), picture),
        call_ensures(context_ids_of, (result,), contexts),
    ensures
        cookies matches Ok(list) ==> result@.get("cookies"@) == Some(JsonView::Array(json::views(list@))),
        cookies is Ok <==> (result@.get("cookies"@) matches Some(JsonView::Array(_))),
        targets matches Ok(list) ==> result@.get("targetInfos"@) == Some(
            JsonView::Array(json::views(list@)),
        ),
        targets is Ok <==> (result@.get("targetInfos"@) matches Some(JsonView::Array(_))),
        contexts is Ok <==> (result@.get("browserContextIds"@) matches Some(JsonView::Array(_))),
        contexts matches Ok(ids) ==> text::texts(ids@) == strings_of(
            result@.get("browserContextIds"@)->0->Array_0,
        ),
        context is Ok <==> (result@.get("browserContextId"@) matches Some(JsonView::Str(_))),
        context matches Ok(id) ==> result@.get("browserContextId"@) == Some(JsonView::Str(id@)),
        target is Ok <==> (result@.get("targetId"@) matches Some(JsonView::Str(_))),
        target matches Ok(id) ==> result@.get("targetId"@) == Some(JsonView::Str(id@)),
        session is Ok <==> (result@.get("sessionId"@) matches Some(JsonView::Str(_))),
        session matches Ok(s) ==> s.alive && result@.get("sessionId"@) == Some(
            JsonView::Str(s.session_id@),
        ),
        picture is Ok <==> (result@.get("data"@) matches Some(JsonView::Str(_))),
        picture matches Ok(data) ==> result@.get("data"@) == Some(JsonView::Str(data@)),
{
}

/// An event is a session's own exactly where it carries the session's id; the news of a session's
/// end is the detachment that names it; anything else is passed over.
pub proof fn law_events_find_their_sessions(event: JsonView, session: Seq<char>)
    ensures
        event_for(event, session) == EventFor::Deliver <==> event.get("sessionId"@) == Some(
            JsonView::Str(session),
        ),
        event_for(event, session) == EventFor::Closed <==> event.get("sessionId"@) != Some(
            JsonView::Str(session),
        ) && event.get("method"@) == Some(JsonView::Str("Target.detachedFromTarget"@)) && (
        event.get("params"@) matches Some(p) && p.get("sessionId"@) == Some(
            JsonView::Str(session),
        )),
        event_for(event, session) == EventFor::Skip <==> event_for(event, session)
            != EventFor::Deliver && event_for(event, session) != EventFor::Closed,
{
}

/// A session receives its own events one after the other, each once and none passed over; its end is
/// told where it stands among them.
pub proof fn law_no_event_is_lost(e: &mut SessionEvents, r: Receive)
    requires
        old(e).next <= old(e).events@.len(),
        call_ensures(SessionEvents::try_recv, (e,), r),
    ensures
        final(e).events == old(e).events,
        final(e).session_id == old(e).session_id,
        r matches Receive::Event(i) ==> {
            &&& old(e).next <= i < old(e).events@.len()
            &&& final(e).next == i + 1
            &&& old(e).events@[i as int]@.get("sessionId"@) == Some(
                JsonView::Str(old(e).session_id@),
            )
        },
        forall|j: int|
            old(e).next <= j < final(e).next && !(r matches Receive::Event(i) && i == j)
                ==> (#[trigger] old(e).events@[j])@.get("sessionId"@) != Some(
                JsonView::Str(old(e).session_id@),
            ),
        r is Empty ==> final(e).next == old(e).events@.len(),
        r is Closed ==> final(e).next > old(e).next,
{
    assert forall|j: int|
        old(e).next <= j < final(e).next && !(r matches Receive::Event(i) && i == j) implies (
    #[trigger] old(e).events@[j])@.get("sessionId"@) != Some(JsonView::Str(old(e).session_id@)) by {
        assert(old(e).kind(j) != EventFor::Deliver);
        law_events_find_their_sessions(old(e).events@[j]@, old(e).session_id@);
    }
    if let Receive::Event(i) = r {
        law_events_find_their_sessions(old(e).events@[i as int]@, old(e).session_id@);
    }
}

/// A dialog of the page is accepted, a prompt with the text that it proposes; no other event is
/// answered.
pub proof fn law_dialogs_are_accepted(event: JsonView)
    ensures
        dialog_answer(event) is Some <==> event.get("method"@) == Some(
            JsonView::Str("Page.javascriptDialogOpening"@),
        ),
        dialog_answer(event) matches Some(a) ==> {
            &&& a.get("accept"@) == Some(JsonView::Bool(true))
            &&& match event.get("params"@) {
                Some(p) => match p.get("defaultPrompt"@) {
                    Some(JsonView::Str(t)) => a.get("promptText"@) == Some(JsonView::Str(t)),
                    _ => a.get("promptText"@) == Some(JsonView::Str(Seq::empty())),
                },
                None => a.get("promptText"@) == Some(JsonView::Str(Seq::empty())),
            }
        },
{
    reveal_strlit("accept");
    reveal_strlit("promptText");
    assert("accept"@.len() == 6);
    assert("promptText"@.len() == 10);
    reveal_strlit("");
    assert(""@ =~= Seq::empty());
}

/// An evaluation comes to its value, null where there is none, exactly where nothing was thrown; what
/// was thrown is told by its description, else by its text.
pub proof fn law_evaluations(result: JsonView)
    ensures
        evaluated(result) is Ok <==> result.get("exceptionDetails"@) is None,
        evaluated(result) matches Ok(v) ==> match result.get("result"@) {
            Some(held) => match held.get("value"@) {
                Some(value) => v == value,
                None => v == JsonView::Null,
            },
            None => v == JsonView::Null,
        },
        result.get("exceptionDetails"@) matches Some(x) ==> match x.get("exception"@) {
            Some(e) => match e.get("description"@) {
                Some(JsonView::Str(d)) => evaluated(result) == Err::<JsonView, ErrorView>(
                    ErrorView::Other(d),
                ),
                Some(_) => true,
                None => told_by_text(result, x),
            },
            None => told_by_text(result, x),
        },
{
}

/// Whether an evaluation that threw is told by the text of the exception, where it has one.
pub open spec fn told_by_text(result: JsonView, x: JsonView) -> bool {
    x.get("text"@) matches Some(JsonView::Str(t)) ==> evaluated(result) == Err::<JsonView, ErrorView>(
        ErrorView::Other(t),
    )
}

/// A wait for an event ends with it, with the end of its session, or at its deadline; a deadline that
/// events were lost before is told as one that says nothing. Meanwhile it looks often enough.
pub proof fn law_waits_for_events(
    w: &EventWait,
    connected: bool,
    attached: bool,
    now_ms: u64,
    tick: Result<u64, WebPilotError>,
    u: &mut EventWait,
    poll: EventPoll,
    r: Result<bool, WebPilotError>,
    plain: Option<u64>,
)
    requires
        call_ensures(EventWait::before_tick, (w, connected, attached, now_ms), tick),
        call_ensures(EventWait::after_tick, (u, poll), r),
        call_ensures(receiver_tick, (connected, attached, now_ms, w.deadline_ms), plain),
    ensures
        tick is Ok <==> connected && attached && now_ms < w.deadline_ms,
        tick matches Ok(ms) ==> 0 < ms <= 250 && now_ms + ms <= w.deadline_ms && (ms == 250 || now_ms
            + ms == w.deadline_ms) && plain == Some(ms),
        tick is Err ==> plain is None,
        !connected || !attached ==> tick->Err_0@ is ConnectionLost,
        connected && attached && now_ms >= w.deadline_ms && w.lagged ==> tick->Err_0@ is Timeout,
        connected && attached && now_ms >= w.deadline_ms && !w.lagged ==> tick->Err_0@ is Other,
        poll is Event ==> r == Ok::<bool, WebPilotError>(poll == EventPoll::Event(true)),
        poll is Closed ==> r is Err && r->Err_0@ is ConnectionLost,
        poll is Lagged || poll is Quiet ==> r == Ok::<bool, WebPilotError>(false),
        final(u).lagged <==> old(u).lagged || poll is Lagged,
        final(u).deadline_ms == old(u).deadline_ms,
        arrival(poll) == Some(true) <==> poll == EventPoll::Event(true),
        arrival(poll) == Some(false) <==> poll is Closed,
{
}

/// What a caller gets of an event, a dialog, an evaluation and a list of the browser's is what stands in
/// them: the session that an event names, the text that a prompt proposes, the value that an evaluation
/// came to, the items of the list in their order.
pub proof fn law_what_the_browser_says_is_read(
    event: Json,
    session: &str,
    kind: EventFor,
    answer: Option<Json>,
    result: Json,
    value: Result<Json, WebPilotError>,
    field: &str,
    method: &str,
    items: Result<&Vec<Json>, WebPilotError>,
)
    requires
        call_ensures(classify_event, (&event, session), kind),
        call_ensures(answer_dialog, (&event,), answer),
        call_ensures(evaluation, (&result,), value),
        call_ensures(require_array, (&result, field, method), items),
    ensures
        kind is Deliver <==> event@.get("sessionId"@) == Some(JsonView::Str(session@)),
        kind is Closed <==> !(kind is Deliver) && event@.get("method"@) == Some(
            JsonView::Str("Target.detachedFromTarget"@),
        ) && (event@.get("params"@) matches Some(p) && p.get("sessionId"@) == Some(
            JsonView::Str(session@),
        )),
        answer is Some <==> event@.get("method"@) == Some(
            JsonView::Str("Page.javascriptDialogOpening"@),
        ),
        answer matches Some(a) ==> a@.get("accept"@) == Some(JsonView::Bool(true)) && (event@.get(
            "params"@,
        ) matches Some(p) ==> (p.get("defaultPrompt"@) matches Some(JsonView::Str(t)) ==> a@.get(
            "promptText"@,
        ) == Some(JsonView::Str(t)))),
        value is Ok <==> result@.get("exceptionDetails"@) is None,
        value matches Ok(v) ==> (result@.get("result"@) matches Some(held) ==> (held.get(
            "value"@,
        ) matches Some(found) ==> v@ == found)),
        value matches Ok(v) ==> (result@.get("result"@) is None ==> v@ is Null),
        items is Ok <==> (result@.get(field@) matches Some(JsonView::Array(_))),
        items matches Ok(list) ==> result@.get(field@) == Some(JsonView::Array(json::views(list@))),
        items matches Err(e) ==> (e matches WebPilotError::Other { detail } && text::holds(
            detail@,
            method@,
        ) && text::holds(detail@, field@)),
{
    law_events_find_their_sessions(event@, session@);
    law_dialogs_are_accepted(event@);
    law_evaluations(result@);
    let front = "malformed "@;
    let mid = " response: missing '"@;
    let end = "' array"@;
    assert(front + method@ + mid + field@ + end =~= front + method@ + (mid + field@ + end));
    text::lemma_part(front, method@, mid + field@ + end);
    text::lemma_part(front + method@ + mid, field@, end);
}

/// A connection starts alive, with nothing waiting and its first id still to give; a heartbeat that
/// cannot be written ends it, and nothing waits any longer. A prefix is the front of a text.
pub proof fn law_connections_begin_and_end<T>(
    fresh: CdpClient<T>,
    client: &mut CdpClient<T>,
    written: bool,
    r: bool,
    s: &str,
    n: usize,
    front: String,
    target: &str,
    ms: u64,
    lost: WebPilotError,
    poll: EventPoll,
    come: Option<bool>,
)
    requires
        call_ensures(CdpClient::<T>::connect, (), fresh),
        call_ensures(CdpClient::<T>::after_beat_write, (client, written), r),
        call_ensures(char_safe_prefix, (s, n), front),
        call_ensures(inconclusive_wait_timeout, (target, ms), lost),
        call_ensures(wait_on_receiver, (poll,), come),
    ensures
        fresh.alive && fresh.next_id == 1 && fresh.pending@.dom().is_empty(),
        r == written,
        written ==> *final(client) == *old(client),
        !written ==> !final(client).alive && final(client).pending@.dom().is_empty(),
        front@.len() == (if s@.len() < n {
            s@.len()
        } else {
            n as nat
        }),
        text::has_prefix(s@, front@),
        lost matches WebPilotError::Timeout { kind, elapsed_ms } && text::has_prefix(kind@, target@)
            && elapsed_ms == ms,
        come == Some(true) <==> poll == EventPoll::Event(true),
        come == Some(false) <==> poll is Closed,
{
    text::law_one_line(s@, n as nat);
    let rest = choose|rest: Seq<char>| s@ == #[trigger] (text::clipped(s@, n as nat) + rest) && (
    rest.len() > 0 ==> text::clipped(s@, n as nat).len() == n);
    text::lemma_front(text::clipped(s@, n as nat), rest);
    text::lemma_front(
        target@,
        " — CDP event buffer overflowed; events were dropped, so the wait is inconclusive (retry, or raise cdp.event_buffer)"@,
    );
}

/// The third silent heartbeat in a row ends a connection, and none before it.
pub proof fn law_the_third_silence_ends_it<T>(
    client: &mut CdpClient<T>,
    misses: &mut u32,
    id: u64,
    r: bool,
)
    requires
        *old(misses) <= 2,
        call_ensures(
            CdpClient::<T>::after_beat,
            (client, misses, id, false, old(client).activity),
            r,
        ),
    ensures
        *old(misses) == 2 ==> !r && !final(client).alive,
        *old(misses) < 2 ==> r && final(client).alive == old(client).alive,
        HEARTBEAT_TIMEOUT_S == 5,
        PARSE_PREVIEW_CHARS == 200,
{
}

} // verus!
