//! The streaming session: what becomes of each frame, and when a session ends or starts again.

use vstd::prelude::*;

use crate::marketstore::rows::{
    bar_from_ws_row, bar_in, quote_from_ws_row, quote_in, trade_from_ws_row, trade_in, BarRow,
    Field, QuoteRow, StreamPayload, TradeRow, TradeRowView,
};
use crate::marketstore::subscriptions::{
    InstrumentKey, SubKind, Subscriptions, TbkSubscription,
};
use crate::marketstore::symbology::{
    bar_interval_ns, interval_of, key_bar_type, key_matches, tbk_matches_pattern, tbk_to_bar_type,
    BarType, BarTypeView,
};
use crate::text::{same_text, views};

verus! {

/// Patterns of bars to stream, such as `*/1Min/OHLCV`. The bar type of a frame that matches is made
/// from its key and the venue.
#[derive(Clone, Debug)]
pub struct GlobStreams {
    pub patterns: Vec<String>,
    pub venue: String,
    pub price_precision: u8,
    pub size_precision: u8,
}

impl Default for GlobStreams {
    /// No patterns.
    fn default() -> (r: GlobStreams)
        ensures
            r.patterns@.len() == 0,
            r.venue@.len() == 0,
            r.price_precision == 0,
            r.size_precision == 0,
    {
        GlobStreams {
            patterns: Vec::new(),
            venue: String::new(),
            price_precision: 0,
            size_precision: 0,
        }
    }
}

/// Whether a key matches some pattern.
pub open spec fn some_pattern_matches(patterns: Seq<String>, key: Seq<char>) -> bool {
    exists|i: int| 0 <= i < patterns.len() && key_matches(key, (#[trigger] patterns[i])@)
}

impl GlobStreams {
    /// Whether there are no patterns.
    pub fn is_empty(&self) -> (r: bool)
        ensures
            r == (self.patterns@.len() == 0),
    {
        self.patterns.len() == 0
    }

    /// Whether a key matches some pattern.
    pub fn matches(&self, key: &str) -> (r: bool)
        ensures
            r == some_pattern_matches(self.patterns@, key@),
    {
        let mut i: usize = 0;
        while i < self.patterns.len()
            invariant
                i <= self.patterns@.len(),
                forall|k: int|
                    0 <= k < i ==> !key_matches(key@, (#[trigger] self.patterns@[k])@),
            decreases self.patterns@.len() - i,
        {
            if tbk_matches_pattern(key, self.patterns[i].as_str()) {
                assert(key_matches(key@, self.patterns@[i as int]@));
                return true;
            }
            i = i + 1;
        }
        false
    }
}

/// A stretch of the past to be streamed again.
#[derive(Clone, Debug)]
pub struct ReplayWindow {
    pub start: String,
    pub end: String,
    pub step: i64,
}

// ----- frames -----

/// A frame, by what it can be read as: data first, then control, then an error.
#[derive(Debug)]
pub enum Frame {
    Data(StreamPayload),
    /// The action of a control message.
    Control(String),
    /// The message of an error.
    Failure(String),
    /// Nothing that is known.
    Unknown,
}

/// What a frame of data delivers.
#[derive(Debug)]
pub enum Delivery {
    Bar { bar_type: BarType, price_precision: u8, size_precision: u8, row: BarRow },
    Trade { instrument_id: InstrumentKey, price_precision: u8, size_precision: u8, row: TradeRow },
    Quote { instrument_id: InstrumentKey, price_precision: u8, size_precision: u8, row: QuoteRow },
}

/// What is to be done with a frame.
#[derive(Debug)]
pub enum FrameAction {
    /// Pass this on.
    Deliver(Delivery),
    /// The row cannot be decoded, for this reason.
    Undecodable(String),
    /// A time, or the length of a bar, does not fit in 64 bits.
    Unfit,
    /// The frame's key is not asked for.
    Unasked,
    /// The replay is over.
    ReplayEnd,
    /// A control message that asks for nothing.
    Ignore,
    /// The server reports this error.
    ServerError(String),
}

/// What is to be done with a frame, with texts as sequences of characters.
pub enum FramePlan {
    Bar(BarTypeView, u8, u8, BarRow),
    Trade((Seq<char>, Seq<char>), u8, u8, TradeRowView),
    Quote((Seq<char>, Seq<char>), u8, u8, QuoteRow),
    Undecodable(Seq<char>),
    Unfit,
    Unasked,
    ReplayEnd,
    Ignore,
    ServerError(Seq<char>),
}

impl View for FrameAction {
    type V = FramePlan;

    open spec fn view(&self) -> FramePlan {
        match self {
            FrameAction::Deliver(Delivery::Bar {
                bar_type,
                price_precision,
                size_precision,
                row,
            }) => FramePlan::Bar(bar_type@, *price_precision, *size_precision, *row),
            FrameAction::Deliver(Delivery::Trade {
                instrument_id,
                price_precision,
                size_precision,
                row,
            }) => FramePlan::Trade(instrument_id@, *price_precision, *size_precision, row@),
            FrameAction::Deliver(Delivery::Quote {
                instrument_id,
                price_precision,
                size_precision,
                row,
            }) => FramePlan::Quote(instrument_id@, *price_precision, *size_precision, *row),
            FrameAction::Undecodable(e) => FramePlan::Undecodable(e@),
            FrameAction::Unfit => FramePlan::Unfit,
            FrameAction::Unasked => FramePlan::Unasked,
            FrameAction::ReplayEnd => FramePlan::ReplayEnd,
            FrameAction::Ignore => FramePlan::Ignore,
            FrameAction::ServerError(e) => FramePlan::ServerError(e@),
        }
    }
}

/// What a row comes to as a bar of this type.
pub open spec fn bar_plan(
    row: Seq<Field>,
    bar_type: BarTypeView,
    price_precision: u8,
    size_precision: u8,
    delta: u64,
) -> FramePlan {
    match bar_in(row, delta) {
        Err(e) => FramePlan::Undecodable(e),
        Ok(None) => FramePlan::Unfit,
        Ok(Some(bar)) => FramePlan::Bar(bar_type, price_precision, size_precision, bar),
    }
}

/// What a row comes to under a subscription.
pub open spec fn subscribed_plan(row: Seq<Field>, s: TbkSubscription) -> FramePlan {
    match s.kind {
        SubKind::Bar { bar_type, ts_init_delta_ns } => bar_plan(
            row,
            bar_type@,
            s.price_precision,
            s.size_precision,
            ts_init_delta_ns,
        ),
        SubKind::Trade { instrument_id } => match trade_in(row) {
            Err(e) => FramePlan::Undecodable(e),
            Ok(None) => FramePlan::Unfit,
            Ok(Some(trade)) => FramePlan::Trade(
                instrument_id@,
                s.price_precision,
                s.size_precision,
                trade,
            ),
        },
        SubKind::Quote { instrument_id } => match quote_in(row) {
            Err(e) => FramePlan::Undecodable(e),
            Ok(None) => FramePlan::Unfit,
            Ok(Some(quote)) => FramePlan::Quote(
                instrument_id@,
                s.price_precision,
                s.size_precision,
                quote,
            ),
        },
    }
}

/// What a row comes to whose key matches a pattern: its bar type is made from the key.
pub open spec fn glob_plan(payload: StreamPayload, globs: GlobStreams) -> FramePlan {
    match key_bar_type(payload.key@, globs.venue@) {
        Err(_) => FramePlan::Unasked,
        Ok(bar_type) => match interval_of(bar_type.aggregation, bar_type.step) {
            None => FramePlan::Unfit,
            Some(delta) => bar_plan(
                payload.contents(),
                bar_type,
                globs.price_precision,
                globs.size_precision,
                delta as u64,
            ),
        },
    }
}

/// What a frame of data comes to: the subscription under its key decides, else a pattern that its
/// key matches.
pub open spec fn data_plan(
    payload: StreamPayload,
    subscriptions: Map<Seq<char>, TbkSubscription>,
    globs: GlobStreams,
) -> FramePlan {
    if subscriptions.dom().contains(payload.key@) {
        subscribed_plan(payload.contents(), subscriptions[payload.key@])
    } else if some_pattern_matches(globs.patterns@, payload.key@) {
        glob_plan(payload, globs)
    } else {
        FramePlan::Unasked
    }
}

/// What is to be done with a frame.
pub open spec fn frame_plan(
    frame: Frame,
    subscriptions: Map<Seq<char>, TbkSubscription>,
    globs: GlobStreams,
) -> FramePlan {
    match frame {
        Frame::Data(payload) => data_plan(payload, subscriptions, globs),
        Frame::Control(action) => if action@ == "end"@ {
            FramePlan::ReplayEnd
        } else {
            FramePlan::Ignore
        },
        Frame::Failure(e) => FramePlan::ServerError(e@),
        Frame::Unknown => FramePlan::Ignore,
    }
}

fn copy_bar_type(b: &BarType) -> (r: BarType)
    ensures
        r@ == b@,
{
    BarType {
        symbol: b.symbol.clone(),
        venue: b.venue.clone(),
        step: b.step,
        aggregation: b.aggregation,
        text: b.text.clone(),
    }
}

fn copy_instrument(k: &InstrumentKey) -> (r: InstrumentKey)
    ensures
        r@ == k@,
{
    InstrumentKey { symbol: k.symbol.clone(), venue: k.venue.clone() }
}

fn deliver_bar(
    row: &Vec<Field>,
    bar_type: BarType,
    price_precision: u8,
    size_precision: u8,
    delta: u64,
) -> (r: FrameAction)
    ensures
        r@ == bar_plan(row@, bar_type@, price_precision, size_precision, delta),
{
    match bar_from_ws_row(row, delta) {
        Err(e) => FrameAction::Undecodable(e),
        Ok(None) => FrameAction::Unfit,
        Ok(Some(row)) => FrameAction::Deliver(
            Delivery::Bar { bar_type, price_precision, size_precision, row },
        ),
    }
}

fn deliver_subscribed(row: &Vec<Field>, s: &TbkSubscription) -> (r: FrameAction)
    ensures
        r@ == subscribed_plan(row@, *s),
{
    let price_precision = s.price_precision;
    let size_precision = s.size_precision;
    match &s.kind {
        SubKind::Bar { bar_type, ts_init_delta_ns } => deliver_bar(
            row,
            copy_bar_type(bar_type),
            price_precision,
            size_precision,
            *ts_init_delta_ns,
        ),
        SubKind::Trade { instrument_id } => match trade_from_ws_row(row) {
            Err(e) => FrameAction::Undecodable(e),
            Ok(None) => FrameAction::Unfit,
            Ok(Some(row)) => FrameAction::Deliver(
                Delivery::Trade {
                    instrument_id: copy_instrument(instrument_id),
                    price_precision,
                    size_precision,
                    row,
                },
            ),
        },
        SubKind::Quote { instrument_id } => match quote_from_ws_row(row) {
            Err(e) => FrameAction::Undecodable(e),
            Ok(None) => FrameAction::Unfit,
            Ok(Some(row)) => FrameAction::Deliver(
                Delivery::Quote {
                    instrument_id: copy_instrument(instrument_id),
                    price_precision,
                    size_precision,
                    row,
                },
            ),
        },
    }
}

fn deliver_glob(payload: &StreamPayload, globs: &GlobStreams) -> (r: FrameAction)
    ensures
        r@ == glob_plan(*payload, *globs),
{
    match tbk_to_bar_type(payload.key.as_str(), globs.venue.as_str()) {
        Err(_) => FrameAction::Unasked,
        Ok(bar_type) => match bar_interval_ns(&bar_type) {
            None => FrameAction::Unfit,
            Some(delta) => deliver_bar(
                payload.row(),
                bar_type,
                globs.price_precision,
                globs.size_precision,
                delta,
            ),
        },
    }
}

/// Decides what is to be done with a frame.
pub fn handle_binary(frame: &Frame, subscriptions: &Subscriptions, globs: &GlobStreams) -> (r:
    FrameAction)
    requires
        subscriptions.valid(),
    ensures
        r@ == frame_plan(*frame, subscriptions@, *globs),
{
    match frame {
        Frame::Data(payload) => match subscriptions.get(payload.key.as_str()) {
            Some(s) => deliver_subscribed(payload.row(), s),
            None => if globs.matches(payload.key.as_str()) {
                deliver_glob(payload, globs)
            } else {
                FrameAction::Unasked
            },
        },
        Frame::Control(action) => if same_text(action.as_str(), "end") {
            FrameAction::ReplayEnd
        } else {
            FrameAction::Ignore
        },
        Frame::Failure(e) => FrameAction::ServerError(e.clone()),
        Frame::Unknown => FrameAction::Ignore,
    }
}

/// The keys to subscribe to: those of the subscriptions, each once, then the patterns in their
/// order.
pub fn subscribe_tbks(subscriptions: &Subscriptions, globs: &GlobStreams) -> (r: Vec<String>)
    requires
        subscriptions.valid(),
    ensures
        ({
            let n = r@.len() - globs.patterns@.len();
            &&& 0 <= n
            &&& views(r@.take(n)).no_duplicates()
            &&& forall|key: Seq<char>|
                views(r@.take(n)).contains(key) <==> subscriptions@.dom().contains(key)
            &&& views(r@.skip(n)) == views(globs.patterns@)
        }),
{
    let mut out = subscriptions.keys();
    let ghost keys = out@;
    let mut i: usize = 0;
    while i < globs.patterns.len()
        invariant
            i <= globs.patterns@.len(),
            out@.len() == keys.len() + i,
            out@.take(keys.len() as int) == keys,
            forall|k: int|
                0 <= k < i ==> (#[trigger] out@[keys.len() + k])@ == globs.patterns@[k]@,
        decreases globs.patterns@.len() - i,
    {
        let ghost before = out@;
        out.push(globs.patterns[i].clone());
        assert(out@.take(keys.len() as int) =~= before.take(keys.len() as int));
        assert forall|k: int| 0 <= k < i + 1 implies (#[trigger] out@[keys.len() + k])@
            == globs.patterns@[k]@ by {
            if k < i {
                assert(out@[keys.len() + k] == before[keys.len() + k]);
            }
        }
        i = i + 1;
    }
    proof {
        let tail = out@.skip(keys.len() as int);
        assert forall|k: int| 0 <= k < tail.len() implies views(tail)[k] == views(
            globs.patterns@,
        )[k] by {
            assert(tail[k] == out@[keys.len() + k]);
        }
        assert(views(tail) =~= views(globs.patterns@));
    }
    out
}

// ----- sessions -----

/// How a session ends.
#[derive(Clone, Copy, Debug, PartialEq, Eq, Structural)]
pub enum SessionEnd {
    /// It was canceled.
    Cancelled,
    /// The replay is over.
    ReplayComplete,
    /// It failed.
    Failed,
}

/// What happens in a session.
#[derive(Clone, Copy, Debug, PartialEq, Eq, Structural)]
pub enum SessionEvent {
    /// The session is canceled.
    Cancelled,
    /// A frame of bytes came, and said that the replay is over.
    ReplayEnd,
    /// Another frame of bytes came.
    Frame,
    /// A ping came.
    Ping,
    /// The server closes the connection.
    Close,
    /// Something else came.
    Other,
    /// Reading failed.
    ReadError,
    /// The stream is at its end.
    StreamEnd,
}

/// What a session does next.
#[derive(Clone, Copy, Debug, PartialEq, Eq, Structural)]
pub enum SessionStep {
    /// Read on.
    Continue,
    /// Answer the ping, then read on.
    Pong,
    /// Close the connection, then end so.
    CloseAndEnd(SessionEnd),
    /// End so.
    End(SessionEnd),
}

/// What a session does on an event. A replay is over when its server closes the connection; a live
/// session has then failed.
pub open spec fn session_step(event: SessionEvent, replay: bool) -> SessionStep {
    match event {
        SessionEvent::Cancelled => SessionStep::CloseAndEnd(SessionEnd::Cancelled),
        SessionEvent::ReplayEnd => SessionStep::CloseAndEnd(SessionEnd::ReplayComplete),
        SessionEvent::Ping => SessionStep::Pong,
        SessionEvent::Frame | SessionEvent::Other => SessionStep::Continue,
        SessionEvent::Close | SessionEvent::StreamEnd => if replay {
            SessionStep::End(SessionEnd::ReplayComplete)
        } else {
            SessionStep::End(SessionEnd::Failed)
        },
        SessionEvent::ReadError => SessionStep::End(SessionEnd::Failed),
    }
}

/// Decides what a session does on an event.
pub fn run_one_session(event: SessionEvent, replay: bool) -> (r: SessionStep)
    ensures
        r == session_step(event, replay),
{
    match event {
        SessionEvent::Cancelled => SessionStep::CloseAndEnd(SessionEnd::Cancelled),
        SessionEvent::ReplayEnd => SessionStep::CloseAndEnd(SessionEnd::ReplayComplete),
        SessionEvent::Ping => SessionStep::Pong,
        SessionEvent::Frame | SessionEvent::Other => SessionStep::Continue,
        SessionEvent::Close | SessionEvent::StreamEnd => if replay {
            SessionStep::End(SessionEnd::ReplayComplete)
        } else {
            SessionStep::End(SessionEnd::Failed)
        },
        SessionEvent::ReadError => SessionStep::End(SessionEnd::Failed),
    }
}

/// The pause before the first new attempt, in milliseconds.
pub const INITIAL_BACKOFF_MS: u64 = 1_000;

/// The longest pause before a new attempt, in milliseconds.
pub const MAX_BACKOFF_MS: u64 = 30_000;

/// What follows a session.
#[derive(Clone, Copy, Debug, PartialEq, Eq, Structural)]
pub enum LoopStep {
    /// No other session.
    Stop,
    /// Another session after a pause.
    RetryAfter {
        pause_ms: u64,
        /// The pause before the one after that.
        next_ms: u64,
    },
}

/// Twice the pause, up to the longest one.
pub open spec fn doubled(backoff_ms: u64) -> u64 {
    if 2 * backoff_ms < MAX_BACKOFF_MS {
        (2 * backoff_ms) as u64
    } else {
        MAX_BACKOFF_MS
    }
}

/// What follows a session: only a live session that failed, and was not canceled, is followed by
/// another one.
pub open spec fn loop_step(
    end: SessionEnd,
    cancelled: bool,
    replay: bool,
    backoff_ms: u64,
) -> LoopStep {
    if end == SessionEnd::Failed && !cancelled && !replay {
        LoopStep::RetryAfter { pause_ms: backoff_ms, next_ms: doubled(backoff_ms) }
    } else {
        LoopStep::Stop
    }
}

/// Decides what follows a session; `cancelled` says whether it was canceled meanwhile.
pub fn run_session_loop(end: SessionEnd, cancelled: bool, replay: bool, backoff_ms: u64) -> (r:
    LoopStep)
    requires
        backoff_ms <= MAX_BACKOFF_MS,
    ensures
        r == loop_step(end, cancelled, replay, backoff_ms),
{
    if end != SessionEnd::Failed || cancelled || replay {
        return LoopStep::Stop;
    }
    let twice: u64 = 2 * backoff_ms;
    let next: u64 = if twice < MAX_BACKOFF_MS {
        twice
    } else {
        MAX_BACKOFF_MS
    };
    LoopStep::RetryAfter { pause_ms: backoff_ms, next_ms: next }
}

// ----- laws -----

/// A subscription takes precedence: under its key, patterns change nothing.
pub proof fn subscriptions_take_precedence(
    payload: StreamPayload,
    subscriptions: Map<Seq<char>, TbkSubscription>,
    a: GlobStreams,
    b: GlobStreams,
)
    requires
        subscriptions.dom().contains(payload.key@),
    ensures
        data_plan(payload, subscriptions, a) == data_plan(payload, subscriptions, b),
{
}

/// Without a subscription and without a pattern that matches, nothing is delivered.
pub proof fn unasked_frames_are_dropped(
    payload: StreamPayload,
    subscriptions: Map<Seq<char>, TbkSubscription>,
    globs: GlobStreams,
)
    requires
        !subscriptions.dom().contains(payload.key@),
        !some_pattern_matches(globs.patterns@, payload.key@),
    ensures
        data_plan(payload, subscriptions, globs) == FramePlan::Unasked,
{
}

/// Only a control message that says so ends a replay; data and errors never do.
pub proof fn only_control_ends_a_replay(
    frame: Frame,
    subscriptions: Map<Seq<char>, TbkSubscription>,
    globs: GlobStreams,
)
    ensures
        frame_plan(frame, subscriptions, globs) == FramePlan::ReplayEnd <==> (
        frame matches Frame::Control(action) && action@ == "end"@),
{
}

/// A replay is never started again, and neither is a session that was canceled.
pub proof fn replays_run_once(end: SessionEnd, cancelled: bool, replay: bool, backoff_ms: u64)
    requires
        replay || cancelled || end != SessionEnd::Failed,
    ensures
        loop_step(end, cancelled, replay, backoff_ms) == LoopStep::Stop,
{
}

/// The pause after `n` failed attempts in a row, in milliseconds.
pub open spec fn pause_after(n: nat) -> u64
    decreases n,
{
    if n == 0 {
        INITIAL_BACKOFF_MS
    } else {
        doubled(pause_after((n - 1) as nat))
    }
}

/// Pauses double from one second on and never exceed thirty seconds.
pub proof fn pauses_stay_bounded(n: nat)
    ensures
        INITIAL_BACKOFF_MS <= pause_after(n) <= MAX_BACKOFF_MS,
        n >= 5 ==> pause_after(n) == MAX_BACKOFF_MS,
    decreases n,
{
    if n > 0 {
        pauses_stay_bounded((n - 1) as nat);
    }
    if n == 5 {
        reveal_with_fuel(pause_after, 6);
    }
}

/// What is delivered under a subscription is of its kind and carries its precisions, the price's
/// first: a subscription to bars delivers the row as a bar of its type that closes after its
/// length, one to trades as a trade and one to quotes as a quote of its instrument.
pub proof fn deliveries_follow_the_subscription(
    payload: StreamPayload,
    subscriptions: Map<Seq<char>, TbkSubscription>,
    globs: GlobStreams,
    s: TbkSubscription,
    bar: BarRow,
    trade: TradeRowView,
    quote: QuoteRow,
)
    requires
        subscriptions.dom().contains(payload.key@),
        subscriptions[payload.key@] == s,
    ensures
        s.kind matches SubKind::Bar { bar_type, ts_init_delta_ns } ==> (bar_in(
            payload.contents(),
            ts_init_delta_ns,
        ) == Ok::<Option<BarRow>, Seq<char>>(Some(bar)) ==> frame_plan(
            Frame::Data(payload),
            subscriptions,
            globs,
        ) == FramePlan::Bar(bar_type@, s.price_precision, s.size_precision, bar)),
        s.kind matches SubKind::Trade { instrument_id } ==> (trade_in(payload.contents()) == Ok::<
            Option<TradeRowView>,
            Seq<char>,
        >(Some(trade)) ==> frame_plan(Frame::Data(payload), subscriptions, globs)
            == FramePlan::Trade(
            (instrument_id.symbol@, instrument_id.venue@),
            s.price_precision,
            s.size_precision,
            trade,
        )),
        s.kind matches SubKind::Quote { instrument_id } ==> (quote_in(payload.contents()) == Ok::<
            Option<QuoteRow>,
            Seq<char>,
        >(Some(quote)) ==> frame_plan(Frame::Data(payload), subscriptions, globs)
            == FramePlan::Quote(
            (instrument_id.symbol@, instrument_id.venue@),
            s.price_precision,
            s.size_precision,
            quote,
        )),
{
}

/// What is delivered for a pattern is a bar of the type that the frame's key stands for at the
/// patterns' venue, with the patterns' precisions, the price's first, and it closes after the
/// length of that type.
pub proof fn deliveries_follow_the_key(
    payload: StreamPayload,
    subscriptions: Map<Seq<char>, TbkSubscription>,
    globs: GlobStreams,
    i: int,
    bar_type: BarTypeView,
    delta: u64,
    bar: BarRow,
)
    requires
        !subscriptions.dom().contains(payload.key@),
        0 <= i < globs.patterns@.len(),
        key_matches(payload.key@, globs.patterns@[i]@),
        key_bar_type(payload.key@, globs.venue@) == Ok::<BarTypeView, Seq<char>>(bar_type),
        interval_of(bar_type.aggregation, bar_type.step) == Some(delta as int),
        bar_in(payload.contents(), delta) == Ok::<Option<BarRow>, Seq<char>>(Some(bar)),
    ensures
        frame_plan(Frame::Data(payload), subscriptions, globs) == FramePlan::Bar(
            bar_type,
            globs.price_precision,
            globs.size_precision,
            bar,
        ),
{
    assert(some_pattern_matches(globs.patterns@, payload.key@));
}

/// What is said of an action is what it holds: the instrument, both precisions and the row.
pub proof fn actions_are_their_parts(
    bar_type: BarType,
    instrument_id: InstrumentKey,
    price_precision: u8,
    size_precision: u8,
    bar: BarRow,
    trade: TradeRow,
    quote: QuoteRow,
)
    ensures
        FrameAction::Deliver(
            Delivery::Bar { bar_type, price_precision, size_precision, row: bar },
        )@ == FramePlan::Bar(bar_type@, price_precision, size_precision, bar),
        FrameAction::Deliver(
            Delivery::Trade { instrument_id, price_precision, size_precision, row: trade },
        )@ matches FramePlan::Trade(id, price, size, row) && id.0 == instrument_id.symbol@ && id.1
            == instrument_id.venue@ && price == price_precision && size == size_precision
            && row.price == trade.price && row.size == trade.size && row.trade_id
            == trade.trade_id@ && row.ts_event == trade.ts_event,
        FrameAction::Deliver(
            Delivery::Quote { instrument_id, price_precision, size_precision, row: quote },
        )@ matches FramePlan::Quote(id, price, size, row) && id.0 == instrument_id.symbol@ && id.1
            == instrument_id.venue@ && price == price_precision && size == size_precision && row
            == quote,
{
}

/// When a session ends, and how. A cancel and the end of a replay close the connection first. Where
/// the server closes the connection, or the stream ends, a replay is complete and a live session
/// has failed; a failed read is a failure of either. A ping is answered. Anything else is passed
/// over.
pub proof fn sessions_end_for_a_reason(event: SessionEvent, replay: bool)
    ensures
        event == SessionEvent::Cancelled <==> session_step(event, replay)
            == SessionStep::CloseAndEnd(SessionEnd::Cancelled),
        event == SessionEvent::ReplayEnd <==> session_step(event, replay)
            == SessionStep::CloseAndEnd(SessionEnd::ReplayComplete),
        event == SessionEvent::Ping <==> session_step(event, replay) == SessionStep::Pong,
        event == SessionEvent::Frame || event == SessionEvent::Other <==> session_step(
            event,
            replay,
        ) == SessionStep::Continue,
        session_step(event, replay) == SessionStep::End(SessionEnd::ReplayComplete) <==> replay && (
        event == SessionEvent::Close || event == SessionEvent::StreamEnd),
        session_step(event, replay) == SessionStep::End(SessionEnd::Failed) <==> event
            == SessionEvent::ReadError || !replay && (event == SessionEvent::Close || event
            == SessionEvent::StreamEnd),
{
}

/// A live session that failed and was not canceled starts again after the pause that was due, and
/// the pause after that is twice as long, up to thirty seconds.
pub proof fn failed_sessions_start_again(backoff_ms: u64)
    requires
        backoff_ms <= 30_000,
    ensures
        loop_step(SessionEnd::Failed, false, false, backoff_ms) matches LoopStep::RetryAfter {
            pause_ms,
            next_ms,
        } && pause_ms == backoff_ms && next_ms == if backoff_ms <= 15_000 {
            2 * backoff_ms
        } else {
            30_000
        },
{
}

/// The pauses between attempts: one second, then two, four, eight, sixteen, then thirty each time.
pub proof fn pauses_in_a_row(n: nat)
    ensures
        pause_after(0) == 1_000,
        pause_after(1) == 2_000,
        pause_after(2) == 4_000,
        pause_after(3) == 8_000,
        pause_after(4) == 16_000,
        n >= 5 ==> pause_after(n) == 30_000,
{
    reveal_with_fuel(pause_after, 6);
    pauses_stay_bounded(n);
}

/// A frame of data under a key that nobody subscribed to, and that none of the patterns matches, is
/// not asked for, and nothing is delivered for it; a pattern that matches some other key changes
/// nothing.
pub proof fn frames_nobody_asked_for(
    payload: StreamPayload,
    subscriptions: Map<Seq<char>, TbkSubscription>,
    globs: GlobStreams,
)
    requires
        !subscriptions.dom().contains(payload.key@),
        forall|i: int|
            0 <= i < globs.patterns@.len() ==> !key_matches(
                payload.key@,
                (#[trigger] globs.patterns@[i])@,
            ),
    ensures
        frame_plan(Frame::Data(payload), subscriptions, globs) == FramePlan::Unasked,
{
}

/// Control messages and errors are told apart from data: an error is passed on as it is, the
/// message that says "end" ends a replay, and what is not known is passed over.
pub proof fn other_frames_are_told_apart(
    frame: Frame,
    subscriptions: Map<Seq<char>, TbkSubscription>,
    globs: GlobStreams,
)
    ensures
        frame matches Frame::Failure(e) ==> frame_plan(frame, subscriptions, globs)
            == FramePlan::ServerError(e@),
        frame matches Frame::Control(action) ==> (action@ == "end"@ ==> frame_plan(
            frame,
            subscriptions,
            globs,
        ) == FramePlan::ReplayEnd),
        frame matches Frame::Control(action) ==> (action@ != "end"@ ==> frame_plan(
            frame,
            subscriptions,
            globs,
        ) == FramePlan::Ignore),
        frame is Unknown ==> frame_plan(frame, subscriptions, globs) == FramePlan::Ignore,
{
}

} // verus!
