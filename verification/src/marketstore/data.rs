//! What the data client does with each command: which subscriptions there are, and what session
//! serves them.

use vstd::prelude::*;

use crate::marketstore::config::{spec_from, InstrumentSpec, MarketStoreDataClientConfig};
use crate::marketstore::rpc::{ends_in, ends_in_at, trim_end, without_end};
use crate::marketstore::stream::ReplayWindow;
use crate::marketstore::subscriptions::{InstrumentKey, SubKind, Subscriptions, TbkSubscription};
use crate::marketstore::symbology::{
    aggregation_error, bar_interval_ns, bar_key, bar_type_to_tbk, interval_of, quote_tbk,
    trade_tbk, unit_of, BarType,
};
use crate::text::chars_of;

verus! {

// ----- addresses -----

/// The address for replays that belongs to a streaming address.
pub open spec fn replay_address(ws: Seq<char>) -> Seq<char> {
    if ends_in(ws, "/ws/replay"@) {
        ws
    } else if ends_in(ws, "/ws"@) {
        ws + "/replay"@
    } else {
        without_end(ws, "/"@) + "/replay"@
    }
}

/// The address for replays that belongs to a streaming address: `/ws` becomes `/ws/replay`, an
/// address for replays stays, and to any other `/replay` is appended.
pub fn replay_endpoint(ws_endpoint: &str) -> (r: String)
    ensures
        r@ == replay_address(ws_endpoint@),
{
    let chars = chars_of(ws_endpoint);
    assert(chars@.take(chars@.len() as int) =~= chars@);
    if ends_in_at(&chars, chars.len(), &chars_of("/ws/replay")) {
        return ws_endpoint.to_owned();
    }
    if ends_in_at(&chars, chars.len(), &chars_of("/ws")) {
        return ws_endpoint.to_owned().concat("/replay");
    }
    proof {
        reveal_strlit("/");
    }
    let n: usize = trim_end(&chars, chars.len(), &chars_of("/"));
    let rest = ws_endpoint.substring_char(0, n);
    assert(rest@ =~= chars@.take(n as int));
    rest.to_owned().concat("/replay")
}

/// A session to start: where to connect, and what to replay.
#[derive(Clone, Debug)]
pub struct SessionPlan {
    pub ws_url: String,
    pub replay: Option<ReplayWindow>,
}

fn copy_window(w: &ReplayWindow) -> (r: ReplayWindow)
    ensures
        r.start@ == w.start@,
        r.end@ == w.end@,
        r.step == w.step,
{
    ReplayWindow { start: w.start.clone(), end: w.end.clone(), step: w.step }
}

/// The session that serves the subscriptions: none without subscriptions; a replay at the address
/// for replays; else the live stream.
pub fn restart_session(
    ws_endpoint: &str,
    replay: &Option<ReplayWindow>,
    subscriptions: &Subscriptions,
) -> (r: Option<SessionPlan>)
    requires
        subscriptions.valid(),
    ensures
        r is None <==> subscriptions@.dom() =~= Set::<Seq<char>>::empty(),
        r matches Some(plan) ==> match (plan.replay, *replay) {
            (Some(a), Some(b)) => a.start@ == b.start@ && a.end@ == b.end@ && a.step == b.step
                && plan.ws_url@ == replay_address(ws_endpoint@),
            (None, None) => plan.ws_url@ == ws_endpoint@,
            _ => false,
        },
{
    if subscriptions.is_empty() {
        return None;
    }
    match replay {
        Some(w) => Some(
            SessionPlan { ws_url: replay_endpoint(ws_endpoint), replay: Some(copy_window(w)) },
        ),
        None => Some(SessionPlan { ws_url: ws_endpoint.to_owned(), replay: None }),
    }
}

/// The generation after this one; after the largest, counting begins again.
pub open spec fn generation_after(generation: u64) -> u64 {
    if generation == u64::MAX {
        0
    } else {
        (generation + 1) as u64
    }
}

/// The generation of the next restart. A restart counts its own; it is superseded once another one
/// has been counted.
pub fn next_generation(generation: u64) -> (r: u64)
    ensures
        r == generation_after(generation),
{
    if generation == u64::MAX {
        0
    } else {
        generation + 1
    }
}

/// Whether a restart is still the latest one. Of a burst of restarts only the last goes ahead.
pub fn restart_is_current(mine: u64, latest: u64) -> (r: bool)
    ensures
        r == (mine == latest),
{
    mine == latest
}

// ----- subscribing -----

/// The price and size precisions of a symbol.
pub open spec fn precisions(config: MarketStoreDataClientConfig, symbol: Seq<char>) -> (u8, u8) {
    match spec_from(config.instruments@, symbol, 0) {
        Some(i) => (config.instruments@[i].price_precision, config.instruments@[i].size_precision),
        None => (config.price_precision, config.size_precision),
    }
}

/// Whether `after` is `before` with a subscription to bars under `key`.
pub open spec fn subscribes_bars(
    after: Map<Seq<char>, TbkSubscription>,
    before: Map<Seq<char>, TbkSubscription>,
    key: Seq<char>,
    bar_type: BarType,
    precision: (u8, u8),
) -> bool {
    exists|s: TbkSubscription| #[trigger]
        before.insert(key, s) == after && s.price_precision == precision.0 && s.size_precision
            == precision.1 && (s.kind matches SubKind::Bar { bar_type: b, ts_init_delta_ns } && b
            == bar_type && Some(ts_init_delta_ns as int) == interval_of(
            bar_type.aggregation,
            bar_type.step as int,
        ))
}

/// Adds a subscription to bars under the key of their type. It is refused, and nothing changes,
/// where the store does not have the aggregation. The length of the bars has to fit, which
/// [`bar_interval_ns`] tells.
pub fn subscribe_bars(
    subscriptions: &mut Subscriptions,
    config: &MarketStoreDataClientConfig,
    bar_type: BarType,
) -> (r: Result<(), String>)
    requires
        old(subscriptions).valid(),
        unit_of(bar_type.aggregation) is Some ==> interval_of(
            bar_type.aggregation,
            bar_type.step as int,
        ) is Some,
    ensures
        final(subscriptions).valid(),
        match unit_of(bar_type.aggregation) {
            None => (r matches Err(e) && e@ == aggregation_error(bar_type.aggregation))
                && final(subscriptions)@ == old(subscriptions)@,
            Some(unit) => r is Ok && subscribes_bars(
                final(subscriptions)@,
                old(subscriptions)@,
                bar_key(bar_type.symbol@, bar_type.step as nat, unit),
                bar_type,
                precisions(*config, bar_type.symbol@),
            ),
        },
{
    let key = match bar_type_to_tbk(&bar_type) {
        Ok(k) => k,
        Err(e) => return Err(e),
    };
    let delta: u64 = bar_interval_ns(&bar_type).unwrap();
    let (price_precision, size_precision) = config.precision_for(bar_type.symbol.as_str());
    let s = TbkSubscription {
        kind: SubKind::Bar { bar_type, ts_init_delta_ns: delta },
        price_precision,
        size_precision,
    };
    let ghost before = subscriptions@;
    let ghost k = key@;
    subscriptions.insert(key, s);
    assert(before.insert(k, s) == subscriptions@);
    Ok(())
}

/// Removes the subscription to bars, if there is one.
pub fn unsubscribe_bars(subscriptions: &mut Subscriptions, bar_type: &BarType) -> (r: Result<
    (),
    String,
>)
    requires
        old(subscriptions).valid(),
    ensures
        final(subscriptions).valid(),
        match (r, unit_of(bar_type.aggregation)) {
            (Ok(_), Some(unit)) => final(subscriptions)@ == old(subscriptions)@.remove(
                bar_key(bar_type.symbol@, bar_type.step as nat, unit),
            ),
            (Err(e), None) => e@ == aggregation_error(bar_type.aggregation)
                && final(subscriptions)@ == old(subscriptions)@,
            _ => false,
        },
{
    match bar_type_to_tbk(bar_type) {
        Ok(key) => {
            subscriptions.remove(key.as_str());
            Ok(())
        },
        Err(e) => Err(e),
    }
}

/// Adds a subscription to the trades of an instrument.
pub fn subscribe_trades(
    subscriptions: &mut Subscriptions,
    config: &MarketStoreDataClientConfig,
    instrument_id: InstrumentKey,
)
    requires
        old(subscriptions).valid(),
    ensures
        final(subscriptions).valid(),
        final(subscriptions)@ == old(subscriptions)@.insert(
            instrument_id.symbol@ + "/1Sec/TRADE"@,
            (TbkSubscription {
                kind: SubKind::Trade { instrument_id },
                price_precision: precisions(*config, instrument_id.symbol@).0,
                size_precision: precisions(*config, instrument_id.symbol@).1,
            }),
        ),
{
    let key = trade_tbk(instrument_id.symbol.as_str());
    let (price_precision, size_precision) = config.precision_for(instrument_id.symbol.as_str());
    subscriptions.insert(
        key,
        TbkSubscription { kind: SubKind::Trade { instrument_id }, price_precision, size_precision },
    );
}

/// Removes the subscription to the trades of an instrument, if there is one.
pub fn unsubscribe_trades(subscriptions: &mut Subscriptions, symbol: &str)
    requires
        old(subscriptions).valid(),
    ensures
        final(subscriptions).valid(),
        final(subscriptions)@ == old(subscriptions)@.remove(symbol@ + "/1Sec/TRADE"@),
{
    subscriptions.remove(trade_tbk(symbol).as_str());
}

/// Adds a subscription to the quotes of an instrument.
pub fn subscribe_quotes(
    subscriptions: &mut Subscriptions,
    config: &MarketStoreDataClientConfig,
    instrument_id: InstrumentKey,
)
    requires
        old(subscriptions).valid(),
    ensures
        final(subscriptions).valid(),
        final(subscriptions)@ == old(subscriptions)@.insert(
            instrument_id.symbol@ + "/1Sec/QUOTE"@,
            (TbkSubscription {
                kind: SubKind::Quote { instrument_id },
                price_precision: precisions(*config, instrument_id.symbol@).0,
                size_precision: precisions(*config, instrument_id.symbol@).1,
            }),
        ),
{
    let key = quote_tbk(instrument_id.symbol.as_str());
    let (price_precision, size_precision) = config.precision_for(instrument_id.symbol.as_str());
    subscriptions.insert(
        key,
        TbkSubscription { kind: SubKind::Quote { instrument_id }, price_precision, size_precision },
    );
}

/// Removes the subscription to the quotes of an instrument, if there is one.
pub fn unsubscribe_quotes(subscriptions: &mut Subscriptions, symbol: &str)
    requires
        old(subscriptions).valid(),
    ensures
        final(subscriptions).valid(),
        final(subscriptions)@ == old(subscriptions)@.remove(symbol@ + "/1Sec/QUOTE"@),
{
    subscriptions.remove(quote_tbk(symbol).as_str());
}

// ----- laws -----

/// The address for replays is its own address for replays.
pub proof fn replay_address_stays(ws: Seq<char>)
    requires
        ends_in(ws, "/ws"@) || ends_in(ws, "/ws/replay"@),
    ensures
        replay_address(replay_address(ws)) == replay_address(ws),
{
    reveal_strlit("/ws");
    reveal_strlit("/replay");
    reveal_strlit("/ws/replay");
    assert("/ws/replay"@ =~= "/ws"@ + "/replay"@);
    if !ends_in(ws, "/ws/replay"@) {
        let r = ws + "/replay"@;
        assert(r.skip(r.len() - 10) =~= ws.skip(ws.len() - 3) + "/replay"@);
        assert(ends_in(r, "/ws/replay"@));
    }
}

/// The generation of the `n`-th restart after `generation`.
pub open spec fn generation_of(generation: u64, n: nat) -> u64
    decreases n,
{
    if n == 0 {
        generation
    } else {
        generation_after(generation_of(generation, (n - 1) as nat))
    }
}

proof fn generations_count(generation: u64, n: nat)
    ensures
        generation_of(generation, n) as int == (generation + n) % 0x1_0000_0000_0000_0000,
    decreases n,
{
    if n > 0 {
        generations_count(generation, (n - 1) as nat);
    }
}

/// Of a burst of restarts only the last goes ahead: of `n` restarts, the `k`-th has the latest
/// generation exactly when it is the last.
pub proof fn only_the_last_restart_goes_ahead(generation: u64, k: nat, n: nat)
    requires
        1 <= k <= n <= u64::MAX,
    ensures
        generation_of(generation, k) == generation_of(generation, n) <==> k == n,
{
    generations_count(generation, k);
    generations_count(generation, n);
}

/// Unsubscribing undoes subscribing where the key was not taken: from bars as [`subscribe_bars`]
/// adds them, and from trades and quotes, whose keys are those of their symbol.
pub proof fn unsubscribing_undoes_subscribing(
    before: Map<Seq<char>, TbkSubscription>,
    after: Map<Seq<char>, TbkSubscription>,
    key: Seq<char>,
    bar_type: BarType,
    precision: (u8, u8),
    s: TbkSubscription,
)
    requires
        !before.dom().contains(key),
    ensures
        subscribes_bars(after, before, key, bar_type, precision) ==> after.remove(key) == before,
        before.insert(key, s).remove(key) == before,
{
    assert(before.insert(key, s).remove(key) =~= before);
    if subscribes_bars(after, before, key, bar_type, precision) {
        assert(after.remove(key) =~= before);
    }
}

/// The address for replays of a stream at `/ws` is that address with `/replay` behind it, and an
/// address for replays is its own. Of any other address the slashes behind it give way to
/// `/replay`.
pub proof fn replays_are_behind_the_stream(host: Seq<char>)
    ensures
        replay_address(host + "/ws"@) == host + "/ws/replay"@,
        replay_address(host + "/ws/replay"@) == host + "/ws/replay"@,
        !ends_in(host, "/"@) && !ends_in(host, "/ws"@) && !ends_in(host, "/ws/replay"@)
            ==> replay_address(host) == host + "/replay"@ && replay_address(host + "/"@) == host
            + "/replay"@,
{
    reveal_strlit("/");
    reveal_strlit("/ws");
    reveal_strlit("/replay");
    reveal_strlit("/ws/replay");
    assert("/ws/replay"@ =~= "/ws"@ + "/replay"@);
    let live = host + "/ws"@;
    let replay = host + "/ws/replay"@;
    assert(replay =~= live + "/replay"@);
    assert(replay.skip(replay.len() - 10) =~= "/ws/replay"@);
    assert(live.skip(live.len() - 3) =~= "/ws"@);
    assert(!ends_in(live, "/ws/replay"@)) by {
        if ends_in(live, "/ws/replay"@) {
            assert(live[live.len() - 1] == live.skip(live.len() - 10)[9]);
            assert(live[live.len() - 1] == "/ws"@[2]);
            assert("/ws/replay"@[9] == 'y' && "/ws"@[2] == 's');
        }
    }
    if !ends_in(host, "/"@) && !ends_in(host, "/ws"@) && !ends_in(host, "/ws/replay"@) {
        assert(without_end(host, "/"@) == host);
        let slashed = host + "/"@;
        assert(slashed.skip(host.len() as int) =~= "/"@);
        assert(slashed.take(host.len() as int) =~= host);
        assert(without_end(slashed, "/"@) == host);
        assert(!ends_in(slashed, "/ws"@)) by {
            if ends_in(slashed, "/ws"@) {
                assert(slashed[slashed.len() - 1] == slashed.skip(slashed.len() - 3)[2]);
                assert("/ws"@[2] == 's' && "/"@[0] == '/');
            }
        }
        assert(!ends_in(slashed, "/ws/replay"@)) by {
            if ends_in(slashed, "/ws/replay"@) {
                assert(slashed[slashed.len() - 1] == slashed.skip(slashed.len() - 10)[9]);
                assert("/ws/replay"@[9] == 'y' && "/"@[0] == '/');
            }
        }
    }
}

/// The precisions of a symbol are those of the first instrument that is configured for it, the
/// price's first; of a symbol without one they are those of other symbols.
pub proof fn precisions_are_the_instruments_own(
    config: MarketStoreDataClientConfig,
    symbol: Seq<char>,
    k: int,
)
    ensures
        0 <= k < config.instruments@.len() && config.instruments@[k].symbol@ == symbol && (forall|
            j: int,
        |
            0 <= j < k ==> (#[trigger] config.instruments@[j]).symbol@ != symbol) ==> precisions(
            config,
            symbol,
        ) == (config.instruments@[k].price_precision, config.instruments@[k].size_precision),
        (forall|j: int|
            0 <= j < config.instruments@.len() ==> (#[trigger] config.instruments@[j]).symbol@
                != symbol) ==> precisions(config, symbol) == (
            config.price_precision,
            config.size_precision,
        ),
{
    first_spec(config.instruments@, symbol, k, 0);
}

proof fn first_spec(specs: Seq<InstrumentSpec>, symbol: Seq<char>, k: int, i: int)
    requires
        0 <= i,
    ensures
        i <= k < specs.len() && specs[k].symbol@ == symbol && (forall|j: int|
            i <= j < k ==> (#[trigger] specs[j]).symbol@ != symbol) ==> spec_from(specs, symbol, i)
            == Some(k),
        (forall|j: int| i <= j < specs.len() ==> (#[trigger] specs[j]).symbol@ != symbol)
            ==> spec_from(specs, symbol, i) is None,
    decreases specs.len() - i,
{
    if i < specs.len() {
        first_spec(specs, symbol, k, i + 1);
    }
}

/// A subscription to bars is under the key of their symbol, step and unit: it delivers bars of that
/// type, which close as long after they open as their step says, at the symbol's precisions, and
/// leaves every other subscription as it was.
pub proof fn bar_subscriptions_are_their_own(
    after: Map<Seq<char>, TbkSubscription>,
    before: Map<Seq<char>, TbkSubscription>,
    key: Seq<char>,
    bar_type: BarType,
    precision: (u8, u8),
    other: Seq<char>,
)
    requires
        subscribes_bars(after, before, key, bar_type, precision),
    ensures
        after.dom().contains(key),
        after[key].price_precision == precision.0,
        after[key].size_precision == precision.1,
        after[key].kind matches SubKind::Bar { bar_type: b, ts_init_delta_ns } && b == bar_type
            && Some(ts_init_delta_ns as int) == interval_of(
            bar_type.aggregation,
            bar_type.step as int,
        ),
        other != key ==> (after.dom().contains(other) <==> before.dom().contains(other)),
        other != key && before.dom().contains(other) ==> after[other] == before[other],
{
}

} // verus!
