//! The store's control interface: turning on the ingestion of a symbol's ticks.

use vstd::prelude::*;

use crate::text::{chars_of, json_string, json_text};

verus! {

/// The tick streams that can be turned on.
#[derive(Clone, Copy, Debug, PartialEq, Eq, Structural)]
pub enum TickKind {
    Quotes,
    Trades,
}

impl TickKind {
    /// The store's word for the stream.
    pub open spec fn data_type(self) -> Seq<char> {
        match self {
            TickKind::Quotes => "quotes"@,
            TickKind::Trades => "trades"@,
        }
    }

    /// The store's word for the stream.
    pub fn as_data_type(self) -> (r: &'static str)
        ensures
            r@ == self.data_type(),
    {
        match self {
            TickKind::Quotes => "quotes",
            TickKind::Trades => "trades",
        }
    }

    /// The kind's name.
    pub open spec fn named(self) -> Seq<char> {
        match self {
            TickKind::Quotes => "Quotes"@,
            TickKind::Trades => "Trades"@,
        }
    }

    /// The kind's name.
    pub fn name(self) -> (r: &'static str)
        ensures
            r@ == self.named(),
    {
        match self {
            TickKind::Quotes => "Quotes",
            TickKind::Trades => "Trades",
        }
    }
}

/// Whether `s` ends in `end`.
pub open spec fn ends_in(s: Seq<char>, end: Seq<char>) -> bool {
    end.len() <= s.len() && s.skip(s.len() - end.len()) == end
}

/// `s` without `end` behind it, however often it stands there.
pub open spec fn without_end(s: Seq<char>, end: Seq<char>) -> Seq<char>
    decreases s.len(),
{
    if end.len() > 0 && ends_in(s, end) {
        without_end(s.take(s.len() - end.len()), end)
    } else {
        s
    }
}

/// Whether `s` begins with `start`.
pub open spec fn begins_with(s: Seq<char>, start: Seq<char>) -> bool {
    start.len() <= s.len() && s.take(start.len() as int) == start
}

/// Whether the first `n` characters end in `end`.
pub(crate) fn ends_in_at(s: &Vec<char>, n: usize, end: &Vec<char>) -> (r: bool)
    requires
        n <= s@.len(),
    ensures
        r == ends_in(s@.take(n as int), end@),
{
    let k: usize = end.len();
    if k > n {
        return false;
    }
    let ghost t = s@.take(n as int);
    let ghost tail = t.skip(n - k);
    let mut i: usize = 0;
    while i < k
        invariant
            i <= k <= n <= s@.len(),
            k == end@.len(),
            t == s@.take(n as int),
            tail == t.skip(n - k),
            forall|j: int| 0 <= j < i ==> #[trigger] tail[j] == end@[j],
        decreases k - i,
    {
        assert(tail[i as int] == s@[n - k + i]);
        if s[n - k + i] != end[i] {
            assert(tail != end@);
            return false;
        }
        i = i + 1;
    }
    assert(tail =~= end@);
    true
}

/// How many characters are left of the first `n` without `end` behind them.
pub(crate) fn trim_end(s: &Vec<char>, n: usize, end: &Vec<char>) -> (r: usize)
    requires
        n <= s@.len(),
        end@.len() > 0,
    ensures
        r <= n,
        s@.take(r as int) == without_end(s@.take(n as int), end@),
{
    let mut m: usize = n;
    while ends_in_at(s, m, end)
        invariant
            m <= n <= s@.len(),
            end@.len() > 0,
            without_end(s@.take(m as int), end@) == without_end(s@.take(n as int), end@),
        decreases m,
    {
        assert(s@.take(m as int).take(m - end@.len()) =~= s@.take(m - end@.len()));
        m = m - end.len();
    }
    m
}

/// The control address that belongs to a streaming address: on the same host and port, with the
/// scheme `http` or `https` for `ws` or `wss`, and the path `/rpc`.
pub open spec fn rpc_address(ws: Seq<char>) -> Seq<char> {
    let base = without_end(without_end(without_end(ws, "/ws/replay"@), "/ws"@), "/"@);
    let addressed = if begins_with(base, "ws://"@) {
        "http://"@ + base.skip(5)
    } else if begins_with(base, "wss://"@) {
        "https://"@ + base.skip(6)
    } else {
        base
    };
    addressed + "/rpc"@
}

/// Whether the first `n` characters begin with `start`.
fn begins_with_at(s: &Vec<char>, n: usize, start: &Vec<char>) -> (r: bool)
    requires
        n <= s@.len(),
    ensures
        r == begins_with(s@.take(n as int), start@),
{
    if start.len() > n {
        return false;
    }
    let ghost head = s@.take(n as int).take(start@.len() as int);
    let mut i: usize = 0;
    while i < start.len()
        invariant
            i <= start@.len() <= n <= s@.len(),
            head == s@.take(n as int).take(start@.len() as int),
            forall|j: int| 0 <= j < i ==> #[trigger] head[j] == start@[j],
        decreases start@.len() - i,
    {
        assert(head[i as int] == s@[i as int]);
        if s[i] != start[i] {
            assert(head != start@);
            return false;
        }
        i = i + 1;
    }
    assert(head =~= start@);
    true
}

/// The control address that belongs to a streaming address.
pub fn rpc_endpoint_from_ws(ws_endpoint: &str) -> (r: String)
    ensures
        r@ == rpc_address(ws_endpoint@),
{
    proof {
        reveal_strlit("/ws/replay");
        reveal_strlit("/ws");
        reveal_strlit("/");
        reveal_strlit("ws://");
        reveal_strlit("wss://");
    }
    let chars = chars_of(ws_endpoint);
    assert(chars@.take(chars@.len() as int) =~= chars@);
    let n: usize = trim_end(&chars, chars.len(), &chars_of("/ws/replay"));
    let n: usize = trim_end(&chars, n, &chars_of("/ws"));
    let n: usize = trim_end(&chars, n, &chars_of("/"));
    let ghost base = chars@.take(n as int);
    let addressed = if begins_with_at(&chars, n, &chars_of("ws://")) {
        let rest = ws_endpoint.substring_char(5, n);
        assert(rest@ =~= base.skip(5));
        "http://".to_owned().concat(rest)
    } else if begins_with_at(&chars, n, &chars_of("wss://")) {
        let rest = ws_endpoint.substring_char(6, n);
        assert(rest@ =~= base.skip(6));
        "https://".to_owned().concat(rest)
    } else {
        let rest = ws_endpoint.substring_char(0, n);
        assert(rest@ =~= base);
        rest.to_owned()
    };
    addressed.concat("/rpc")
}

/// The body of the request that turns on the ingestion of a symbol's ticks. The store matches
/// fields by names in Pascal case.
pub open spec fn subscription_request(symbol: Seq<char>, kind: TickKind) -> Seq<char> {
    "{\"id\":1,\"jsonrpc\":\"2.0\",\"method\":\"DataService.Subscribe\",\"params\":{\"Action\":\"subscribe\",\"DataTypes\":[\""@
        + kind.data_type() + "\"],\"Symbol\":"@ + json_text(symbol) + "}}"@
}

/// The body of the request that turns on the ingestion of a symbol's ticks.
pub fn subscribe_body(symbol: &str, kind: TickKind) -> (r: String)
    ensures
        r@ == subscription_request(symbol@, kind),
{
    "{\"id\":1,\"jsonrpc\":\"2.0\",\"method\":\"DataService.Subscribe\",\"params\":{\"Action\":\"subscribe\",\"DataTypes\":[\"".to_owned().concat(
        kind.as_data_type(),
    ).concat("\"],\"Symbol\":").concat(json_string(symbol).as_str()).concat("}}")
}

/// What the store's answer comes to: `error` is the error that it holds, if it holds one.
pub fn subscribe_outcome(symbol: &str, kind: TickKind, error: Option<String>) -> (r: Result<
    (),
    String,
>)
    ensures
        match (r, error) {
            (Ok(_), None) => true,
            (Err(text), Some(e)) => text@ == "MarketStore RPC Subscribe error for "@ + symbol@
                + " "@ + kind.named() + ": "@ + e@,
            _ => false,
        },
{
    match error {
        None => Ok(()),
        Some(e) => Err(
            "MarketStore RPC Subscribe error for ".to_owned().concat(symbol).concat(" ").concat(
                kind.name(),
            ).concat(": ").concat(e.as_str()),
        ),
    }
}

// ----- laws -----

/// A live stream and its replay have one control address.
pub proof fn replay_and_live_share_control(host: Seq<char>)
    requires
        !ends_in(host, "/ws/replay"@),
    ensures
        rpc_address(host + "/ws/replay"@) == rpc_address(host + "/ws"@),
{
    reveal_strlit("/ws/replay");
    reveal_strlit("/ws");
    let long = "/ws/replay"@;
    let short = "/ws"@;
    assert(long.len() == 10 && short.len() == 3);
    let a = host + long;
    assert(a.skip(host.len() as int) =~= long);
    assert(a.take(host.len() as int) =~= host);
    assert(without_end(host, long) == host);
    assert(without_end(a, long) == host);
    let b = host + short;
    assert(!ends_in(b, long)) by {
        if ends_in(b, long) {
            assert(b[b.len() - 1] == b.skip(b.len() - 10)[9]);
            assert(b[b.len() - 1] == short[2]);
            assert(long[9] == 'y' && short[2] == 's');
        }
    }
    assert(b.skip(host.len() as int) =~= short);
    assert(b.take(host.len() as int) =~= host);
    assert(without_end(b, short) == without_end(host, short));
}

/// The control address of a stream is on the stream's own host: `ws` becomes `http` and `wss`
/// becomes `https`, and the path, `/ws` or `/ws/replay` or none, becomes `/rpc`.
pub proof fn control_is_on_the_same_host(host: Seq<char>, secure: bool)
    requires
        ({
            let base = if secure {
                "wss://"@ + host
            } else {
                "ws://"@ + host
            };
            !ends_in(base, "/"@) && !ends_in(base, "/ws"@) && !ends_in(base, "/ws/replay"@)
        }),
    ensures
        ({
            let base = if secure {
                "wss://"@ + host
            } else {
                "ws://"@ + host
            };
            let control = if secure {
                "https://"@ + host + "/rpc"@
            } else {
                "http://"@ + host + "/rpc"@
            };
            &&& rpc_address(base) == control
            &&& rpc_address(base + "/ws"@) == control
            &&& rpc_address(base + "/ws/replay"@) == control
        }),
{
    reveal_strlit("/ws/replay");
    reveal_strlit("/ws");
    reveal_strlit("/");
    reveal_strlit("ws://");
    reveal_strlit("wss://");
    let base = if secure {
        "wss://"@ + host
    } else {
        "ws://"@ + host
    };
    let live = base + "/ws"@;
    let short = "/ws"@;
    let long = "/ws/replay"@;
    assert(!ends_in(live, long)) by {
        if ends_in(live, long) {
            assert(live[live.len() - 1] == live.skip(live.len() - 10)[9]);
            assert(live[live.len() - 1] == short[2]);
            assert(long[9] == 'y' && short[2] == 's');
        }
    }
    assert(live.skip(base.len() as int) =~= short);
    assert(live.take(base.len() as int) =~= base);
    assert(without_end(base, long) == base);
    assert(without_end(base, short) == base);
    assert(without_end(base, "/"@) == base);
    assert(without_end(live, long) == live);
    assert(without_end(live, short) == base);
    replay_and_live_share_control(base);
    if secure {
        assert(base.skip(6) =~= host);
        assert(base.take(6) =~= "wss://"@);
        assert(base[2] == 's');
        assert(!begins_with(base, "ws://"@)) by {
            if begins_with(base, "ws://"@) {
                assert(base.take(5)[2] == base[2]);
                assert("ws://"@[2] == ':');
            }
        }
    } else {
        assert(base.skip(5) =~= host);
        assert(base.take(5) =~= "ws://"@);
    }
}

/// The request for a symbol's ticks asks for its own kind: "quotes" for quotes and "trades" for
/// trades.
pub proof fn ticks_are_asked_for_by_kind(symbol: Seq<char>)
    ensures
        subscription_request(symbol, TickKind::Quotes)
            == "{\"id\":1,\"jsonrpc\":\"2.0\",\"method\":\"DataService.Subscribe\",\"params\":{\"Action\":\"subscribe\",\"DataTypes\":[\""@
            + "quotes"@ + "\"],\"Symbol\":"@ + json_text(symbol) + "}}"@,
        subscription_request(symbol, TickKind::Trades)
            == "{\"id\":1,\"jsonrpc\":\"2.0\",\"method\":\"DataService.Subscribe\",\"params\":{\"Action\":\"subscribe\",\"DataTypes\":[\""@
            + "trades"@ + "\"],\"Symbol\":"@ + json_text(symbol) + "}}"@,
{
}

} // verus!
