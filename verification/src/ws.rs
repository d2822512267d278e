use vstd::prelude::*;

use crate::error::Error;
use crate::ip::IpAddress;
use crate::resolve::ResolveResult;
use crate::text::{append_decimal, decimal_digits};

verus! {

/// How a WebSocket connect picks the addresses it tries.
#[derive(Clone, Copy, Debug, PartialEq, Eq, Structural)]
pub enum WsReconnectMode {
    /// Try the ranked addresses one after another (first connect).
    Initial,
    /// Try the single address that the reconnect state points at
    /// (call [`prepare_ws_reconnect`] before each reconnect).
    AfterDisconnect,
}

/// Where a reconnecting WebSocket stands in the ranked address list.
#[derive(Clone, Copy, Debug, PartialEq, Eq, Structural)]
pub struct WsReconnectState {
    pub connected_index: usize,
    pub retried_same: bool,
}

impl Default for WsReconnectState {
    fn default() -> (r: Self)
        ensures
            r.connected_index == 0,
            !r.retried_same,
    {
        WsReconnectState { connected_index: 0, retried_same: false }
    }
}

impl WsReconnectState {
    /// Back to the first ranked address, with no retry spent.
    pub fn reset(&mut self)
        ensures
            final(self).connected_index == 0,
            !final(self).retried_same,
    {
        self.connected_index = 0;
        self.retried_same = false;
    }
}

/// The state after one reconnect preparation over `ranked_len` addresses:
/// the first preparation retries the same address, the second moves on to
/// the next ranked one (wrapping around), and so on.
pub open spec fn reconnect_step(s: WsReconnectState, ranked_len: nat) -> WsReconnectState {
    if ranked_len == 0 {
        s
    } else if s.retried_same {
        WsReconnectState {
            connected_index: ((s.connected_index + 1) % (ranked_len as int)) as usize,
            retried_same: false,
        }
    } else {
        WsReconnectState { connected_index: s.connected_index, retried_same: true }
    }
}

/// The state after `k` reconnect preparations.
pub open spec fn reconnect_after(s: WsReconnectState, ranked_len: nat, k: nat) -> WsReconnectState
    decreases k,
{
    if k == 0 {
        s
    } else {
        reconnect_step(reconnect_after(s, ranked_len, (k - 1) as nat), ranked_len)
    }
}

/// Advances `state` before a reconnect attempt: the same address once, then
/// the next ranked address.
pub fn prepare_ws_reconnect(state: &mut WsReconnectState, ranked_len: usize)
    requires
        ranked_len > 0 && old(state).retried_same ==> old(state).connected_index < usize::MAX,
    ensures
        *final(state) == reconnect_step(*old(state), ranked_len as nat),
{
    if ranked_len == 0 {
        return;
    }
    if state.retried_same {
        state.connected_index = (state.connected_index + 1) % ranked_len;
        state.retried_same = false;
    } else {
        state.retried_same = true;
    }
}

/// The index that a reconnect targets in a ranked list of `len` addresses.
pub open spec fn reconnect_target(connected_index: usize, len: nat) -> int {
    if connected_index < len {
        connected_index as int
    } else {
        len - 1
    }
}

/// The addresses to try for `mode`: all ranked addresses in order on the
/// first connect, the one that the reconnect state points at (clamped to the
/// last) after a disconnect, and none when nothing is ranked.
pub fn ips_for_mode(ranked: &Vec<IpAddress>, mode: WsReconnectMode, state: &WsReconnectState) -> (r:
    Vec<IpAddress>)
    ensures
        r@ == ws_attempts(ranked@, mode, *state),
{
    if ranked.len() == 0 {
        return Vec::new();
    }
    match mode {
        WsReconnectMode::Initial => crate::ip::copy_addresses(ranked),
        WsReconnectMode::AfterDisconnect => {
            let last = ranked.len() - 1;
            let idx = if state.connected_index < last {
                state.connected_index
            } else {
                last
            };
            let mut r: Vec<IpAddress> = Vec::new();
            r.push(ranked[idx]);
            assert(r@ =~= ws_attempts(ranked@, mode, *state));
            r
        },
    }
}

/// Reconnect rotation: a state that points inside the ranked list keeps
/// pointing inside it, whatever number of preparations follow.
pub proof fn law_reconnect_index_in_range(s: WsReconnectState, ranked_len: nat, k: nat)
    requires
        s.connected_index < ranked_len,
    ensures
        reconnect_after(s, ranked_len, k).connected_index < ranked_len,
    decreases k,
{
    if k > 0 {
        law_reconnect_index_in_range(s, ranked_len, (k - 1) as nat);
    }
}

/// Reconnect rotation: starting from a fresh connection at index `i`, every
/// address gets one retry before the rotation moves on, so after `2 * j`
/// preparations the state points at `(i + j) mod n` with no retry spent, and
/// after `2 * j + 1` it points at the same address with the retry spent.
pub proof fn law_reconnect_cycle(s: WsReconnectState, ranked_len: nat, j: nat)
    requires
        0 < ranked_len <= usize::MAX,
        s.connected_index < ranked_len,
        !s.retried_same,
    ensures
        reconnect_after(s, ranked_len, 2 * j).connected_index == (s.connected_index + j) % (
        ranked_len as int),
        !reconnect_after(s, ranked_len, 2 * j).retried_same,
        reconnect_after(s, ranked_len, 2 * j + 1).connected_index == (s.connected_index + j) % (
        ranked_len as int),
        reconnect_after(s, ranked_len, 2 * j + 1).retried_same,
    decreases j,
{
    let n = ranked_len as int;
    if j == 0 {
        assert(reconnect_after(s, ranked_len, 0) == s);
        vstd::arithmetic::div_mod::lemma_small_mod(s.connected_index as nat, ranked_len);
        assert(reconnect_after(s, ranked_len, 1) == reconnect_step(s, ranked_len));
    } else {
        let jm = (j - 1) as nat;
        law_reconnect_cycle(s, ranked_len, jm);
        let prev = reconnect_after(s, ranked_len, 2 * jm + 1);
        assert(2 * j == (2 * jm + 1) + 1);
        assert(reconnect_after(s, ranked_len, 2 * j) == reconnect_step(prev, ranked_len));
        let a = s.connected_index as int;
        assert(((a + jm) % n + 1) % n == (a + j) % n) by {
            vstd::arithmetic::div_mod::lemma_add_mod_noop_right(1, a + jm, n);
        }
        assert(reconnect_after(s, ranked_len, 2 * j + 1) == reconnect_step(
            reconnect_after(s, ranked_len, 2 * j),
            ranked_len,
        ));
    }
}

/// The addresses that a failover WebSocket connect tries, in order: all
/// ranked ones on the first connect, the one the reconnect state points at
/// after a disconnect.
pub open spec fn ws_attempts(ranked: Seq<IpAddress>, mode: WsReconnectMode, state: WsReconnectState) -> Seq<
    IpAddress,
> {
    if ranked.len() == 0 {
        Seq::empty()
    } else if mode == WsReconnectMode::Initial {
        ranked
    } else {
        seq![ranked[reconnect_target(state.connected_index, ranked.len())]]
    }
}

/// How a WebSocket connect proceeds.
pub enum WsPlan {
    /// Failover is off: connect by hostname; the connection is reported as
    /// made to this address.
    Direct(IpAddress),
    /// Try these addresses in order until one connects.
    Attempts(Vec<IpAddress>),
}

/// Plans a WebSocket connect to `host:port` over `resolved`. Without
/// failover: connect directly, reporting the best address, or fail with
/// [`Error::NoAddresses`] when there is none. With failover: the addresses
/// of [`ws_attempts`], or [`Error::AllIpsFailed`] when there are none.
pub fn ws_plan(resolved: &ResolveResult, mode: WsReconnectMode, state: &WsReconnectState, host: &str, port: u16) -> (r:
    Result<WsPlan, Error>)
    ensures
        !resolved.failover_enabled && resolved.ranked_ips@.len() > 0 ==> (r matches Ok(WsPlan::Direct(ip))
            && ip == resolved.ranked_ips@[0]),
        !resolved.failover_enabled && resolved.ranked_ips@.len() == 0 ==> (r matches Err(
            Error::NoAddresses { host: h, port: p },
        ) && h@ == host@ && p == port),
        resolved.failover_enabled && resolved.ranked_ips@.len() > 0 ==> (r matches Ok(WsPlan::Attempts(v))
            && v@ == ws_attempts(resolved.ranked_ips@, mode, *state) && v@.len() > 0),
        resolved.failover_enabled && resolved.ranked_ips@.len() == 0 ==> (r matches Err(
            Error::AllIpsFailed { host: h, port: p },
        ) && h@ == host@ && p == port),
{
    if !resolved.failover_enabled {
        if resolved.ranked_ips.len() == 0 {
            return Err(Error::NoAddresses { host: String::from_str(host), port });
        }
        return Ok(WsPlan::Direct(resolved.ranked_ips[0]));
    }
    let ips = ips_for_mode(&resolved.ranked_ips, mode, state);
    if ips.len() == 0 {
        return Err(Error::AllIpsFailed { host: String::from_str(host), port });
    }
    Ok(WsPlan::Attempts(ips))
}

/// The position of the first `x` in `s`.
pub open spec fn first_index(s: Seq<IpAddress>, x: IpAddress) -> Option<int>
    decreases s.len(),
{
    if s.len() == 0 {
        None
    } else if s[0] == x {
        Some(0)
    } else {
        match first_index(s.drop_first(), x) {
            Some(i) => Some(i + 1),
            None => None,
        }
    }
}

proof fn lemma_first_index(s: Seq<IpAddress>, x: IpAddress, i: int)
    requires
        0 <= i <= s.len(),
        forall|j: int| 0 <= j < i ==> s[j] != x,
    ensures
        i < s.len() && s[i] == x ==> first_index(s, x) == Some(i),
        i == s.len() ==> first_index(s, x) is None,
    decreases i,
{
    if i > 0 {
        lemma_first_index(s.drop_first(), x, i - 1);
    } else if s.len() > 0 {
    }
}

/// The position of the first `x` in `s`, if any.
pub fn position_of(s: &Vec<IpAddress>, x: IpAddress) -> (r: Option<usize>)
    ensures
        match first_index(s@, x) {
            Some(i) => r == Some(i as usize),
            None => r is None,
        },
{
    let mut i: usize = 0;
    while i < s.len()
        invariant
            i <= s.len(),
            forall|j: int| 0 <= j < i ==> s@[j] != x,
        decreases s.len() - i,
    {
        if s[i] == x {
            proof {
                lemma_first_index(s@, x, i as int);
            }
            return Some(i);
        }
        i = i + 1;
    }
    proof {
        lemma_first_index(s@, x, i as int);
    }
    None
}

/// The reconnect state after a failover connect to `ip` succeeded: on the
/// first connect it points at `ip`'s ranked position with no retry spent;
/// after a disconnect it stays as prepared.
pub open spec fn ws_state_after_connect(
    s: WsReconnectState,
    ranked: Seq<IpAddress>,
    mode: WsReconnectMode,
    ip: IpAddress,
) -> WsReconnectState {
    if mode == WsReconnectMode::Initial {
        WsReconnectState {
            connected_index: match first_index(ranked, ip) {
                Some(i) => i as usize,
                None => s.connected_index,
            },
            retried_same: false,
        }
    } else {
        s
    }
}

/// Records that a failover connect to `ip` succeeded.
pub fn record_ws_connection(
    state: &mut WsReconnectState,
    ranked: &Vec<IpAddress>,
    mode: WsReconnectMode,
    ip: IpAddress,
)
    ensures
        *final(state) == ws_state_after_connect(*old(state), ranked@, mode, ip),
{
    if mode == WsReconnectMode::Initial {
        if let Some(idx) = position_of(ranked, ip) {
            state.connected_index = idx;
        }
        state.retried_same = false;
    }
}

/// The message of a failover WebSocket connect where every address failed:
/// the last connect error, or, when there was no message, that all
/// addresses of `host:port` failed.
pub open spec fn ws_exhausted_message(host: Seq<char>, port: u16, last_err: Seq<char>) -> Seq<char> {
    if last_err.len() == 0 {
        "all IPs failed for "@ + host + ":"@ + decimal_digits(port as nat)
    } else {
        last_err
    }
}

/// The error of a failover WebSocket connect where every address failed
/// (see [`ws_exhausted_message`]).
pub fn ws_exhausted_error(host: &str, port: u16, last_err: String) -> (r: Error)
    ensures
        r matches Error::WebSocket(m) && m@ == ws_exhausted_message(host@, port, last_err@),
{
    if last_err.as_str().unicode_len() == 0 {
        let mut m = String::from_str("all IPs failed for ");
        m.append(host);
        m.append(":");
        append_decimal(&mut m, port);
        Error::WebSocket(m)
    } else {
        Error::WebSocket(last_err)
    }
}

/// Reconnect rotation: after a disconnect, the first reconnect retries the
/// address the connection was on, and the one after that moves to the next
/// ranked address (wrapping around).
pub proof fn law_reconnect_tries_same_then_next(ranked: Seq<IpAddress>, s: WsReconnectState)
    requires
        0 < ranked.len() <= usize::MAX,
        s.connected_index < ranked.len(),
    ensures
        !s.retried_same ==> ws_attempts(
            ranked,
            WsReconnectMode::AfterDisconnect,
            reconnect_step(s, ranked.len()),
        ) == seq![ranked[s.connected_index as int]],
        s.retried_same ==> ws_attempts(
            ranked,
            WsReconnectMode::AfterDisconnect,
            reconnect_step(s, ranked.len()),
        ) == seq![ranked[(s.connected_index + 1) % (ranked.len() as int)]],
{
    let n = ranked.len() as int;
    let next = (s.connected_index + 1) % n;
    assert(0 <= next < n);
    if s.retried_same {
        let t = reconnect_step(s, ranked.len());
        assert(t.connected_index as int == next);
        assert(ws_attempts(ranked, WsReconnectMode::AfterDisconnect, t) =~= seq![ranked[next]]);
    } else {
        let t = reconnect_step(s, ranked.len());
        assert(ws_attempts(ranked, WsReconnectMode::AfterDisconnect, t) =~= seq![ranked[s.connected_index as int]]);
    }
}

/// Reconnect after a first connect: once a connect to `ip` succeeded, a
/// reconnect without preparation tries `ip` itself, and the first prepared
/// reconnect retries `ip` as well.
pub proof fn law_reconnect_after_connect_tries_connected(ranked: Seq<IpAddress>, s: WsReconnectState, ip: IpAddress)
    requires
        ranked.contains(ip),
        ranked.len() <= usize::MAX,
    ensures
        ws_attempts(ranked, WsReconnectMode::AfterDisconnect, ws_state_after_connect(s, ranked, WsReconnectMode::Initial, ip))
            == seq![ip],
        ws_attempts(
            ranked,
            WsReconnectMode::AfterDisconnect,
            reconnect_step(ws_state_after_connect(s, ranked, WsReconnectMode::Initial, ip), ranked.len()),
        ) == seq![ip],
{
    let i = choose|i: int| 0 <= i < ranked.len() && ranked[i] == ip;
    lemma_first_index_exists(ranked, ip, i);
    let k = first_index(ranked, ip).unwrap();
    let c = ws_state_after_connect(s, ranked, WsReconnectMode::Initial, ip);
    assert(c.connected_index == k as usize);
    assert(reconnect_target(c.connected_index, ranked.len()) == k);
    assert(ws_attempts(ranked, WsReconnectMode::AfterDisconnect, c) =~= seq![ip]);
    let c2 = reconnect_step(c, ranked.len());
    assert(c2.connected_index == c.connected_index);
    assert(ws_attempts(ranked, WsReconnectMode::AfterDisconnect, c2) =~= seq![ip]);
}

proof fn lemma_first_index_exists(s: Seq<IpAddress>, x: IpAddress, i: int)
    requires
        0 <= i < s.len(),
        s[i] == x,
    ensures
        first_index(s, x) matches Some(k) && 0 <= k <= i && s[k] == x,
    decreases i,
{
    if s[0] != x {
        lemma_first_index_exists(s.drop_first(), x, i - 1);
    }
}

} // verus!
