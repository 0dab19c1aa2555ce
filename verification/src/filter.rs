//! The filter/query engine and the process-identity join.
//!
//! Every filter is a stable transform: it keeps the matching records in
//! their original relative order and never invents or reorders records.
//! The join turns resolver answers into display names, recovering from
//! a vanished process per record and aborting the batch on a systemic
//! resolver failure.

use crate::codec::i32_to_string;
use crate::codec::render_hex;
use crate::codec::get_port;
use crate::codec::spec_render_hex;
use crate::codec::spec_render_int;
use crate::codec::spec_split_port;
use crate::record::Netstat;
use crate::record::NetstatError;
use crate::record::NetstatState;
use crate::record::NetstatView;
use crate::record::spec_state_code;
use crate::record::state_to_string;
use vstd::prelude::*;

verus! {

/// Splitting a filtered sequence one element further.
proof fn lemma_filter_push<A>(s: Seq<A>, pred: spec_fn(A) -> bool, x: A)
    ensures
        s.push(x).filter(pred) == if pred(x) {
            s.filter(pred).push(x)
        } else {
            s.filter(pred)
        },
{
    reveal(Seq::filter);
    assert(s.push(x).drop_last() =~= s);
    assert(s.push(x).last() == x);
}

/// Keep the records owned by a given pid (in textual form).
pub open spec fn pid_pred(pid: Seq<char>) -> spec_fn(NetstatView) -> bool {
    |r: NetstatView| r.pid == pid
}

/// The pid filter: the subsequence of records whose owner pid equals
/// the given text, in original order.
pub open spec fn spec_filter_by_pid(rs: Seq<NetstatView>, pid: Seq<char>) -> Seq<NetstatView> {
    rs.filter(pid_pred(pid))
}

/// Keep the records in a given connection state.
pub open spec fn state_pred(state: NetstatState) -> spec_fn(NetstatView) -> bool {
    |r: NetstatView| r.state == spec_state_code(state)
}

/// The state filter: the subsequence of records whose state field is
/// the two-character code of the given state, in original order.
pub open spec fn spec_filter_by_state(rs: Seq<NetstatView>, state: NetstatState) -> Seq<
    NetstatView,
> {
    rs.filter(state_pred(state))
}

/// Whether both endpoint fields of a record split into an address and
/// a port.
pub open spec fn record_ports_ok(r: NetstatView) -> bool {
    spec_split_port(r.local_addr) is Some && spec_split_port(r.foreign_addr) is Some
}

/// Keep the records whose local or foreign port equals the given text.
pub open spec fn port_pred(port: Seq<char>) -> spec_fn(NetstatView) -> bool {
    |r: NetstatView| spec_split_port(r.local_addr) == Some(port) || spec_split_port(
        r.foreign_addr,
    ) == Some(port)
}

/// The port filter: the subsequence of records one of whose ports
/// equals the given text, in original order. The whole query fails with
/// `MalformedAddress` when any record's endpoint field does not split.
pub open spec fn spec_filter_by_port(rs: Seq<NetstatView>, port: Seq<char>) -> Result<
    Seq<NetstatView>,
    NetstatError,
> {
    if forall|i: int| 0 <= i < rs.len() ==> record_ports_ok(#[trigger] rs[i]) {
        Ok(rs.filter(port_pred(port)))
    } else {
        Err(NetstatError::MalformedAddress)
    }
}

/// Keep the records whose port on one chosen side equals the given
/// text.
pub open spec fn side_pred(port: Seq<char>, local: bool) -> spec_fn(NetstatView) -> bool {
    |r: NetstatView|
        if local {
            spec_split_port(r.local_addr) == Some(port)
        } else {
            spec_split_port(r.foreign_addr) == Some(port)
        }
}

/// The one-sided port filter, otherwise as [`spec_filter_by_port`].
pub open spec fn spec_filter_by_side_port(
    rs: Seq<NetstatView>,
    port: Seq<char>,
    local: bool,
) -> Result<Seq<NetstatView>, NetstatError> {
    if forall|i: int| 0 <= i < rs.len() ==> record_ports_ok(#[trigger] rs[i]) {
        Ok(rs.filter(side_pred(port, local)))
    } else {
        Err(NetstatError::MalformedAddress)
    }
}

/// Keeps the records whose owner pid is the decimal text of `pid`, in
/// their original order.
pub fn filter_by_pid(netstat: Vec<Netstat>, pid: i32) -> (r: Vec<Netstat>)
    ensures
        r@.map_values(|n: Netstat| n@) == spec_filter_by_pid(
            netstat@.map_values(|n: Netstat| n@),
            spec_render_int(pid as int),
        ),
{
    let ghost rs = netstat@.map_values(|n: Netstat| n@);
    let pid_text = i32_to_string(pid);
    let mut out: Vec<Netstat> = Vec::new();
    let mut i: usize = 0;
    proof {
        reveal(Seq::filter);
        assert(rs.take(0) =~= Seq::<NetstatView>::empty());
    }
    while i < netstat.len()
        invariant
            i <= netstat.len(),
            rs == netstat@.map_values(|n: Netstat| n@),
            pid_text@ == spec_render_int(pid as int),
            out@.map_values(|n: Netstat| n@) == spec_filter_by_pid(rs.take(i as int), pid_text@),
        decreases netstat.len() - i,
    {
        proof {
            assert(rs.take(i as int + 1) =~= rs.take(i as int).push(rs[i as int]));
            lemma_filter_push(rs.take(i as int), pid_pred(pid_text@), rs[i as int]);
        }
        if netstat[i].pid.eq(&pid_text) {
            let ghost old_map = out@.map_values(|n: Netstat| n@);
            out.push(netstat[i].clone_record());
            proof {
                assert(out@.map_values(|n: Netstat| n@) =~= old_map.push(rs[i as int]));
            }
        }
        i = i + 1;
    }
    proof {
        assert(rs.take(netstat@.len() as int) =~= rs);
    }
    out
}

/// Keeps the records whose state field carries the two-character code
/// of `state`, in their original order.
pub fn filter_by_state(netstat: Vec<Netstat>, state: NetstatState) -> (r: Vec<Netstat>)
    ensures
        r@.map_values(|n: Netstat| n@) == spec_filter_by_state(
            netstat@.map_values(|n: Netstat| n@),
            state,
        ),
{
    let ghost rs = netstat@.map_values(|n: Netstat| n@);
    let code = state_to_string(state);
    let mut out: Vec<Netstat> = Vec::new();
    let mut i: usize = 0;
    proof {
        reveal(Seq::filter);
        assert(rs.take(0) =~= Seq::<NetstatView>::empty());
    }
    while i < netstat.len()
        invariant
            i <= netstat.len(),
            rs == netstat@.map_values(|n: Netstat| n@),
            code@ == spec_state_code(state),
            out@.map_values(|n: Netstat| n@) == spec_filter_by_state(rs.take(i as int), state),
        decreases netstat.len() - i,
    {
        proof {
            assert(rs.take(i as int + 1) =~= rs.take(i as int).push(rs[i as int]));
            lemma_filter_push(rs.take(i as int), state_pred(state), rs[i as int]);
        }
        if netstat[i].state.eq(&code) {
            let ghost old_map = out@.map_values(|n: Netstat| n@);
            out.push(netstat[i].clone_record());
            proof {
                assert(out@.map_values(|n: Netstat| n@) =~= old_map.push(rs[i as int]));
            }
        }
        i = i + 1;
    }
    proof {
        assert(rs.take(netstat@.len() as int) =~= rs);
    }
    out
}

/// The ports of one record, or `MalformedAddress` when either endpoint
/// field does not split.
fn record_ports(rec: &Netstat) -> (r: Result<(String, String), NetstatError>)
    ensures
        if record_ports_ok(rec@) {
            r matches Ok(p) && Some(p.0@) == spec_split_port(rec@.local_addr) && Some(p.1@)
                == spec_split_port(rec@.foreign_addr)
        } else {
            r == Err::<(String, String), NetstatError>(NetstatError::MalformedAddress)
        },
{
    let local = match get_port(rec.local_addr.as_str()) {
        Ok(v) => v,
        Err(_) => {
            return Err(NetstatError::MalformedAddress);
        },
    };
    let foreign = match get_port(rec.foreign_addr.as_str()) {
        Ok(v) => v,
        Err(_) => {
            return Err(NetstatError::MalformedAddress);
        },
    };
    Ok((local, foreign))
}

/// Keeps the records whose local or foreign port equals `port` (raw
/// hexadecimal text, compared as stored), in their original order.
/// Fails with `MalformedAddress` when any record's endpoint field does
/// not split, keeping no partial result.
pub fn filter_by_port(netstat: Vec<Netstat>, port: &str) -> (r: Result<Vec<Netstat>, NetstatError>)
    ensures
        match spec_filter_by_port(netstat@.map_values(|n: Netstat| n@), port@) {
            Ok(m) => r matches Ok(v) && v@.map_values(|n: Netstat| n@) == m,
            Err(e) => r == Err::<Vec<Netstat>, NetstatError>(e),
        },
{
    let ghost rs = netstat@.map_values(|n: Netstat| n@);
    let port_text = port.to_owned();
    let mut out: Vec<Netstat> = Vec::new();
    let mut i: usize = 0;
    proof {
        reveal(Seq::filter);
        assert(rs.take(0) =~= Seq::<NetstatView>::empty());
    }
    while i < netstat.len()
        invariant
            i <= netstat.len(),
            rs == netstat@.map_values(|n: Netstat| n@),
            port_text@ == port@,
            forall|m: int| 0 <= m < i ==> record_ports_ok(#[trigger] rs[m]),
            out@.map_values(|n: Netstat| n@) == rs.take(i as int).filter(port_pred(port@)),
        decreases netstat.len() - i,
    {
        let ports = match record_ports(&netstat[i]) {
            Ok(p) => p,
            Err(e) => {
                assert(!record_ports_ok(rs[i as int]));
                return Err(e);
            },
        };
        proof {
            assert(rs.take(i as int + 1) =~= rs.take(i as int).push(rs[i as int]));
            lemma_filter_push(rs.take(i as int), port_pred(port@), rs[i as int]);
        }
        if ports.0.eq(&port_text) || ports.1.eq(&port_text) {
            let ghost old_map = out@.map_values(|n: Netstat| n@);
            out.push(netstat[i].clone_record());
            proof {
                assert(out@.map_values(|n: Netstat| n@) =~= old_map.push(rs[i as int]));
            }
        }
        i = i + 1;
    }
    proof {
        assert(rs.take(netstat@.len() as int) =~= rs);
    }
    Ok(out)
}

/// The owner pids of the records whose port on the chosen side equals
/// the 4-digit uppercase hexadecimal rendering of `port`, one pid per
/// matching record in original order. Fails with `MalformedAddress`
/// when any record's endpoint field does not split.
pub fn matching_pids(is_local_addr: bool, netstat: &Vec<Netstat>, port: u16) -> (r: Result<
    Vec<String>,
    NetstatError,
>)
    ensures
        match spec_filter_by_side_port(
            netstat@.map_values(|n: Netstat| n@),
            spec_render_hex(port as nat, 4),
            is_local_addr,
        ) {
            Ok(m) => r matches Ok(v) && v@.map_values(|s: String| s@) == m.map_values(
                |rv: NetstatView| rv.pid,
            ),
            Err(e) => r == Err::<Vec<String>, NetstatError>(e),
        },
{
    let ghost rs = netstat@.map_values(|n: Netstat| n@);
    let ghost port_seq = spec_render_hex(port as nat, 4);
    let port_text = render_hex(port as u32, 4);
    let mut out: Vec<String> = Vec::new();
    let mut i: usize = 0;
    proof {
        reveal(Seq::filter);
        assert(rs.take(0) =~= Seq::<NetstatView>::empty());
        assert(rs.take(0).filter(side_pred(port_seq, is_local_addr)).map_values(
            |rv: NetstatView| rv.pid,
        ) =~= Seq::<Seq<char>>::empty());
    }
    while i < netstat.len()
        invariant
            i <= netstat.len(),
            rs == netstat@.map_values(|n: Netstat| n@),
            port_text@ == port_seq,
            port_seq == spec_render_hex(port as nat, 4),
            forall|m: int| 0 <= m < i ==> record_ports_ok(#[trigger] rs[m]),
            out@.map_values(|s: String| s@) == rs.take(i as int).filter(
                side_pred(port_seq, is_local_addr),
            ).map_values(|rv: NetstatView| rv.pid),
        decreases netstat.len() - i,
    {
        let ports = match record_ports(&netstat[i]) {
            Ok(p) => p,
            Err(e) => {
                assert(!record_ports_ok(rs[i as int]));
                return Err(e);
            },
        };
        proof {
            assert(rs.take(i as int + 1) =~= rs.take(i as int).push(rs[i as int]));
            lemma_filter_push(rs.take(i as int), side_pred(port_seq, is_local_addr), rs[i as int]);
        }
        let matched = if is_local_addr {
            ports.0.eq(&port_text)
        } else {
            ports.1.eq(&port_text)
        };
        if matched {
            let ghost old_filtered = rs.take(i as int).filter(side_pred(port_seq, is_local_addr));
            let ghost old_map = out@.map_values(|s: String| s@);
            out.push(netstat[i].pid.clone());
            proof {
                assert(out@.map_values(|s: String| s@) =~= old_map.push(rs[i as int].pid));
                assert(old_filtered.push(rs[i as int]).map_values(|rv: NetstatView| rv.pid)
                    =~= old_filtered.map_values(|rv: NetstatView| rv.pid).push(rs[i as int].pid));
            }
        }
        i = i + 1;
    }
    proof {
        assert(rs.take(netstat@.len() as int) =~= rs);
    }
    Ok(out)
}

/// The mathematical value of one resolver answer.
pub open spec fn resolution_view(x: Result<String, NetstatError>) -> Result<
    Seq<char>,
    NetstatError,
> {
    match x {
        Ok(s) => Ok(s@),
        Err(e) => Err(e),
    }
}

/// Display names from a batch of resolver answers, in order: a
/// resolved name is kept as it is, a vanished process (`ProcessNotFound`)
/// becomes the empty sentinel name, and any other failure aborts the
/// whole batch with that failure.
pub open spec fn spec_join_names(res: Seq<Result<Seq<char>, NetstatError>>) -> Result<
    Seq<Seq<char>>,
    NetstatError,
>
    decreases res.len(),
{
    if res.len() == 0 {
        Ok(Seq::empty())
    } else {
        let head: Seq<char> = match res[0] {
            Ok(name) => name,
            Err(_) => Seq::empty(),
        };
        match res[0] {
            Err(e) if e != NetstatError::ProcessNotFound => Err(e),
            _ => match spec_join_names(res.skip(1)) {
                Ok(tail) => Ok(seq![head] + tail),
                Err(e) => Err(e),
            },
        }
    }
}

/// Turns a batch of resolver answers into display names, substituting
/// the empty sentinel for a vanished process and aborting on any other
/// resolver failure.
fn join_names(resolutions: &Vec<Result<String, NetstatError>>) -> (r: Result<
    Vec<String>,
    NetstatError,
>)
    ensures
        match spec_join_names(
            resolutions@.map_values(|x: Result<String, NetstatError>| resolution_view(x)),
        ) {
            Ok(names) => r matches Ok(v) && v@.map_values(|s: String| s@) == names,
            Err(e) => r == Err::<Vec<String>, NetstatError>(e),
        },
{
    let ghost rv = resolutions@.map_values(|x: Result<String, NetstatError>| resolution_view(x));
    let mut out: Vec<String> = Vec::new();
    let mut i: usize = 0;
    proof {
        assert(rv.skip(0) =~= rv);
        assert(out@.map_values(|s: String| s@) =~= Seq::<Seq<char>>::empty());
    }
    while i < resolutions.len()
        invariant
            i <= resolutions.len(),
            rv == resolutions@.map_values(|x: Result<String, NetstatError>| resolution_view(x)),
            spec_join_names(rv) == match spec_join_names(rv.skip(i as int)) {
                Ok(tail) => Ok::<Seq<Seq<char>>, NetstatError>(
                    out@.map_values(|s: String| s@) + tail,
                ),
                Err(e) => Err::<Seq<Seq<char>>, NetstatError>(e),
            },
        decreases resolutions.len() - i,
    {
        proof {
            assert(rv.skip(i as int)[0] == rv[i as int]);
            assert(rv.skip(i as int).skip(1) =~= rv.skip(i as int + 1));
        }
        let ghost old_map = out@.map_values(|s: String| s@);
        let ghost head = match rv[i as int] {
            Ok(name) => name,
            Err(_) => Seq::<char>::empty(),
        };
        match &resolutions[i] {
            Ok(name) => {
                out.push(name.clone());
            },
            Err(e) => {
                if *e == NetstatError::ProcessNotFound {
                    out.push(String::new());
                } else {
                    return Err(*e);
                }
            },
        }
        proof {
            assert(out@.map_values(|s: String| s@) =~= old_map.push(head));
            if let Ok(tail) = spec_join_names(rv.skip(i as int + 1)) {
                assert(old_map + (seq![head] + tail) =~= old_map.push(head) + tail);
            }
        }
        i = i + 1;
    }
    proof {
        assert(rv.skip(resolutions@.len() as int) =~= Seq::<
            Result<Seq<char>, NetstatError>,
        >::empty());
        assert(out@.map_values(|s: String| s@) + Seq::<Seq<char>>::empty() =~= out@.map_values(
            |s: String| s@,
        ));
    }
    Ok(out)
}

/// The one-sided port query joined with process identity: when every
/// record splits, the resolver answers (one per matching record, in
/// order) become display names as in [`spec_join_names`]; when some
/// record does not split, the query fails as the side filter does.
pub open spec fn spec_by_port_with_owner(
    rs: Seq<NetstatView>,
    port: Seq<char>,
    local: bool,
    res: Seq<Result<Seq<char>, NetstatError>>,
) -> Result<Seq<Seq<char>>, NetstatError> {
    match spec_filter_by_side_port(rs, port, local) {
        Ok(_) => spec_join_names(res),
        Err(e) => Err(e),
    }
}

/// Resolved display names for the records whose port on the chosen
/// side equals the 4-digit uppercase hexadecimal rendering of `port`,
/// one name per matching record in original order, duplicates kept.
/// `resolutions` carries the resolver's answer for each matching record
/// in the same order; a vanished process (`ProcessNotFound`) yields the
/// empty sentinel name at its position, any other resolver failure
/// aborts the batch, and a record whose endpoint fields do not split
/// aborts the query with `MalformedAddress`.
pub fn filter_by_port_processname(
    is_local_addr: bool,
    netstat: Vec<Netstat>,
    port: u16,
    resolutions: Vec<Result<String, NetstatError>>,
) -> (r: Result<Vec<String>, NetstatError>)
    requires
        spec_filter_by_side_port(
            netstat@.map_values(|n: Netstat| n@),
            spec_render_hex(port as nat, 4),
            is_local_addr,
        ) matches Ok(m) ==> resolutions@.len() == m.len(),
    ensures
        match spec_by_port_with_owner(
            netstat@.map_values(|n: Netstat| n@),
            spec_render_hex(port as nat, 4),
            is_local_addr,
            resolutions@.map_values(|x: Result<String, NetstatError>| resolution_view(x)),
        ) {
            Ok(names) => r matches Ok(v) && v@.map_values(|s: String| s@) == names,
            Err(e) => r == Err::<Vec<String>, NetstatError>(e),
        },
{
    let ghost rs = netstat@.map_values(|n: Netstat| n@);
    let mut i: usize = 0;
    while i < netstat.len()
        invariant
            i <= netstat.len(),
            rs == netstat@.map_values(|n: Netstat| n@),
            forall|m: int| 0 <= m < i ==> record_ports_ok(#[trigger] rs[m]),
        decreases netstat.len() - i,
    {
        match record_ports(&netstat[i]) {
            Ok(_) => {},
            Err(e) => {
                assert(!record_ports_ok(rs[i as int]));
                return Err(e);
            },
        }
        i = i + 1;
    }
    join_names(&resolutions)
}

/// Law: the pid filter keyed by a record's own pid keeps that record;
/// no record is ever lost to the query that asks for its owner.
pub proof fn lemma_by_pid_keeps_own_record(rs: Seq<NetstatView>, i: int)
    requires
        0 <= i < rs.len(),
    ensures
        spec_filter_by_pid(rs, rs[i].pid).contains(rs[i]),
{
    rs.lemma_filter_contains(pid_pred(rs[i].pid), i);
}

/// Law: a record kept by the one-sided port filter on the local side
/// has exactly the queried port as its local port.
pub proof fn lemma_by_port_local_side_exact(rs: Seq<NetstatView>, port: Seq<char>, j: int)
    requires
        spec_filter_by_side_port(rs, port, true) matches Ok(m) && 0 <= j < m.len(),
    ensures
        spec_split_port((spec_filter_by_side_port(rs, port, true)->Ok_0)[j].local_addr) == Some(
            port,
        ),
{
    rs.lemma_filter_pred(side_pred(port, true), j);
}

/// Law: every filter applied to the empty sequence of records returns
/// an empty result, never an error.
pub proof fn lemma_filters_on_empty(
    pid: Seq<char>,
    state: NetstatState,
    port: Seq<char>,
    local: bool,
)
    ensures
        spec_filter_by_pid(Seq::empty(), pid) == Seq::<NetstatView>::empty(),
        spec_filter_by_state(Seq::empty(), state) == Seq::<NetstatView>::empty(),
        spec_filter_by_port(Seq::empty(), port) == Ok::<Seq<NetstatView>, NetstatError>(
            Seq::empty(),
        ),
        spec_filter_by_side_port(Seq::empty(), port, local) == Ok::<Seq<NetstatView>, NetstatError>(
            Seq::empty(),
        ),
        spec_by_port_with_owner(Seq::empty(), port, local, Seq::empty()) == Ok::<
            Seq<Seq<char>>,
            NetstatError,
        >(Seq::empty()),
{
    reveal(Seq::filter);
}

} // verus!
