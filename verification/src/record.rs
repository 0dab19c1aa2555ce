//! The connection-record model: one row of a socket table, the closed
//! enumeration of connection states with its fixed two-character code
//! mapping, and the error taxonomy shared by the whole library.

use vstd::prelude::*;
use vstd::string::StrSliceExecFns;

verus! {

/// One row of a socket table. All fields are kept verbatim as the
/// decoder tokenized them; none is re-interpreted here.
#[derive(Debug)]
pub struct Netstat {
    /// Opaque table-assigned row identifier.
    pub slot: String,
    /// Receive-queue figure, kept as its textual token.
    pub recv_q: String,
    /// Send-queue figure, kept as its textual token.
    pub send_q: String,
    /// Local endpoint as a composite `HEXADDR:HEXPORT` field.
    pub local_addr: String,
    /// Remote endpoint as a composite `HEXADDR:HEXPORT` field.
    pub foreign_addr: String,
    /// Two-character hexadecimal connection-state code.
    pub state: String,
    /// Owning process id in textual form (`"0"` when unattributed).
    pub pid: String,
}

/// The mathematical value of a [`Netstat`] record: each field as a
/// sequence of characters.
#[verifier::ext_equal]
pub struct NetstatView {
    pub slot: Seq<char>,
    pub recv_q: Seq<char>,
    pub send_q: Seq<char>,
    pub local_addr: Seq<char>,
    pub foreign_addr: Seq<char>,
    pub state: Seq<char>,
    pub pid: Seq<char>,
}

impl View for Netstat {
    type V = NetstatView;

    open spec fn view(&self) -> NetstatView {
        NetstatView {
            slot: self.slot@,
            recv_q: self.recv_q@,
            send_q: self.send_q@,
            local_addr: self.local_addr@,
            foreign_addr: self.foreign_addr@,
            state: self.state@,
            pid: self.pid@,
        }
    }
}

impl Netstat {
    /// An explicit deep copy; the copy has the same view as the original.
    pub fn clone_record(&self) -> (r: Netstat)
        ensures
            r@ == self@,
    {
        let r = Netstat {
            slot: self.slot.clone(),
            recv_q: self.recv_q.clone(),
            send_q: self.send_q.clone(),
            local_addr: self.local_addr.clone(),
            foreign_addr: self.foreign_addr.clone(),
            state: self.state.clone(),
            pid: self.pid.clone(),
        };
        assert(r@ =~= self@);
        r
    }
}

/// The closed enumeration of connection states, mirroring the kernel's
/// own two-character code assignment.
#[allow(non_camel_case_types)]
#[derive(Clone, Copy, PartialEq, Eq, Structural, Debug)]
pub enum NetstatState {
    ESTABLISHED,
    SYN_SENT,
    SYN_RECV,
    FIN_WAIT1,
    FIN_WAIT2,
    TIME_WAIT,
    CLOSE,
    CLOSE_WAIT,
    LAST_ACK,
    LISTEN,
    CLOSING,
    UNKNOWN,
}

/// Everything that can go wrong in the decode/filter/join pipeline.
#[derive(Clone, Copy, PartialEq, Eq, Structural, Debug)]
pub enum NetstatError {
    /// The socket table could not be opened or read at all.
    SourceUnavailable,
    /// A data row had fewer than the seven required fields.
    MalformedRow,
    /// A composite address field had no colon, or nothing after it.
    MalformedAddress,
    /// An address or port substring was not valid hexadecimal, or its
    /// value overflowed the expected width.
    CodecError,
    /// The process behind a pid vanished before it could be resolved.
    ProcessNotFound,
    /// The process identity resolver cannot be queried at all.
    ResolverUnavailable,
}

/// The second character of a state's two-character code; the first is
/// always `'0'`.
pub open spec fn spec_state_digit(s: NetstatState) -> char {
    match s {
        NetstatState::ESTABLISHED => '1',
        NetstatState::SYN_SENT => '2',
        NetstatState::SYN_RECV => '3',
        NetstatState::FIN_WAIT1 => '4',
        NetstatState::FIN_WAIT2 => '5',
        NetstatState::TIME_WAIT => '6',
        NetstatState::CLOSE => '7',
        NetstatState::CLOSE_WAIT => '8',
        NetstatState::LAST_ACK => '9',
        NetstatState::LISTEN => 'A',
        NetstatState::CLOSING => 'B',
        NetstatState::UNKNOWN => 'C',
    }
}

/// The fixed two-character code of a connection state.
pub open spec fn spec_state_code(s: NetstatState) -> Seq<char> {
    seq!['0', spec_state_digit(s)]
}

/// The state a second code character stands for; anything outside the
/// table falls back to `UNKNOWN`.
pub open spec fn spec_digit_state(c: char) -> NetstatState {
    if c == '1' {
        NetstatState::ESTABLISHED
    } else if c == '2' {
        NetstatState::SYN_SENT
    } else if c == '3' {
        NetstatState::SYN_RECV
    } else if c == '4' {
        NetstatState::FIN_WAIT1
    } else if c == '5' {
        NetstatState::FIN_WAIT2
    } else if c == '6' {
        NetstatState::TIME_WAIT
    } else if c == '7' {
        NetstatState::CLOSE
    } else if c == '8' {
        NetstatState::CLOSE_WAIT
    } else if c == '9' {
        NetstatState::LAST_ACK
    } else if c == 'A' {
        NetstatState::LISTEN
    } else if c == 'B' {
        NetstatState::CLOSING
    } else {
        NetstatState::UNKNOWN
    }
}

/// The state a full code stands for; any text outside the table falls
/// back to `UNKNOWN`.
pub open spec fn spec_code_to_state(code: Seq<char>) -> NetstatState {
    if code.len() == 2 && code[0] == '0' {
        spec_digit_state(code[1])
    } else {
        NetstatState::UNKNOWN
    }
}

/// Whether a sequence of characters is one of the twelve codes of the
/// state table.
pub open spec fn is_valid_state_code(code: Seq<char>) -> bool {
    exists|s: NetstatState| spec_state_code(s) == code
}

/// The fixed code of a connection state, e.g. `LISTEN` to `"0A"`.
pub fn state_to_string(state: NetstatState) -> (r: String)
    ensures
        r@ == spec_state_code(state),
{
    let code: &str = match state {
        NetstatState::ESTABLISHED => "01",
        NetstatState::SYN_SENT => "02",
        NetstatState::SYN_RECV => "03",
        NetstatState::FIN_WAIT1 => "04",
        NetstatState::FIN_WAIT2 => "05",
        NetstatState::TIME_WAIT => "06",
        NetstatState::CLOSE => "07",
        NetstatState::CLOSE_WAIT => "08",
        NetstatState::LAST_ACK => "09",
        NetstatState::LISTEN => "0A",
        NetstatState::CLOSING => "0B",
        NetstatState::UNKNOWN => "0C",
    };
    proof {
        reveal_strlit("01");
        reveal_strlit("02");
        reveal_strlit("03");
        reveal_strlit("04");
        reveal_strlit("05");
        reveal_strlit("06");
        reveal_strlit("07");
        reveal_strlit("08");
        reveal_strlit("09");
        reveal_strlit("0A");
        reveal_strlit("0B");
        reveal_strlit("0C");
    }
    let r = code.to_owned();
    assert(r@ =~= spec_state_code(state));
    r
}

/// The state a two-character code stands for, with `UNKNOWN` as the
/// fallback for anything outside the table.
pub fn code_to_state(code: &str) -> (r: NetstatState)
    ensures
        r == spec_code_to_state(code@),
{
    let n = code.unicode_len();
    if n != 2 {
        return NetstatState::UNKNOWN;
    }
    let c0 = code.get_char(0);
    let c1 = code.get_char(1);
    if c0 != '0' {
        return NetstatState::UNKNOWN;
    }
    if c1 == '1' {
        NetstatState::ESTABLISHED
    } else if c1 == '2' {
        NetstatState::SYN_SENT
    } else if c1 == '3' {
        NetstatState::SYN_RECV
    } else if c1 == '4' {
        NetstatState::FIN_WAIT1
    } else if c1 == '5' {
        NetstatState::FIN_WAIT2
    } else if c1 == '6' {
        NetstatState::TIME_WAIT
    } else if c1 == '7' {
        NetstatState::CLOSE
    } else if c1 == '8' {
        NetstatState::CLOSE_WAIT
    } else if c1 == '9' {
        NetstatState::LAST_ACK
    } else if c1 == 'A' {
        NetstatState::LISTEN
    } else if c1 == 'B' {
        NetstatState::CLOSING
    } else {
        NetstatState::UNKNOWN
    }
}

/// Law: over the twelve codes of the state table, mapping a code to its
/// state and back returns the original code.
pub proof fn lemma_state_code_round_trip(code: Seq<char>)
    requires
        is_valid_state_code(code),
    ensures
        spec_state_code(spec_code_to_state(code)) == code,
{
    let s = choose|s: NetstatState| spec_state_code(s) == code;
    assert(spec_state_code(spec_code_to_state(spec_state_code(s))) =~= spec_state_code(s));
}

} // verus!
