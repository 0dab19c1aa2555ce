use netstat::record::code_to_state;
use netstat::record::state_to_string;
use netstat::record::NetstatState;

const TABLE: [(NetstatState, &str); 12] = [
    (NetstatState::ESTABLISHED, "01"),
    (NetstatState::SYN_SENT, "02"),
    (NetstatState::SYN_RECV, "03"),
    (NetstatState::FIN_WAIT1, "04"),
    (NetstatState::FIN_WAIT2, "05"),
    (NetstatState::TIME_WAIT, "06"),
    (NetstatState::CLOSE, "07"),
    (NetstatState::CLOSE_WAIT, "08"),
    (NetstatState::LAST_ACK, "09"),
    (NetstatState::LISTEN, "0A"),
    (NetstatState::CLOSING, "0B"),
    (NetstatState::UNKNOWN, "0C"),
];

#[test]
fn state_codes_match_the_table() {
    for (state, code) in TABLE {
        assert_eq!(state_to_string(state), code);
    }
}

#[test]
fn codes_round_trip_through_states() {
    for (_, code) in TABLE {
        assert_eq!(state_to_string(code_to_state(code)), code);
    }
}

#[test]
fn unlisted_codes_fall_back_to_unknown() {
    assert_eq!(code_to_state("0D"), NetstatState::UNKNOWN);
    assert_eq!(code_to_state("ZZ"), NetstatState::UNKNOWN);
    assert_eq!(code_to_state("1A"), NetstatState::UNKNOWN);
    assert_eq!(code_to_state("0"), NetstatState::UNKNOWN);
    assert_eq!(code_to_state(""), NetstatState::UNKNOWN);
    assert_eq!(code_to_state("01x"), NetstatState::UNKNOWN);
}
