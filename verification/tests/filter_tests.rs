use netstat::filter::filter_by_pid;
use netstat::filter::filter_by_port;
use netstat::filter::filter_by_port_processname;
use netstat::filter::filter_by_state;
use netstat::filter::matching_pids;
use netstat::record::Netstat;
use netstat::record::NetstatError;
use netstat::record::NetstatState;

fn record(slot: &str, local: &str, foreign: &str, state: &str, pid: &str) -> Netstat {
    Netstat {
        slot: slot.to_string(),
        recv_q: "0".to_string(),
        send_q: "0".to_string(),
        local_addr: local.to_string(),
        foreign_addr: foreign.to_string(),
        state: state.to_string(),
        pid: pid.to_string(),
    }
}

fn sample() -> Vec<Netstat> {
    vec![
        record("0:", "0100007F:1F90", "00000000:0000", "0A", "100"),
        record("1:", "0101A8C0:0016", "0201A8C0:D2F0", "01", "200"),
        record("2:", "0100007F:0050", "0301A8C0:1F90", "06", "100"),
    ]
}

#[test]
fn by_pid_keeps_matching_records_in_order() {
    let kept = filter_by_pid(sample(), 100);
    assert_eq!(kept.len(), 2);
    assert_eq!(kept[0].slot, "0:");
    assert_eq!(kept[1].slot, "2:");
    assert_eq!(kept[0].pid, "100");
    assert_eq!(kept[1].pid, "100");
}

#[test]
fn by_pid_contains_each_record_under_its_own_pid() {
    for r in &sample() {
        let own: i32 = r.pid.parse().unwrap();
        let kept = filter_by_pid(sample(), own);
        assert!(kept.iter().any(|k| k.slot == r.slot));
    }
}

#[test]
fn by_pid_with_no_match_is_empty() {
    assert_eq!(filter_by_pid(sample(), 999).len(), 0);
}

#[test]
fn by_state_keeps_matching_records() {
    let kept = filter_by_state(sample(), NetstatState::LISTEN);
    assert_eq!(kept.len(), 1);
    assert_eq!(kept[0].slot, "0:");
    let none = filter_by_state(sample(), NetstatState::CLOSE_WAIT);
    assert_eq!(none.len(), 0);
}

#[test]
fn by_port_matches_either_side() {
    let kept = filter_by_port(sample(), "1F90").unwrap();
    assert_eq!(kept.len(), 2);
    // Slot 0 matches on its local port, slot 2 on its foreign port.
    assert_eq!(kept[0].slot, "0:");
    assert_eq!(kept[1].slot, "2:");
}

#[test]
fn by_port_compares_raw_text() {
    // The stored field is 4-digit uppercase hex; unpadded query text
    // does not match it — normalization is the caller's duty here.
    assert_eq!(filter_by_port(sample(), "50").unwrap().len(), 0);
    assert_eq!(filter_by_port(sample(), "0050").unwrap().len(), 1);
}

#[test]
fn by_port_rejects_an_unsplittable_record() {
    let mut records = sample();
    records.push(record("3:", "no-colon-here", "00000000:0000", "01", "300"));
    assert_eq!(filter_by_port(records, "1F90").err(), Some(NetstatError::MalformedAddress));
}

#[test]
fn empty_input_yields_empty_results_for_every_filter() {
    assert_eq!(filter_by_pid(Vec::new(), 100).len(), 0);
    assert_eq!(filter_by_state(Vec::new(), NetstatState::LISTEN).len(), 0);
    assert_eq!(filter_by_port(Vec::new(), "1F90").unwrap().len(), 0);
    assert_eq!(matching_pids(true, &Vec::new(), 0x1F90).unwrap().len(), 0);
    assert_eq!(
        filter_by_port_processname(true, Vec::new(), 0x1F90, Vec::new()).unwrap().len(),
        0
    );
}

#[test]
fn matching_pids_normalizes_the_queried_port() {
    // 8080 decimal is 1F90 hex: the query port is normalized before the
    // comparison, so the decimal form finds the records.
    let pids = matching_pids(true, &sample(), 8080).unwrap();
    assert_eq!(pids, vec!["100"]);
    let foreign = matching_pids(false, &sample(), 8080).unwrap();
    assert_eq!(foreign, vec!["100"]);
}

#[test]
fn matching_pids_keeps_duplicates_in_order() {
    let mut records = sample();
    records.push(record("3:", "0100007F:1F90", "00000000:0000", "01", "100"));
    let pids = matching_pids(true, &records, 8080).unwrap();
    assert_eq!(pids, vec!["100", "100"]);
}

#[test]
fn local_side_matches_have_exactly_the_queried_port() {
    let kept = matching_pids(true, &sample(), 0x0050).unwrap();
    assert_eq!(kept, vec!["100"]);
    // Slot 2 matches locally on 0050 even though its foreign port is
    // 1F90; slot 0, whose local port is 1F90, is not among the local
    // matches for 0050.
    let on_1f90 = matching_pids(true, &sample(), 0x1F90).unwrap();
    assert_eq!(on_1f90, vec!["100"]);
}

#[test]
fn owner_join_substitutes_sentinel_for_vanished_process() {
    let mut records = sample();
    records.push(record("3:", "0100007F:1F90", "00000000:0000", "01", "300"));
    // Two records match locally on 1F90: pids 100 and 300. The second
    // process vanished; its position gets the empty sentinel name and
    // the rest of the batch still comes through.
    let resolutions = vec![
        Ok("nginx".to_string()),
        Err(NetstatError::ProcessNotFound),
    ];
    let names = filter_by_port_processname(true, records, 0x1F90, resolutions).unwrap();
    assert_eq!(names, vec!["nginx", ""]);
}

#[test]
fn owner_join_resolves_names_in_match_order() {
    let resolutions = vec![Ok("nginx".to_string())];
    let names = filter_by_port_processname(true, sample(), 0x1F90, resolutions).unwrap();
    assert_eq!(names, vec!["nginx"]);
}

#[test]
fn owner_join_aborts_when_the_resolver_is_unavailable() {
    let resolutions = vec![
        Ok("nginx".to_string()),
        Err(NetstatError::ResolverUnavailable),
    ];
    let mut records = sample();
    records.push(record("3:", "0100007F:1F90", "00000000:0000", "01", "300"));
    assert_eq!(
        filter_by_port_processname(true, records, 0x1F90, resolutions).err(),
        Some(NetstatError::ResolverUnavailable)
    );
}

#[test]
fn owner_join_surfaces_any_other_resolver_failure() {
    let resolutions = vec![Err(NetstatError::SourceUnavailable)];
    assert_eq!(
        filter_by_port_processname(true, sample(), 0x1F90, resolutions).err(),
        Some(NetstatError::SourceUnavailable)
    );
}

#[test]
fn owner_join_rejects_an_unsplittable_record() {
    let mut records = sample();
    records.push(record("3:", "broken", "00000000:0000", "01", "300"));
    assert_eq!(
        filter_by_port_processname(true, records, 0x1F90, vec![Ok("nginx".to_string())]).err(),
        Some(NetstatError::MalformedAddress)
    );
}
