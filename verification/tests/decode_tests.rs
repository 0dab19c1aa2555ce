use netstat::decode::get_netstat;
use netstat::decode::get_processname;
use netstat::record::NetstatError;
use netstat::text::tokenize;

fn lines(texts: &[&str]) -> Vec<String> {
    texts.iter().map(|t| t.to_string()).collect()
}

#[test]
fn tokenize_splits_on_whitespace_runs() {
    assert_eq!(tokenize("a  b\tc"), vec!["a", "b", "c"]);
    assert_eq!(tokenize("  lead and trail  "), vec!["lead", "and", "trail"]);
    assert_eq!(tokenize(""), Vec::<String>::new());
    assert_eq!(tokenize(" \t \r\n"), Vec::<String>::new());
}

#[test]
fn decoder_ignores_extra_trailing_fields() {
    let table = lines(&[
        "  sl  local_address rem_address   st tx_queue rx_queue uid",
        "   0: 1 2 0100007F:1F90 00000000:0000 0A 100 00000000:00000000 0 10 0",
    ]);
    let records = get_netstat(&table).unwrap();
    assert_eq!(records.len(), 1);
    assert_eq!(records[0].slot, "0:");
    assert_eq!(records[0].state, "0A");
    assert_eq!(records[0].pid, "100");
}

#[test]
fn decoder_keeps_row_order_and_fields() {
    let table = lines(&[
        "header",
        "0: 1 2 0100007F:1F90 00000000:0000 0A 100",
        "1: 3 4 0101A8C0:0016 0201A8C0:D2F0 01 200",
    ]);
    let records = get_netstat(&table).unwrap();
    assert_eq!(records.len(), 2);
    assert_eq!(records[0].slot, "0:");
    assert_eq!(records[0].recv_q, "1");
    assert_eq!(records[0].send_q, "2");
    assert_eq!(records[0].local_addr, "0100007F:1F90");
    assert_eq!(records[0].foreign_addr, "00000000:0000");
    assert_eq!(records[0].state, "0A");
    assert_eq!(records[0].pid, "100");
    assert_eq!(records[1].slot, "1:");
    assert_eq!(records[1].pid, "200");
}

#[test]
fn decoder_rejects_short_row_entirely() {
    // Five fields only: the whole read must fail, with no partial record.
    let table = lines(&[
        "header",
        "0: 1 2 0100007F:1F90 00000000:0000 0A 100",
        "1: 3 0101A8C0:0016 01 200",
    ]);
    assert_eq!(get_netstat(&table).err(), Some(NetstatError::MalformedRow));
}

#[test]
fn decoder_accepts_header_only_table() {
    let table = lines(&["  sl  local_address rem_address   st"]);
    assert_eq!(get_netstat(&table).unwrap().len(), 0);
    assert_eq!(get_netstat(&lines(&[])).unwrap().len(), 0);
}

#[test]
fn processname_takes_first_name_value() {
    let status = lines(&["Name:\tbash", "Umask:\t0022", "Pid:\t1000"]);
    assert_eq!(get_processname(&status), "bash");
}

#[test]
fn processname_skips_other_keys_and_short_lines() {
    let status = lines(&["Umask:\t0022", "Name:", "Name:\tnginx worker", "Name:\tlater"]);
    // The second line has no value; the first full Name: line wins.
    assert_eq!(get_processname(&status), "nginx");
}

#[test]
fn processname_is_empty_when_no_name_line() {
    let status = lines(&["Umask:\t0022", "Pid:\t1000"]);
    assert_eq!(get_processname(&status), "");
    assert_eq!(get_processname(&lines(&[])), "");
}
