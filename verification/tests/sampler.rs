use user_monitor::sampler::{
    extract_user_from_columns, get_openvpn_users, get_users, openvpn_user_of_line,
    users_from_process_table, SampleError, VpnLog, MIN_COLUMNS, SESSION_MARKER,
};

const ALICE: &str =
    "root       812  0.0  0.1  16920 10880 ?        Ss   10:02   0:00 sshd: alice [priv]";
const BOB: &str =
    "root       977  0.0  0.1  16924 10904 ?        Ss   10:07   0:00 sshd: bob [priv]";
const GREP: &str =
    "root      1203  0.0  0.0   6480  2300 pts/0    Ss   10:09   0:00 grep priv";

fn owned(items: &[&str]) -> Vec<String> {
    items.iter().map(|s| s.to_string()).collect()
}

fn extract_by_iterators(columns: &[&str]) -> Option<String> {
    if columns.len() >= 12 {
        columns
            .iter()
            .position(|&x| x == "sshd:")
            .and_then(|index| columns.get(index + 1))
            .map(|&user| user.to_string())
    } else {
        None
    }
}

#[test]
fn marker_and_column_count() {
    assert_eq!(SESSION_MARKER, "sshd:");
    assert_eq!(MIN_COLUMNS, 12);
}

#[test]
fn extract_user_from_a_session_line() {
    let columns: Vec<&str> = ALICE.split_whitespace().collect();
    assert_eq!(columns.len(), 13);
    assert_eq!(extract_user_from_columns(&columns), Some("alice".to_string()));
}

#[test]
fn extract_user_needs_twelve_columns() {
    let eleven = ["a", "b", "c", "d", "e", "f", "g", "h", "i", "sshd:", "alice"];
    assert_eq!(extract_user_from_columns(&eleven), None);
    let twelve = ["a", "b", "c", "d", "e", "f", "g", "h", "i", "j", "sshd:", "alice"];
    assert_eq!(extract_user_from_columns(&twelve), Some("alice".to_string()));
    assert_eq!(extract_user_from_columns(&[]), None);
}

#[test]
fn extract_user_without_marker_is_none() {
    let columns: Vec<&str> = GREP.split_whitespace().collect();
    assert_eq!(columns.len(), 12);
    assert_eq!(extract_user_from_columns(&columns), None);
}

#[test]
fn extract_user_marker_in_last_column_is_none() {
    let columns = ["a", "b", "c", "d", "e", "f", "g", "h", "i", "j", "k", "sshd:"];
    assert_eq!(extract_user_from_columns(&columns), None);
}

#[test]
fn extract_user_goes_by_the_first_marker() {
    let columns = ["sshd:", "first", "c", "d", "e", "f", "g", "h", "i", "j", "sshd:", "second"];
    assert_eq!(extract_user_from_columns(&columns), Some("first".to_string()));
    let doubled = ["a", "b", "c", "d", "e", "f", "g", "h", "i", "j", "sshd:", "sshd:", "x"];
    assert_eq!(extract_user_from_columns(&doubled), Some("sshd:".to_string()));
}

#[test]
fn extract_user_marker_must_match_exactly() {
    let columns = ["a", "b", "c", "d", "e", "f", "g", "h", "i", "j", "sshd", "alice", "sshd:x"];
    assert_eq!(extract_user_from_columns(&columns), None);
    let upper = ["a", "b", "c", "d", "e", "f", "g", "h", "i", "j", "SSHD:", "alice"];
    assert_eq!(extract_user_from_columns(&upper), None);
}

#[test]
fn extract_user_agrees_with_iterator_form() {
    let lines = [
        ALICE,
        BOB,
        GREP,
        "",
        "sshd: x",
        "a b c d e f g h i j k sshd:",
        "sshd: u b c d e f g h i j k l",
        "a b c d e f g h i j sshd: sshd: sshd:",
    ];
    for line in lines {
        let columns: Vec<&str> = line.split_whitespace().collect();
        assert_eq!(extract_user_from_columns(&columns), extract_by_iterators(&columns), "{:?}", line);
    }
}

#[test]
fn process_table_with_two_sessions() {
    let table = format!("{}\n{}\n", ALICE, BOB);
    assert_eq!(users_from_process_table(&table), owned(&["alice", "bob"]));
}

#[test]
fn process_table_keeps_order_and_duplicates() {
    let table = format!("{}\n{}\n{}\n{}", BOB, ALICE, GREP, BOB);
    assert_eq!(users_from_process_table(&table), owned(&["bob", "alice", "bob"]));
}

#[test]
fn process_table_without_sessions() {
    assert_eq!(users_from_process_table(""), Vec::<String>::new());
    assert_eq!(users_from_process_table("\n\n"), Vec::<String>::new());
    assert_eq!(users_from_process_table(GREP), Vec::<String>::new());
    assert_eq!(users_from_process_table("sshd: alice"), Vec::<String>::new());
}

#[test]
fn process_table_with_carriage_returns_and_tabs() {
    let table = "root\t1\t0.0\t0.1\t1\t2\t?\tSs\t10:02\t0:00\tsshd:\tdora\t[priv]\r\n";
    assert_eq!(users_from_process_table(table), owned(&["dora"]));
}

#[test]
fn openvpn_line_with_address_names_its_user() {
    assert_eq!(
        openvpn_user_of_line("alice,203.0.113.7:51820,1234,5678,2024-01-01 10:00:00"),
        Some("alice".to_string())
    );
    assert_eq!(openvpn_user_of_line("bob,10.8.0.2"), Some("bob".to_string()));
}

#[test]
fn openvpn_line_needs_two_fields() {
    assert_eq!(openvpn_user_of_line(""), None);
    assert_eq!(openvpn_user_of_line("alice"), None);
    assert_eq!(openvpn_user_of_line("10.8.0.2"), None);
    assert_eq!(openvpn_user_of_line("OpenVPN CLIENT LIST"), None);
}

#[test]
fn openvpn_line_needs_a_dot_in_the_second_field() {
    assert_eq!(openvpn_user_of_line("Updated,2024-01-01 10:00:00"), None);
    assert_eq!(openvpn_user_of_line("Common Name,Real Address,Bytes Received"), None);
    assert_eq!(openvpn_user_of_line("alice,"), None);
    assert_eq!(openvpn_user_of_line("alice,,1.2.3.4"), None);
    assert_eq!(openvpn_user_of_line("a.b,c,d.e"), None);
    assert_eq!(openvpn_user_of_line("alice,x,1.2.3.4"), None);
}

#[test]
fn openvpn_line_gives_the_first_field_verbatim() {
    assert_eq!(openvpn_user_of_line(",1.2.3.4"), Some(String::new()));
    assert_eq!(openvpn_user_of_line(" al ice ,."), Some(" al ice ".to_string()));
    assert_eq!(openvpn_user_of_line("10.8.0.2,alice.example"), Some("10.8.0.2".to_string()));
    assert_eq!(openvpn_user_of_line("\u{e9}ric,1.2.3.4,x"), Some("\u{e9}ric".to_string()));
    assert_eq!(openvpn_user_of_line("a,.,"), Some("a".to_string()));
}

#[test]
fn openvpn_line_agrees_with_split_form() {
    let lines = [
        "", ",", ",,", ".", ",.", ".,", "a,b", "a,b.c", "a,b,c.d", "a.b,c", "a,b.,c", "x,y.z,",
        "alice,203.0.113.7:51820,1,2", "ROUTING TABLE", "10.8.0.2,alice,203.0.113.7:51820,x",
    ];
    for line in lines {
        let parts: Vec<&str> = line.split(',').collect();
        let expected = if parts.len() > 1 && parts[1].contains('.') {
            Some(parts[0].to_string())
        } else {
            None
        };
        assert_eq!(openvpn_user_of_line(line), expected, "{:?}", line);
    }
}

#[test]
fn openvpn_users_of_a_status_log() {
    let log = VpnLog::Lines(owned(&[
        "OpenVPN CLIENT LIST",
        "Updated,2024-01-01 10:00:00",
        "Common Name,Real Address,Bytes Received,Bytes Sent,Connected Since",
        "carol,203.0.113.7:51820,1234,5678,2024-01-01 09:00:00",
        "dave,198.51.100.4:40000,1,2,2024-01-01 09:30:00",
        "ROUTING TABLE",
        "Virtual Address,Common Name,Real Address,Last Ref",
        "10.8.0.2,carol,203.0.113.7:51820,2024-01-01 09:59:00",
        "GLOBAL STATS",
        "END",
    ]));
    assert_eq!(get_openvpn_users(&log), Ok(owned(&["carol", "dave"])));
}

#[test]
fn openvpn_users_of_an_absent_log() {
    assert_eq!(get_openvpn_users(&VpnLog::Absent), Ok(Vec::new()));
    assert_eq!(get_openvpn_users(&VpnLog::Lines(Vec::new())), Ok(Vec::new()));
}

#[test]
fn openvpn_users_of_an_unreadable_log() {
    assert_eq!(
        get_openvpn_users(&VpnLog::Unreadable("permission denied".to_string())),
        Err(SampleError::Source("permission denied".to_string()))
    );
}

#[test]
fn sample_joins_session_users_then_vpn_users() {
    let table = format!("{}\n{}\n", ALICE, BOB);
    let log = VpnLog::Lines(owned(&["carol,203.0.113.7:51820,1,2", "alice,198.51.100.4:4,1,2"]));
    assert_eq!(get_users(Ok(&table), &log), Ok("alice,bob,carol,alice".to_string()));
}

#[test]
fn sample_without_vpn_log_is_the_session_users() {
    let table = format!("{}\n{}\n", ALICE, BOB);
    let session_only = users_from_process_table(&table).join(",");
    assert_eq!(session_only, "alice,bob");
    assert_eq!(get_users(Ok(&table), &VpnLog::Absent), Ok(session_only));
}

#[test]
fn sample_swallows_an_unreadable_vpn_log() {
    let table = format!("{}\n", BOB);
    let log = VpnLog::Unreadable("permission denied".to_string());
    assert_eq!(get_users(Ok(&table), &log), Ok("bob".to_string()));
}

#[test]
fn sample_of_nobody_is_empty() {
    assert_eq!(get_users(Ok(""), &VpnLog::Absent), Ok(String::new()));
    assert_eq!(get_users(Ok(GREP), &VpnLog::Lines(owned(&["END"]))), Ok(String::new()));
}

#[test]
fn sample_of_vpn_users_alone() {
    let log = VpnLog::Lines(owned(&["carol,203.0.113.7:51820"]));
    assert_eq!(get_users(Ok(""), &log), Ok("carol".to_string()));
}

#[test]
fn sample_fails_when_the_process_table_fails() {
    let log = VpnLog::Lines(owned(&["carol,203.0.113.7:51820"]));
    assert_eq!(
        get_users(Err("sh: not found".to_string()), &log),
        Err(SampleError::Source("sh: not found".to_string()))
    );
    assert_eq!(
        get_users(Err(String::new()), &VpnLog::Absent),
        Err(SampleError::Source(String::new()))
    );
}
