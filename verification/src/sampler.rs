//! Reading the users of a host out of the text of its process table and of an
//! OpenVPN status log, and joining them into one sample.

use crate::text::{
    chars_of, fields, find_from, has_chars, is_name, join, joined,
    lemma_filter_map_of_all_some, lemma_first_fields, lemma_offset_of_bounds, lemma_offset_of_is,
    lemma_prefix_contains, lemma_words_are_names, lines, offset_of, split_lines,
    split_whitespace, words,
};
use vstd::prelude::*;
use vstd::string::*;

verus! {

/// The least number of columns of a process-table line that is looked at.
pub const MIN_COLUMNS: usize = 12;

/// The column that marks the process of one SSH session. The user's name is
/// the column after it.
pub const SESSION_MARKER: &'static str = "sshd:";

/// The sampler failed to get its data.
#[derive(Debug, Clone, PartialEq, Eq)]
pub enum SampleError {
    /// A source could not be read. The text says why.
    Source(String),
}

/// What the caller found of the OpenVPN status log.
#[derive(Debug, Clone, PartialEq, Eq)]
pub enum VpnLog {
    /// There is no log file.
    Absent,
    /// There is one, and it could not be opened. The text says why.
    Unreadable(String),
    /// The lines of the log that could be read, in order.
    Lines(Vec<String>),
}

/// The session marker as a sequence of characters.
pub open spec fn session_marker() -> Seq<char> {
    SESSION_MARKER@
}

/// The user of the session that a process-table line of the columns `columns`
/// stands for: the column after the first session marker, on a line of at
/// least `MIN_COLUMNS` columns. A line without marker, and one that ends with
/// its first marker, stand for no session.
pub open spec fn session_user(columns: Seq<Seq<char>>) -> Option<Seq<char>> {
    let at = offset_of(columns, session_marker()) as int;
    if columns.len() >= MIN_COLUMNS && at + 1 < columns.len() {
        Some(columns[at + 1])
    } else {
        None
    }
}

/// The session users that a process table names, one for each of its lines
/// that stands for a session, in the order of the lines.
pub open spec fn session_users(table: Seq<char>) -> Seq<Seq<char>> {
    lines(table).filter_map(|line: Seq<char>| session_user(words(line)))
}

/// The user that one line of an OpenVPN status log names: its first
/// comma-separated field, where it has a second one and that holds a dot.
pub open spec fn openvpn_user(line: Seq<char>) -> Option<Seq<char>> {
    let parts = fields(line, ',');
    if parts.len() > 1 && parts[1].contains('.') {
        Some(parts[0])
    } else {
        None
    }
}

/// The users that the lines of an OpenVPN status log name, in order.
pub open spec fn openvpn_users(log_lines: Seq<Seq<char>>) -> Seq<Seq<char>> {
    log_lines.filter_map(|line: Seq<char>| openvpn_user(line))
}

/// The VPN users that go into a sample: those of the lines read, and none
/// where the log is absent or unreadable.
pub open spec fn vpn_users(log: &VpnLog) -> Seq<Seq<char>> {
    match log {
        VpnLog::Lines(log_lines) => openvpn_users(log_lines.deep_view()),
        _ => Seq::empty(),
    }
}

/// The sample taken from a process table and a VPN log: the session users,
/// then the VPN users, joined by commas. Nothing is removed, so a user that
/// is named twice occurs twice.
pub open spec fn sample_of(table: Seq<char>, log: &VpnLog) -> Seq<char> {
    joined(session_users(table) + vpn_users(log), seq![','])
}

/// On a line of at least `MIN_COLUMNS` columns whose first session marker is
/// column `at` and not the last column, the user is column `at + 1`.
pub proof fn lemma_user_follows_first_marker(columns: Seq<Seq<char>>, at: int)
    requires
        columns.len() >= MIN_COLUMNS,
        0 <= at < columns.len() - 1,
        columns[at] == session_marker(),
        forall|k: int| 0 <= k < at ==> columns[k] != session_marker(),
    ensures
        session_user(columns) == Some(columns[at + 1]),
{
    lemma_offset_of_is(columns, session_marker(), at);
}

/// A line stands for a session only if it has at least `MIN_COLUMNS` columns
/// and a session marker that is followed by another column, which is then the
/// user.
pub proof fn lemma_session_user_is_some(columns: Seq<Seq<char>>)
    requires
        session_user(columns) is Some,
    ensures
        columns.len() >= MIN_COLUMNS,
        exists|at: int|
            0 <= at < columns.len() - 1 && #[trigger] columns[at] == session_marker()
                && session_user(columns) == Some(columns[at + 1]),
{
    lemma_offset_of_bounds(columns, session_marker());
    let at = offset_of(columns, session_marker()) as int;
    assert(columns[at] == session_marker());
}

/// On a process table of which every line stands for a session, the users
/// are the columns after the first markers, one for each line and in the order
/// of the lines.
pub proof fn lemma_users_of_well_formed_table(table: Seq<char>)
    requires
        forall|i: int|
            0 <= i < lines(table).len() ==> session_user(words(#[trigger] lines(table)[i]))
                is Some,
    ensures
        session_users(table).len() == lines(table).len(),
        forall|i: int|
            0 <= i < lines(table).len() ==> Some(#[trigger] session_users(table)[i])
                == session_user(words(lines(table)[i])),
{
    lemma_filter_map_of_all_some(
        lines(table),
        |line: Seq<char>| session_user(words(line)),
    );
}

/// On a process table of which line `i` has at least `MIN_COLUMNS` columns
/// and its first session marker in column `marker_at[i]`, with a column after
/// it, the users are the columns after those markers: one for each line, in
/// the order of the lines, and a user that occurs twice is kept twice.
pub proof fn lemma_users_follow_markers(table: Seq<char>, marker_at: Seq<int>)
    requires
        marker_at.len() == lines(table).len(),
        forall|i: int|
            0 <= i < lines(table).len() ==> {
                let columns = words(#[trigger] lines(table)[i]);
                &&& columns.len() >= MIN_COLUMNS
                &&& 0 <= marker_at[i] < columns.len() - 1
                &&& columns[marker_at[i]] == session_marker()
                &&& forall|k: int| 0 <= k < marker_at[i] ==> columns[k] != session_marker()
            },
    ensures
        session_users(table).len() == lines(table).len(),
        forall|i: int|
            0 <= i < lines(table).len() ==> #[trigger] session_users(table)[i] == words(
                lines(table)[i],
            )[marker_at[i] + 1],
{
    assert forall|i: int| 0 <= i < lines(table).len() implies session_user(
        words(#[trigger] lines(table)[i]),
    ) == Some(words(lines(table)[i])[marker_at[i] + 1]) by {
        lemma_user_follows_first_marker(words(lines(table)[i]), marker_at[i]);
    }
    lemma_users_of_well_formed_table(table);
}

/// Every session user is a name: it is not empty and holds no white space.
pub proof fn lemma_session_users_are_names(table: Seq<char>)
    ensures
        forall|i: int|
            0 <= i < session_users(table).len() ==> is_name(#[trigger] session_users(table)[i]),
{
    let pick = |line: Seq<char>| session_user(words(line));
    let users = session_users(table);
    assert forall|i: int| 0 <= i < users.len() implies is_name(#[trigger] users[i]) by {
        let user = users[i];
        assert(users.contains(user));
        lines(table).lemma_filter_map_contains(pick, user);
        let line = choose|line: Seq<char>| #[trigger]
            lines(table).contains(line) && pick(line) == Some(user);
        let columns = words(line);
        lemma_words_are_names(line);
        let at = offset_of(columns, session_marker()) as int;
        assert(user == columns[at + 1]);
    }
}

/// Where the VPN log is absent or unreadable, the sample is that of the
/// session users alone.
pub proof fn lemma_sample_without_vpn_log(table: Seq<char>, log: &VpnLog)
    requires
        !(log is Lines),
    ensures
        sample_of(table, log) == joined(session_users(table), seq![',']),
{
    assert(session_users(table) + vpn_users(log) =~= session_users(table));
}

/// Looks for the session marker among the columns of one process-table line
/// and returns the column after the first one, on a line of at least
/// `MIN_COLUMNS` columns.
pub fn extract_user_from_columns(columns: &[&str]) -> (user: Option<String>)
    ensures
        user.deep_view() == session_user(columns.deep_view()),
{
    if columns.len() < MIN_COLUMNS {
        return None;
    }
    let marker = chars_of(SESSION_MARKER);
    let mut at: usize = 0;
    while at < columns.len() && !has_chars(columns[at], &marker)
        invariant
            at <= columns.len(),
            marker@ == session_marker(),
            forall|k: int| 0 <= k < at ==> columns.deep_view()[k] != session_marker(),
        decreases columns.len() - at,
    {
        at += 1;
    }
    proof {
        lemma_offset_of_is(columns.deep_view(), session_marker(), at as int);
    }
    if at < columns.len() - 1 {
        Some(columns[at + 1].to_owned())
    } else {
        None
    }
}

/// Reads the session users out of the text of a process table: from each
/// line that stands for a session, the user of that session.
pub fn users_from_process_table(table: &str) -> (users: Vec<String>)
    ensures
        users.deep_view() == session_users(table@),
{
    let table_lines = split_lines(table);
    let ghost pick = |line: Seq<char>| session_user(words(line));
    let mut users: Vec<String> = Vec::new();
    assert(table_lines.deep_view().take(0).filter_map(pick) =~= users.deep_view());
    for i in 0..table_lines.len()
        invariant
            table_lines.deep_view() == lines(table@),
            pick == |line: Seq<char>| session_user(words(line)),
            users.deep_view() == table_lines.deep_view().take(i as int).filter_map(pick),
    {
        let columns = split_whitespace(table_lines[i]);
        let ghost before = users.deep_view();
        let line_columns = columns.as_slice();
        assert(line_columns.deep_view() =~= columns.deep_view());
        match extract_user_from_columns(line_columns) {
            Some(user) => {
                users.push(user);
                assert(users.deep_view() =~= before + seq![user@]);
            },
            None => {},
        }
        proof {
            table_lines.deep_view().lemma_filter_map_take_succ(pick, i as int);
        }
    }
    assert(table_lines.deep_view().take(table_lines.len() as int) =~= table_lines.deep_view());
    users
}

/// Reads the user out of one line of an OpenVPN status log, where the line
/// names one.
pub fn openvpn_user_of_line(line: &str) -> (user: Option<String>)
    ensures
        user.deep_view() == openvpn_user(line@),
{
    let chars = chars_of(line);
    let first = find_from(&chars, 0, ',');
    proof {
        assert(line@.skip(0) =~= line@);
        lemma_first_fields(line@, ',');
    }
    if first == chars.len() {
        return None;
    }
    let second = find_from(&chars, first + 1, ',');
    let dot = find_from(&chars, first + 1, '.');
    proof {
        let rest = line@.skip(first + 1);
        lemma_first_fields(rest, ',');
        lemma_prefix_contains(rest, '.', second - first - 1);
    }
    if dot < second {
        let name = line.substring_char(0, first);
        Some(name.to_owned())
    } else {
        None
    }
}

/// Reads the users out of what the caller found of the OpenVPN status log.
/// An absent log names no user; one that could not be opened is an error.
pub fn get_openvpn_users(log: &VpnLog) -> (found: Result<Vec<String>, SampleError>)
    ensures
        match log {
            VpnLog::Unreadable(cause) => found matches Err(SampleError::Source(why)) && why@
                == cause@,
            _ => found matches Ok(users) && users.deep_view() == vpn_users(log),
        },
{
    match log {
        VpnLog::Absent => {
            let users: Vec<String> = Vec::new();
            assert(users.deep_view() =~= vpn_users(log));
            Ok(users)
        },
        VpnLog::Unreadable(cause) => Err(SampleError::Source(cause.clone())),
        VpnLog::Lines(log_lines) => {
            let ghost pick = |line: Seq<char>| openvpn_user(line);
            let mut users: Vec<String> = Vec::new();
            assert(log_lines.deep_view().take(0).filter_map(pick) =~= users.deep_view());
            for i in 0..log_lines.len()
                invariant
                    pick == |line: Seq<char>| openvpn_user(line),
                    users.deep_view() == log_lines.deep_view().take(i as int).filter_map(pick),
            {
                let ghost before = users.deep_view();
                match openvpn_user_of_line(log_lines[i].as_str()) {
                    Some(user) => {
                        users.push(user);
                        assert(users.deep_view() =~= before + seq![user@]);
                    },
                    None => {},
                }
                proof {
                    log_lines.deep_view().lemma_filter_map_take_succ(pick, i as int);
                }
            }
            assert(log_lines.deep_view().take(log_lines.len() as int) =~= log_lines.deep_view());
            Ok(users)
        },
    }
}

/// Takes one sample. `process_table` is the text of the process table, or
/// the reason why it could not be had, in which case there is no sample.
/// Trouble with the VPN log never fails a sample: it then holds the session
/// users alone.
pub fn get_users(process_table: Result<&str, String>, vpn_log: &VpnLog) -> (sample: Result<
    String,
    SampleError,
>)
    ensures
        match process_table {
            Ok(table) => sample matches Ok(text) && text@ == sample_of(table@, vpn_log),
            Err(cause) => sample matches Err(SampleError::Source(why)) && why@ == cause@,
        },
{
    match process_table {
        Err(cause) => Err(SampleError::Source(cause)),
        Ok(table) => {
            let mut users = users_from_process_table(table);
            let ghost session = users.deep_view();
            match get_openvpn_users(vpn_log) {
                Ok(mut more) => {
                    let ghost vpn = more.deep_view();
                    users.append(&mut more);
                    assert(users.deep_view() =~= session + vpn);
                },
                Err(_) => {
                    assert(users.deep_view() =~= session + vpn_users(vpn_log));
                },
            }
            proof {
                reveal_strlit(",");
                assert(","@ =~= seq![',']);
            }
            Ok(join(&users, ","))
        },
    }
}

} // verus!
