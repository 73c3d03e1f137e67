//! The systemd user service and timer that run `banker sync` periodically.

use vstd::prelude::*;
use vstd::string::*;
use crate::config::{join_path, path_joined, user_home_dir};
use crate::text::{join_spec, result_texts};

verus! {

/// The escape of one character of a value in a unit file: `%` doubled,
/// `\` and `"` behind a backslash.
pub open spec fn escape_char(c: char) -> Seq<char> {
    if c == '%' {
        seq!['%', '%']
    } else if c == '\\' {
        seq!['\\', '\\']
    } else if c == '"' {
        seq!['\\', '"']
    } else {
        seq![c]
    }
}

/// `s` with each character escaped.
pub open spec fn escape_spec(s: Seq<char>) -> Seq<char>
    decreases s.len(),
{
    if s.len() == 0 {
        Seq::empty()
    } else {
        escape_spec(s.drop_last()) + escape_char(s.last())
    }
}

/// `value` as a quoted, escaped word of a unit file.
pub open spec fn quote_spec(value: Seq<char>) -> Seq<char> {
    seq!['"'] + escape_spec(value) + seq!['"']
}

fn escape_text(c: char) -> (res: &'static str)
    requires
        c == '%' || c == '\\' || c == '"',
    ensures
        res@ == escape_char(c),
{
    proof {
        reveal_strlit("%%");
        reveal_strlit("\\\\");
        reveal_strlit("\\\"");
    }
    if c == '%' {
        "%%"
    } else if c == '\\' {
        "\\\\"
    } else {
        "\\\""
    }
}

/// Quotes `value` for a unit file: in double quotes, with `%` doubled and
/// `\` and `"` escaped by a backslash.
pub fn systemd_quote(value: &str) -> (res: String)
    ensures
        res@ == quote_spec(value@),
{
    proof {
        reveal_strlit("\"");
    }
    let n = value.unicode_len();
    let mut res = "\"".to_owned();
    let mut i: usize = 0;
    while i < n
        invariant
            n == value@.len(),
            i <= n,
            res@ == seq!['"'] + escape_spec(value@.take(i as int)),
        decreases n - i,
    {
        let c = value.get_char(i);
        proof {
            assert(value@.take(i + 1).drop_last() =~= value@.take(i as int));
            assert(value@.take(i + 1).last() == c);
        }
        if c == '%' || c == '\\' || c == '"' {
            res.append(escape_text(c));
        } else {
            let piece = value.substring_char(i, i + 1);
            assert(piece@ =~= seq![c]);
            res.append(piece);
        }
        assert(res@ =~= seq!['"'] + escape_spec(value@.take(i + 1)));
        i = i + 1;
    }
    assert(value@.take(n as int) =~= value@);
    res.append("\"");
    assert(res@ =~= quote_spec(value@));
    res
}

/// The name of the service unit.
pub open spec fn service_file_spec() -> Seq<char> {
    "banker-sync.service"@
}

/// The name of the timer unit.
pub open spec fn timer_file_spec() -> Seq<char> {
    "banker-sync.timer"@
}

/// The name of the service unit.
pub fn service_file() -> (res: String)
    ensures
        res@ == service_file_spec(),
{
    "banker-sync.service".to_owned()
}

/// The name of the timer unit.
pub fn timer_file() -> (res: String)
    ensures
        res@ == timer_file_spec(),
{
    "banker-sync.timer".to_owned()
}

/// The service unit that runs `sync` with the executable at `exe`.
pub open spec fn service_unit_spec(exe: Seq<char>) -> Seq<char> {
    "[Unit]\nDescription=Banker Background Sync\nAfter=network.target\n\n[Service]\nType=oneshot\nExecStart="@
        + quote_spec(exe) + " sync\n\n[Install]\nWantedBy=default.target\n"@
}

/// The service unit that runs `sync` with the executable at `exe`.
pub fn service_unit(exe: &str) -> (res: String)
    ensures
        res@ == service_unit_spec(exe@),
{
    let quoted = systemd_quote(exe);
    let mut s =
        "[Unit]\nDescription=Banker Background Sync\nAfter=network.target\n\n[Service]\nType=oneshot\nExecStart=".to_owned();
    s.append(quoted.as_str());
    s.append(" sync\n\n[Install]\nWantedBy=default.target\n");
    s
}

/// The timer unit: at midnight, 06:00, 12:00 and 18:00, catching up on runs
/// missed while the machine was off.
pub open spec fn timer_unit_spec() -> Seq<char> {
    "[Unit]\nDescription=Run Banker Sync periodically\n\n[Timer]\nOnCalendar=*-*-* 00,06,12,18:00:00\nPersistent=true\n\n[Install]\nWantedBy=timers.target\n"@
}

/// The timer unit.
pub fn timer_unit() -> (res: String)
    ensures
        res@ == timer_unit_spec(),
{
    "[Unit]\nDescription=Run Banker Sync periodically\n\n[Timer]\nOnCalendar=*-*-* 00,06,12,18:00:00\nPersistent=true\n\n[Install]\nWantedBy=timers.target\n".to_owned()
}

/// The text of a `systemctl --user` call with `args` that failed.
pub open spec fn systemctl_failed_spec(args: Seq<Seq<char>>) -> Seq<char> {
    "systemctl --user "@ + join_spec(args, " "@) + " failed"@
}

/// The text of a `systemctl --user` call with `args` that failed.
pub fn systemctl_failed(args: &Vec<&str>) -> (res: String)
    ensures
        res@ == systemctl_failed_spec(args@.map_values(|a: &str| a@)),
{
    let joined = crate::text::join_texts(args, " ");
    let mut s = "systemctl --user ".to_owned();
    s.append(joined.as_str());
    s.append(" failed");
    s
}

/// Where the user's units are kept, under the home directory `home`; there is
/// no such place without a home directory.
pub open spec fn systemd_dir_spec(home: Option<String>) -> Result<Seq<char>, Seq<char>> {
    match home {
        None => Err("home directory not found"@),
        Some(h) => Ok(path_joined(h@, ".config/systemd/user"@)),
    }
}

/// Where the user's units are kept, under the home directory `home`.
pub fn systemd_dir_in(home: Option<String>) -> (res: Result<String, String>)
    ensures
        result_texts(res) == systemd_dir_spec(home),
{
    match home {
        None => Err("home directory not found".to_owned()),
        Some(h) => Ok(join_path(h.as_str(), ".config/systemd/user")),
    }
}

/// Where the user's units are kept, under the user's home directory.
pub fn systemd_dir() -> (res: Result<String, String>)
    ensures
        exists|home: Option<String>| result_texts(res) == #[trigger] systemd_dir_spec(home),
{
    let home = user_home_dir();
    systemd_dir_in(home)
}

} // verus!
