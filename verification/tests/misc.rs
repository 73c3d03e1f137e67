use banker::api::{fetch_window, may_include_old_data, old_data_warning, EnableBankingClient, FetchStrategy};
use banker::bank::{filter_banks, str_contains, AspspEntry};
use banker::cli::{id_command_output, IdAction, OutputArg};
use banker::command_tree::{command_list_lines, command_tree_lines, format_args, str_less, ArgSpec, CommandNode};
use banker::db::{checkpoint_outcome, command_outcome, metadata_delete_sql, metadata_select_sql};
use banker::ids::{AccountId, Resource, ResourceType};
use banker::local::{answer_confirms, json_source, needs_confirmation, not_confirmed, Confirmation, JsonSource};
use banker::output::OutputFormat;
use banker::session::SessionAccessLevel;
use banker::systemd::{service_file, service_unit, systemctl_failed, systemd_dir_in, systemd_quote, timer_file, timer_unit};
use banker::text::{i64_text, usize_text};
use banker::time::{parse_clap_duration, parse_utc_date, time_frame_at, TimeFrame, TimeFrameArgs, Timestamp, Span};

#[test]
fn quoting_for_unit_files() {
    assert_eq!(systemd_quote("/usr/bin/banker"), "\"/usr/bin/banker\"");
    assert_eq!(systemd_quote("a%b\\c\"d"), "\"a%%b\\\\c\\\"d\"");
}

#[test]
fn unit_files() {
    assert_eq!(service_file(), "banker-sync.service");
    assert_eq!(timer_file(), "banker-sync.timer");
    let unit = service_unit("/bin/banker");
    assert!(unit.contains("ExecStart=\"/bin/banker\" sync\n"));
    assert!(unit.starts_with("[Unit]\nDescription=Banker Background Sync\n"));
    assert!(timer_unit().contains("OnCalendar=*-*-* 00,06,12,18:00:00\n"));
    assert_eq!(systemctl_failed(&vec!["enable", "--now", "banker-sync.timer"]), "systemctl --user enable --now banker-sync.timer failed");
    assert_eq!(systemd_dir_in(None).unwrap_err(), "home directory not found");
    assert_eq!(systemd_dir_in(Some("/home/u".into())).unwrap(), "/home/u/.config/systemd/user");
}

#[test]
fn checkpoint_judgement() {
    assert!(checkpoint_outcome(0, 10, 10).is_ok());
    assert!(checkpoint_outcome(0, -1, 0).is_ok());
    assert_eq!(
        checkpoint_outcome(1, 10, 4).unwrap_err(),
        "SQLite WAL checkpoint incomplete (busy: 1, frames: 4/10)"
    );
}

#[test]
fn command_error_comes_before_checkpoint_error() {
    let ok: Result<u8, String> = Ok(1);
    assert_eq!(command_outcome(ok.clone(), Ok(())), Ok(1));
    assert_eq!(command_outcome(ok, Err("cp".to_string())), Err("cp".to_string()));
    assert_eq!(command_outcome::<u8, String>(Err("cmd".into()), Err("cp".into())), Err("cmd".to_string()));
}

#[test]
fn metadata_statements_per_kind() {
    assert_eq!(metadata_select_sql(ResourceType::Account), "SELECT user_metadata FROM account_metadata WHERE account_id = ?1");
    assert_eq!(metadata_delete_sql(ResourceType::Balance), "DELETE FROM balance_metadata WHERE balance_id = ?1");
}

#[test]
fn json_argument_sources() {
    assert!(matches!(json_source(None, false), JsonSource::Stdin));
    assert!(matches!(json_source(Some("-".into()), true), JsonSource::Stdin));
    assert!(matches!(json_source(Some("a.json".into()), true), JsonSource::File(p) if p == "a.json"));
    assert!(matches!(json_source(Some("{}".into()), false), JsonSource::Inline(t) if t == "{}"));
}

#[test]
fn confirmations() {
    assert!(needs_confirmation(true, false));
    assert!(!needs_confirmation(true, true));
    assert!(!needs_confirmation(false, false));
    assert!(answer_confirms("y\n"));
    assert!(answer_confirms("  YES "));
    assert!(!answer_confirms("no"));
    assert!(!answer_confirms(""));
    assert_eq!(not_confirmed(true), "Operation cancelled.");
    assert_eq!(not_confirmed(false), "Use --yes to confirm non-interactively.");
    assert!(Confirmation::ReplaceSchema.prompt().ends_with("Overwrite? [y/N] "));
    assert_eq!(Confirmation::DeleteMetadata.prompt(), "Warning: this will permanently delete the metadata. Continue? [y/N] ");
}

#[test]
fn schema_validation() {
    let schema: serde_json::Value = serde_json::from_str("{\"type\":\"object\",\"required\":[\"a\"]}").unwrap();
    assert!(banker::local::validate_json_schema(&schema).is_ok());
    let bad: serde_json::Value = serde_json::from_str("{\"type\":12}").unwrap();
    assert!(banker::local::validate_json_schema(&bad).unwrap_err().starts_with("Invalid JSON Schema definition: "));
    let good: serde_json::Value = serde_json::from_str("{\"a\":1}").unwrap();
    let missing: serde_json::Value = serde_json::from_str("{\"b\":1}").unwrap();
    assert!(banker::local::validate_instance(&good, &schema).is_ok());
    assert!(banker::local::validate_instance(&missing, &schema)
        .unwrap_err()
        .starts_with("Metadata does not conform to the schema:\n"));
}

fn arg(id: &str, long: Option<&str>, short: Option<char>, takes: bool, required: bool) -> ArgSpec {
    ArgSpec { id: id.into(), short, long: long.map(String::from), takes_values: takes, required, multiple: false }
}

fn node(name: &str, about: &str, subs: Vec<CommandNode>, args: Vec<ArgSpec>) -> CommandNode {
    CommandNode {
        name: name.into(),
        about: about.into(),
        aliases: vec![],
        args,
        subcommands: subs,
        hidden: false,
        subcommand_required: true,
    }
}

#[test]
fn argument_formats() {
    let args = vec![
        arg("help", Some("help"), Some('h'), false, false),
        arg("bank", Some("bank"), None, true, false),
        arg("yes", Some("yes"), Some('y'), false, false),
        arg("id", None, None, true, true),
        arg("metadata", None, Some('m'), true, true),
    ];
    assert_eq!(format_args(&args), " [--bank <bank>] [--yes] <id> -m <metadata>");
    assert_eq!(format_args(&vec![]), "");
}

#[test]
fn command_tree_and_list() {
    let mut list = node("list", " List stored accounts ", vec![], vec![]);
    list.aliases = vec!["ls".into()];
    let fetch = node("fetch", "", vec![], vec![arg("account_id", None, None, true, true)]);
    let help = node("help", "Print help", vec![], vec![]);
    let account = node("account", "Work with accounts", vec![list, fetch, help], vec![]);
    let root = node("banker", "root", vec![account], vec![arg("config", Some("config"), None, true, false)]);
    let tree = command_tree_lines(&root);
    assert_eq!(
        tree,
        vec![
            "banker [--config <config>]".to_string(),
            "    \u{2514}\u{2500}\u{2500} account - Work with accounts".to_string(),
            "        \u{251c}\u{2500}\u{2500} fetch <account_id>".to_string(),
            "        \u{2514}\u{2500}\u{2500} list (alias: ls) - List stored accounts".to_string(),
        ]
    );
    let lines = command_list_lines(&root);
    assert_eq!(
        lines,
        vec![
            "banker account fetch <account_id>".to_string(),
            "banker account list (alias: ls) - List stored accounts".to_string(),
        ]
    );
    assert!(str_less("fetch", "list"));
    assert!(!str_less("list", "list"));
    assert!(str_less("lis", "list"));
}

#[test]
fn bank_search_ignores_case() {
    let banks = vec![
        AspspEntry { name: "Nordea".into(), country: "FI".into() },
        AspspEntry { name: "OP Financial".into(), country: "FI".into() },
        AspspEntry { name: "Danske Bank".into(), country: "FI".into() },
    ];
    let found = filter_banks(banks, Some("BANK"));
    assert_eq!(found.len(), 1);
    assert_eq!(found[0].name, "Danske Bank");
    let all = filter_banks(vec![AspspEntry { name: "X".into(), country: "DE".into() }], None);
    assert_eq!(all.len(), 1);
    assert!(str_contains("abc", ""));
    assert!(str_contains("abc", "bc"));
    assert!(!str_contains("abc", "cb"));
}

#[test]
fn id_command() {
    assert_eq!(id_command_output(&IdAction::Encode { kind: ResourceType::Account, id: 0 }).unwrap_err(), "ID must be positive");
    let text = id_command_output(&IdAction::Encode { kind: ResourceType::Account, id: 5 }).unwrap().unwrap();
    assert!(text.starts_with("ac_"));
    let r = Resource::Account(AccountId::from_raw(5).unwrap());
    assert_eq!(id_command_output(&IdAction::Decode { resource: r }).unwrap().unwrap(), "5");
}

#[test]
fn output_flags() {
    assert_eq!(OutputArg { jsonl: true, lines: true }.format(), OutputFormat::Jsonl);
    assert_eq!(OutputArg { jsonl: false, lines: true }.format(), OutputFormat::Lines);
    assert_eq!(OutputArg { jsonl: false, lines: false }.format(), OutputFormat::Table);
}

#[test]
fn decimal_texts() {
    assert_eq!(usize_text(0), "0");
    assert_eq!(usize_text(1234), "1234");
    assert_eq!(i64_text(-42), "-42");
    assert_eq!(i64_text(i64::MIN), "-9223372036854775808");
}

#[test]
fn time_frames() {
    let now = Timestamp { secs: 1_000_000, nanos: 0 };
    assert_eq!(time_frame_at(None, now).unwrap(), None);
    let all = TimeFrameArgs { all: true, from: None, to: None, last: None };
    assert_eq!(time_frame_at(Some(all), now).unwrap(), None);
    let last = TimeFrameArgs { all: false, from: None, to: None, last: Some(Span { secs: 86400, nanos: 0 }) };
    assert_eq!(
        time_frame_at(Some(last), now).unwrap(),
        Some(TimeFrame { from: Timestamp { secs: 1_000_000 - 86400, nanos: 0 }, to: now })
    );
    let a = Timestamp { secs: 10, nanos: 0 };
    let b = Timestamp { secs: 20, nanos: 0 };
    let reversed = TimeFrameArgs { all: false, from: Some(b), to: Some(a), last: None };
    assert_eq!(time_frame_at(Some(reversed), now).unwrap_err(), "--from must be on or before --to");
    let good = TimeFrameArgs { all: false, from: Some(a), to: Some(b), last: None };
    assert_eq!(time_frame_at(Some(good), now).unwrap(), Some(TimeFrame { from: a, to: b }));
}

#[test]
fn dates_and_durations() {
    assert_eq!(parse_utc_date("1970-01-02").unwrap(), Timestamp { secs: 86400, nanos: 0 });
    assert_eq!(parse_utc_date("1970-01-01T00:01:00Z").unwrap(), Timestamp { secs: 60, nanos: 0 });
    assert!(parse_utc_date("yesterday").unwrap_err().starts_with("Invalid timestamp 'yesterday'."));
    assert_eq!(parse_clap_duration("1d").unwrap(), Span { secs: 86400, nanos: 0 });
    assert_eq!(parse_clap_duration("0s").unwrap_err(), "duration must be positive");
}

#[test]
fn api_client_and_window() {
    let c = EnableBankingClient::new("https://api.example.com//", "tok");
    assert_eq!(c.base_url, "https://api.example.com");
    assert_eq!(c.authorization, "Bearer tok");
    let w = fetch_window(None);
    assert_eq!((w.date_from, w.date_to, w.strategy), (None, None, FetchStrategy::Longest));
    let tf = TimeFrame { from: Timestamp { secs: 86400 * 3 + 5, nanos: 0 }, to: Timestamp { secs: 86400 * 5, nanos: 0 } };
    let w = fetch_window(Some(tf));
    assert_eq!((w.date_from, w.date_to, w.strategy), (Some(3), Some(5), FetchStrategy::Default));
    let cutoff = Timestamp { secs: 100, nanos: 0 };
    assert!(may_include_old_data(SessionAccessLevel::Regular, None, cutoff));
    assert!(!may_include_old_data(SessionAccessLevel::Extended, None, cutoff));
    let recent = TimeFrame { from: Timestamp { secs: 200, nanos: 0 }, to: Timestamp { secs: 300, nanos: 0 } };
    assert!(!may_include_old_data(SessionAccessLevel::Regular, Some(recent), cutoff));
    assert!(old_data_warning("Bank", "DE").starts_with("session for Bank (DE) is older than 1h, so access to transaction data older than 90 days"));
}

#[test]
fn schema_check_results() {
    assert_eq!(banker::local::schema_check_result(Ok(())), Ok(()));
    assert_eq!(
        banker::local::schema_check_result(Err("bad".to_string())),
        Err("Invalid JSON Schema definition: bad".to_string())
    );
    assert_eq!(
        banker::local::instance_check_result(Err("bad".to_string()), Ok(())),
        Err("Invalid stored schema: bad".to_string())
    );
    assert_eq!(
        banker::local::instance_check_result(Ok(()), Err("\"a\" is a required property".to_string())),
        Err("Metadata does not conform to the schema:\n\"a\" is a required property".to_string())
    );
    assert_eq!(banker::local::instance_check_result(Ok(()), Ok(())), Ok(()));
}

#[test]
fn stored_schema_that_does_not_compile() {
    let bad: serde_json::Value = serde_json::from_str("{\"type\":12}").unwrap();
    let any: serde_json::Value = serde_json::from_str("{}").unwrap();
    assert!(banker::local::validate_instance(&any, &bad).unwrap_err().starts_with("Invalid stored schema: "));
}
