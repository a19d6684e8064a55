use std::collections::VecDeque;

use resp_store::resp::command::Command as Request;
use resp_store::resp::data::DataType;
use resp_store::resp::parse::Parser;
use resp_store::server::command::{Command, CommandEntry, CommandOption, OptionEntry};
use resp_store::server::errors::CommandError;

fn args(items: &[&str]) -> VecDeque<String> {
    items.iter().map(|s| s.to_string()).collect()
}

fn bulk(items: &[&str]) -> DataType {
    DataType::Array(items.iter().map(|s| DataType::BulkString(s.to_string())).collect())
}

fn pairs(items: &[(&str, &str)]) -> Vec<(String, String)> {
    items.iter().map(|(k, v)| (k.to_string(), v.to_string())).collect()
}

#[test]
fn the_table_of_commands() {
    let expected: [(&str, usize, Option<Vec<(&str, Option<usize>)>>); 9] = [
        ("ping", 0, None),
        ("echo", 1, None),
        ("get", 1, None),
        ("set", 2, Some(vec![("px", Some(1))])),
        ("info", 1, Some(vec![("replication", None)])),
        ("replconf", 1, Some(vec![("listening-port", Some(1)), ("capa", Some(1))])),
        ("psync", 2, Some(vec![])),
        ("type", 1, None),
        ("xadd", 2, None),
    ];
    for (name, min, options) in expected {
        let entry = CommandEntry::lookup(name).unwrap();
        assert_eq!(entry.args, min, "{}", name);
        assert_eq!(entry.options(), options.is_some(), "{}", name);
        let got = entry
            .options
            .as_ref()
            .map(|v| v.iter().map(|o| (o.name.as_str(), o.args)).collect::<Vec<_>>());
        assert_eq!(got, options, "{}", name);
    }
    assert!(CommandEntry::lookup("PING").is_none());
    assert!(CommandEntry::lookup("del").is_none());
    assert!(CommandEntry::lookup("").is_none());
}

#[test]
fn options_are_found_by_name() {
    let entry = CommandEntry::new(
        1,
        Some(vec![OptionEntry::new("a".to_string(), Some(2)), OptionEntry::new("b".to_string(), None)]),
    );
    assert_eq!(entry.get_option_entry(&"b".to_string()).map(|o| o.args), Some(None));
    assert_eq!(entry.get_option_entry(&"a".to_string()).map(|o| o.args), Some(Some(2)));
    assert!(entry.get_option_entry(&"c".to_string()).is_none());
    assert!(CommandEntry::new(0, None).get_option_entry(&"a".to_string()).is_none());
}

fn shown(options: VecDeque<CommandOption>) -> Vec<(String, Option<Vec<String>>)> {
    options
        .into_iter()
        .map(|o| (o.name, o.val.map(|v| v.into_iter().collect())))
        .collect()
}

#[test]
fn options_take_their_values() {
    assert_eq!(
        Command::parse_options("set", args(&["px", "100"])).map(shown),
        Ok(vec![("px".to_string(), Some(vec!["100".to_string()]))])
    );
    assert_eq!(
        Command::parse_options("replconf", args(&["capa", "eof", "capa", "psync2"])).map(shown),
        Ok(vec![
            ("capa".to_string(), Some(vec!["eof".to_string()])),
            ("capa".to_string(), Some(vec!["psync2".to_string()])),
        ])
    );
    assert_eq!(
        Command::parse_options("info", args(&["replication"])).map(shown),
        Ok(vec![("replication".to_string(), None)])
    );
    assert_eq!(Command::parse_options("info", args(&[])).map(shown), Ok(vec![]));
    assert_eq!(
        Command::parse_options("set", args(&["px"])).map(shown),
        Err(CommandError::InvalidArgs)
    );
    assert_eq!(
        Command::parse_options("set", args(&["ex", "1"])).map(shown),
        Err(CommandError::InvalidOption)
    );
    assert_eq!(
        Command::parse_options("get", args(&["px", "1"])).map(shown),
        Err(CommandError::InvalidOption)
    );
    assert_eq!(
        Command::parse_options("nope", args(&["px", "1"])).map(shown),
        Err(CommandError::NotFound)
    );
}

#[test]
fn commands_from_bare_strings() {
    assert_eq!(Command::new(DataType::SimpleString("ping".to_string())), Some(Command::PING));
    assert_eq!(Command::new(DataType::BulkString("ping".to_string())), Some(Command::PING));
    assert_eq!(Command::from_str("get".to_string()), Err(CommandError::InvalidArgs));
    assert_eq!(Command::from_str("nope".to_string()), Err(CommandError::NotFound));
    assert_eq!(Command::new(DataType::SimpleError("ping".to_string())), None);
    assert_eq!(
        Command::from_data(DataType::BulkError("ping".to_string())),
        Err(CommandError::NotFound)
    );
}

#[test]
fn commands_from_arrays() {
    assert_eq!(Command::new(bulk(&["ping"])), Some(Command::PING));
    assert_eq!(Command::new(bulk(&["echo", "hello"])), Some(Command::Echo("hello".to_string())));
    assert_eq!(Command::new(bulk(&["get", "foo"])), Some(Command::Get("foo".to_string())));
    assert_eq!(Command::new(bulk(&["type", "foo"])), Some(Command::Tipe("foo".to_string())));
    assert_eq!(
        Command::new(bulk(&["set", "foo", "bar"])),
        Some(Command::SET { key: "foo".to_string(), val: "bar".to_string(), px: None })
    );
    assert_eq!(
        Command::new(bulk(&["set", "foo", "bar", "px", "50"])),
        Some(Command::SET { key: "foo".to_string(), val: "bar".to_string(), px: Some(50) })
    );
    assert_eq!(
        Command::new(bulk(&["info", "replication"])),
        Some(Command::Info("replication".to_string()))
    );
    assert_eq!(
        Command::new(bulk(&["replconf", "listening-port", "6380"])),
        Some(Command::ReplConf { port: Some(6380), capa: None })
    );
    assert_eq!(
        Command::new(bulk(&["replconf", "listening-port", "70000"])),
        Some(Command::ReplConf { port: None, capa: None })
    );
    assert_eq!(
        Command::new(bulk(&["replconf", "capa", "psync2"])),
        Some(Command::ReplConf { port: None, capa: Some("psync2".to_string()) })
    );
    assert_eq!(
        Command::new(bulk(&["psync", "?", "-1"])),
        Some(Command::PSync("?".to_string(), -1))
    );
}

#[test]
fn requests_are_read_from_the_wire() {
    let mut parser = Parser::new(b"*5\r\n$3\r\nSET\r\n$3\r\nFoo\r\n$3\r\nBar\r\n$2\r\nPX\r\n$2\r\n50\r\n");
    let data = parser.parse().unwrap();
    assert_eq!(
        Command::new(data),
        Some(Command::SET { key: "Foo".to_string(), val: "Bar".to_string(), px: Some(50) })
    );
}

#[test]
fn each_error_has_its_inputs() {
    assert_eq!(Command::from_data(bulk(&["nope", "x"])), Err(CommandError::NotFound));
    assert_eq!(Command::from_data(bulk(&[])), Err(CommandError::NotFound));
    assert_eq!(Command::from_data(bulk(&["echo"])), Err(CommandError::InvalidArgs));
    assert_eq!(Command::from_data(bulk(&["get"])), Err(CommandError::InvalidArgs));
    assert_eq!(Command::from_data(bulk(&["set", "k"])), Err(CommandError::InvalidArgs));
    assert_eq!(Command::from_data(bulk(&["set", "k", "v", "px"])), Err(CommandError::InvalidArgs));
    assert_eq!(
        Command::from_data(bulk(&["set", "k", "v", "px", "soon"])),
        Err(CommandError::InvalidArgs)
    );
    assert_eq!(
        Command::from_data(bulk(&["set", "k", "v", "ex", "1"])),
        Err(CommandError::InvalidOption)
    );
    assert_eq!(Command::from_data(bulk(&["info", "memory"])), Err(CommandError::InvalidOption));
    assert_eq!(Command::from_data(bulk(&["info"])), Err(CommandError::InvalidArgs));
    assert_eq!(Command::from_data(bulk(&["replconf", "ack", "0"])), Err(CommandError::InvalidOption));
    assert_eq!(Command::from_data(bulk(&["psync", "?"])), Err(CommandError::InvalidArgs));
    assert_eq!(Command::from_data(bulk(&["psync", "?", "x"])), Err(CommandError::InvalidArgs));
    assert_eq!(Command::from_data(bulk(&["xadd", "s"])), Err(CommandError::InvalidArgs));
    assert_eq!(Command::from_data(bulk(&["xadd", "s", "1-1"])), Err(CommandError::InvalidArgs));
    assert_eq!(Command::from_data(bulk(&["xadd", "s", "1-1", "f"])), Err(CommandError::InvalidArgs));
    assert_eq!(Command::from_data(bulk(&["xadd", "s", "f"])), Err(CommandError::InvalidArgs));
    assert_eq!(
        Command::from_data(bulk(&["xadd", "s", "a1-1b", "f", "v"])),
        Err(CommandError::InvalidArgs)
    );
    let mut nested = VecDeque::new();
    nested.push_back(DataType::BulkString("echo".to_string()));
    nested.push_back(bulk(&["x"]));
    assert_eq!(Command::from_data(DataType::Array(nested)), Err(CommandError::InvalidArgs));
}

#[test]
fn xadd_with_and_without_an_id() {
    assert_eq!(
        Command::new(bulk(&["xadd", "stream", "1-1", "field", "value"])),
        Some(Command::XAdd {
            key: "stream".to_string(),
            id: (Some(1), Some(1)),
            values: pairs(&[("field", "value")]),
        })
    );
    assert_eq!(
        Command::new(bulk(&["xadd", "stream", "0-0", "a", "b", "c", "d"])),
        Some(Command::XAdd {
            key: "stream".to_string(),
            id: (Some(0), Some(0)),
            values: pairs(&[("a", "b"), ("c", "d")]),
        })
    );
    assert_eq!(
        Command::new(bulk(&["xadd", "stream", "field", "value"])),
        Some(Command::XAdd {
            key: "stream".to_string(),
            id: (None, None),
            values: pairs(&[("field", "value")]),
        })
    );
    assert_eq!(
        Command::new(bulk(&["xadd", "stream", "first-name", "value"])),
        Some(Command::XAdd {
            key: "stream".to_string(),
            id: (None, None),
            values: pairs(&[("first-name", "value")]),
        })
    );
}

#[test]
fn xadd_with_wildcards() {
    assert_eq!(
        Command::xadd(args(&["stream", "*", "field", "value"])),
        Ok(Command::XAdd {
            key: "stream".to_string(),
            id: (None, None),
            values: pairs(&[("field", "value")]),
        })
    );
    assert_eq!(
        Command::new(bulk(&["xadd", "stream", "5-*", "field", "value"])),
        Some(Command::XAdd {
            key: "stream".to_string(),
            id: (Some(5), None),
            values: pairs(&[("field", "value")]),
        })
    );
    assert_eq!(
        Command::new(bulk(&["xadd", "stream", "*-7", "field", "value"])),
        Some(Command::XAdd {
            key: "stream".to_string(),
            id: (None, Some(7)),
            values: pairs(&[("field", "value")]),
        })
    );
    assert_eq!(
        Command::new(bulk(&["xadd", "stream", "*-*", "field", "value"])),
        Some(Command::XAdd {
            key: "stream".to_string(),
            id: (None, None),
            values: pairs(&[("field", "value")]),
        })
    );
    assert_eq!(Command::xadd(args(&["stream", "*", "value"])), Err(CommandError::InvalidArgs));
    assert_eq!(Command::xadd(args(&["stream", "*"])), Err(CommandError::InvalidArgs));
    assert_eq!(
        Command::xadd(args(&["stream", "99999999999999999999999-1", "f", "v"])),
        Err(CommandError::InvalidArgs)
    );
}

#[test]
fn xadd_depends_on_what_the_search_found() {
    assert_eq!(
        Command::xadd_matched(args(&["s", "1-1", "f", "v"]), Some(true)),
        Ok(Command::XAdd {
            key: "s".to_string(),
            id: (Some(1), Some(1)),
            values: pairs(&[("f", "v")]),
        })
    );
    assert_eq!(
        Command::xadd_matched(args(&["s", "1-*", "f", "v"]), Some(true)),
        Ok(Command::XAdd { key: "s".to_string(), id: (Some(1), None), values: pairs(&[("f", "v")]) })
    );
    assert_eq!(
        Command::xadd_matched(args(&["s", "1-1", "f"]), Some(false)),
        Ok(Command::XAdd { key: "s".to_string(), id: (None, None), values: pairs(&[("1-1", "f")]) })
    );
    assert_eq!(
        Command::xadd_matched(args(&["s", "1-1", "f", "v"]), None),
        Err(CommandError::CommandFailed)
    );
    assert_eq!(
        Command::xadd_matched(args(&["s", "11", "f", "v"]), Some(true)),
        Err(CommandError::InvalidArgs)
    );
    assert_eq!(
        Command::xadd_matched(args(&["s", "1-2-3", "f", "v"]), Some(true)),
        Err(CommandError::InvalidArgs)
    );
    assert_eq!(Command::xadd_matched(args(&["s"]), Some(true)), Err(CommandError::InvalidArgs));
    for found in [Some(true), Some(false), None] {
        assert_eq!(
            Command::xadd_matched(args(&["s", "*", "f", "v"]), found),
            Ok(Command::XAdd { key: "s".to_string(), id: (None, None), values: pairs(&[("f", "v")]) })
        );
    }
}

#[test]
fn builders_by_name() {
    assert_eq!(Command::ping(), Ok(Command::PING));
    assert_eq!(Command::try_new("ping", None), Ok(Command::PING));
    assert_eq!(Command::try_new("ping", Some(args(&["x"]))), Ok(Command::PING));
    assert_eq!(Command::try_new("echo", None), Err(CommandError::InvalidArgs));
    assert_eq!(Command::try_new("nope", None), Err(CommandError::NotFound));
    assert_eq!(Command::try_new("echo", Some(args(&["a", "b"]))), Ok(Command::Echo("a".to_string())));
    assert_eq!(Command::echo(args(&[])), Err(CommandError::InvalidArgs));
    assert_eq!(Command::get(args(&["k"])), Ok(Command::Get("k".to_string())));
    assert_eq!(Command::tipe(args(&["k"])), Ok(Command::Tipe("k".to_string())));
    assert_eq!(Command::psync(args(&["?", "+7"])), Ok(Command::PSync("?".to_string(), 7)));
    assert_eq!(
        Command::set(args(&["k", "v", "px", "1", "px", "2"])),
        Ok(Command::SET { key: "k".to_string(), val: "v".to_string(), px: Some(1) })
    );
    assert_eq!(Command::info(args(&["replication"])), Ok(Command::Info("replication".to_string())));
    assert_eq!(
        Command::repl_conf(args(&["capa", "psync2"])),
        Ok(Command::ReplConf { port: None, capa: Some("psync2".to_string()) })
    );
    assert_eq!(Command::xadd(args(&["s", "0-0", "f", "v"])).is_ok(), true);
}

#[test]
fn command_errors_have_their_texts() {
    assert_eq!(CommandError::NotFound.to_string(), "Command Error: Not found!");
    assert_eq!(CommandError::InvalidArgs.to_string(), "Command Error: Invalid args!");
    assert_eq!(CommandError::InvalidOption.to_string(), "Command Error: Invalid option!");
    assert_eq!(CommandError::CommandFailed.to_string(), "Command Error: Command failed!");
}

#[test]
fn the_requests_that_the_codec_knows() {
    let ping = Request::from_dt(&DataType::SimpleString("ping".to_string())).unwrap();
    assert_eq!(ping.response(), Some(&b"+PONG\r\n"[..]));
    assert!(Request::from_dt(&DataType::BulkString("get".to_string())).is_none());
    let echo = Request::from_dt(&bulk(&["echo", "hello"])).unwrap();
    assert_eq!(echo.response(), Some(&b"hello"[..]));
    assert!(matches!(Request::from_dt(&bulk(&["ping"])), Some(Request::PING)));
    assert!(Request::from_dt(&bulk(&["get", "k"])).is_none());
}

#[test]
fn values_compare_with_texts() {
    let one = bulk(&["ok"]);
    assert!(one.is_str("ok"));
    assert!(!bulk(&["ok", "ok"]).is_str("ok"));
    assert!(DataType::SimpleString("ok".to_string()).is_str("ok"));
    assert!(!DataType::SimpleError("ok".to_string()).is_str("ok"));
    assert!(DataType::SimpleError("ok".to_string()).cmp_str("ok"));
    assert!(DataType::BulkError("ok".to_string()).cmp_str("ok"));
    assert!(!DataType::BulkString("OK".to_string()).cmp_str("ok"));
    assert!(DataType::BulkString("OK".to_string()).says("ok"));
    assert!(DataType::SimpleError("Pong".to_string()).says("pONG"));
    assert!(!DataType::BulkString("okay".to_string()).says("ok"));
    assert!(!bulk(&["ok"]).says("ok"));
    assert!(!bulk(&["ok"]).cmp_str("ok"));
    assert_eq!(DataType::BulkString("a".to_string()).try_to_string(), Ok("a".to_string()));
    assert_eq!(
        DataType::SimpleError("a".to_string()).try_to_string(),
        Err(resp_store::resp::errors::RESPError::InvalidType)
    );
    assert_eq!(resp_store::resp::errors::RESPError::InvalidType.to_string(), "RESP Error: Invalid type!");
    assert_eq!(resp_store::resp::errors::RESPError::InvalidData.to_string(), "RESP Error: Invalid data!");
}
