//! The commands: the table of their names and options, how a request
//! becomes a command, and what a command does to the server.
use super::errors::CommandError;
use crate::resp::data::{lemma_view_array, view_all, DataType, Value};
use crate::stream::store::fields_view;
use crate::stream::parse::{dash, StreamIDParser};
use crate::text::{
    chars_of, lower_text, parse_isize_str, parse_signed, parse_unsigned, parse_unsigned_str,
    regex_is_match, regex_search, str_eq, string_of, to_lower,
};
use std::collections::VecDeque;
use vstd::prelude::*;

verus! {

/// The texts of a sequence of strings.
pub open spec fn texts(v: Seq<String>) -> Seq<Seq<char>> {
    Seq::new(v.len(), |i: int| v[i]@)
}

/// The texts of the values of an option, if it has any.
pub open spec fn opt_texts(v: Option<VecDeque<String>>) -> Option<Seq<Seq<char>>> {
    match v {
        Some(v) => Some(texts(v@)),
        None => None,
    }
}

/// An option that a command knows: its name, and how many values follow it
/// (`None`: the option stands alone).
#[derive(Debug)]
pub struct OptionEntry {
    pub name: String,
    pub args: Option<usize>,
}

impl View for OptionEntry {
    type V = (Seq<char>, Option<usize>);

    open spec fn view(&self) -> Self::V {
        (self.name@, self.args)
    }
}

impl OptionEntry {
    pub fn new(name: String, args: Option<usize>) -> (r: Self)
        ensures
            r@ == (name@, args),
    {
        Self { name, args }
    }
}

/// What the table holds of a command: the least number of arguments, and
/// the options that it knows.
#[derive(Debug)]
pub struct CommandEntry {
    pub args: usize,
    pub options: Option<Vec<OptionEntry>>,
}

/// The options of an entry, as names and numbers of values.
pub open spec fn schema_of(options: Option<Vec<OptionEntry>>) -> Option<
    Seq<(Seq<char>, Option<usize>)>,
> {
    match options {
        Some(v) => Some(Seq::new(v@.len(), |i: int| v@[i]@)),
        None => None,
    }
}

/// The first option of `options` whose name is `opt`.
pub open spec fn find_in(options: Seq<(Seq<char>, Option<usize>)>, opt: Seq<char>) -> Option<
    (Seq<char>, Option<usize>),
>
    decreases options.len(),
{
    if options.len() == 0 {
        None
    } else if options[0].0 == opt {
        Some(options[0])
    } else {
        find_in(options.drop_first(), opt)
    }
}

/// The option named `opt` in a schema.
pub open spec fn find_option(
    schema: Option<Seq<(Seq<char>, Option<usize>)>>,
    opt: Seq<char>,
) -> Option<(Seq<char>, Option<usize>)> {
    match schema {
        Some(options) => find_in(options, opt),
        None => None,
    }
}

/// The table of commands: for each name the least number of arguments and
/// the options.
pub open spec fn table(name: Seq<char>) -> Option<(usize, Option<Seq<(Seq<char>, Option<usize>)>>)> {
    if name == "ping"@ {
        Some((0usize, None))
    } else if name == "echo"@ {
        Some((1usize, None))
    } else if name == "get"@ {
        Some((1usize, None))
    } else if name == "set"@ {
        Some((2usize, Some(seq![("px"@, Some(1usize))])))
    } else if name == "info"@ {
        Some((1usize, Some(seq![("replication"@, None::<usize>)])))
    } else if name == "replconf"@ {
        Some((1usize, Some(seq![("listening-port"@, Some(1usize)), ("capa"@, Some(1usize))])))
    } else if name == "psync"@ {
        Some((2usize, Some(Seq::empty())))
    } else if name == "type"@ {
        Some((1usize, None))
    } else if name == "xadd"@ {
        Some((2usize, None))
    } else {
        None
    }
}

/// The table, written out: the nine commands with the least number of
/// their arguments and their options.
pub proof fn lemma_table()
    ensures
        table("ping"@) == Some((0usize, None::<Seq<(Seq<char>, Option<usize>)>>)),
        table("echo"@) == Some((1usize, None::<Seq<(Seq<char>, Option<usize>)>>)),
        table("get"@) == Some((1usize, None::<Seq<(Seq<char>, Option<usize>)>>)),
        table("set"@) == Some((2usize, Some(seq![("px"@, Some(1usize))]))),
        table("info"@) == Some((1usize, Some(seq![("replication"@, None::<usize>)]))),
        table("replconf"@) == Some(
            (1usize, Some(seq![("listening-port"@, Some(1usize)), ("capa"@, Some(1usize))])),
        ),
        table("psync"@) == Some((2usize, Some(Seq::<(Seq<char>, Option<usize>)>::empty()))),
        table("type"@) == Some((1usize, None::<Seq<(Seq<char>, Option<usize>)>>)),
        table("xadd"@) == Some((2usize, None::<Seq<(Seq<char>, Option<usize>)>>)),
{
    reveal_strlit("ping");
    reveal_strlit("echo");
    reveal_strlit("get");
    reveal_strlit("set");
    reveal_strlit("info");
    reveal_strlit("replconf");
    reveal_strlit("psync");
    reveal_strlit("type");
    reveal_strlit("xadd");
    assert("echo"@[0] != "ping"@[0]);
    assert("set"@[0] != "get"@[0]);
    assert("info"@[0] != "ping"@[0]);
    assert("info"@[0] != "echo"@[0]);
    assert("type"@[0] != "ping"@[0]);
    assert("type"@[0] != "echo"@[0]);
    assert("type"@[0] != "info"@[0]);
    assert("xadd"@[0] != "ping"@[0]);
    assert("xadd"@[0] != "echo"@[0]);
    assert("xadd"@[0] != "info"@[0]);
    assert("xadd"@[0] != "type"@[0]);
    assert("get"@.len() != "ping"@.len());
    assert("psync"@.len() != "ping"@.len());
    assert("replconf"@.len() != "ping"@.len());
}

/// The options of a command; none for a name that the table does not hold.
pub open spec fn schema(name: Seq<char>) -> Option<Seq<(Seq<char>, Option<usize>)>> {
    match table(name) {
        Some((_, options)) => options,
        None => None,
    }
}

impl CommandEntry {
    pub fn new(args: usize, options: Option<Vec<OptionEntry>>) -> (r: Self)
        ensures
            r.args == args,
            r.options == options,
    {
        Self { args, options }
    }

    /// Whether the command knows options at all.
    pub fn options(&self) -> (r: bool)
        ensures
            r == self.options.is_some(),
    {
        self.options.is_some()
    }

    /// The option named `opt`.
    pub fn get_option_entry(&self, opt: &String) -> (r: Option<&OptionEntry>)
        ensures
            match r {
                Some(o) => find_option(schema_of(self.options), opt@) == Some(o@),
                None => find_option(schema_of(self.options), opt@) is None,
            },
    {
        match &self.options {
            Some(v) => {
                let ghost all = schema_of(self.options)->Some_0;
                let mut i: usize = 0;
                assert(all.subrange(0, all.len() as int) =~= all);
                while i < v.len()
                    invariant
                        i <= v@.len(),
                        self.options == Some(*v),
                        all == Seq::new(v@.len(), |k: int| v@[k]@),
                        find_in(all, opt@) == find_in(all.subrange(i as int, all.len() as int), opt@),
                    decreases v@.len() - i,
                {
                    let ghost rest = all.subrange(i as int, all.len() as int);
                    assert(rest[0] == v@[i as int]@);
                    assert(rest.drop_first() =~= all.subrange(i + 1, all.len() as int));
                    if str_eq(v[i].name.as_str(), opt.as_str()) {
                        return Some(&v[i]);
                    }
                    i = i + 1;
                }
                None
            },
            None => None,
        }
    }

    /// The entry of the table under `name`. The table never changes, so it
    /// is written out here and not kept in a map that is built as the
    /// program starts.
    pub fn lookup(name: &str) -> (r: Option<CommandEntry>)
        ensures
            match r {
                Some(e) => table(name@) == Some((e.args, schema_of(e.options))),
                None => table(name@) is None,
            },
    {
        if str_eq(name, "ping") {
            Some(CommandEntry::new(0, None))
        } else if str_eq(name, "echo") {
            Some(CommandEntry::new(1, None))
        } else if str_eq(name, "get") {
            Some(CommandEntry::new(1, None))
        } else if str_eq(name, "set") {
            let mut options: Vec<OptionEntry> = Vec::new();
            options.push(OptionEntry::new("px".to_owned(), Some(1)));
            let e = CommandEntry::new(2, Some(options));
            assert(schema_of(e.options)->Some_0 =~= seq![("px"@, Some(1usize))]);
            Some(e)
        } else if str_eq(name, "info") {
            let mut options: Vec<OptionEntry> = Vec::new();
            options.push(OptionEntry::new("replication".to_owned(), None));
            let e = CommandEntry::new(1, Some(options));
            assert(schema_of(e.options)->Some_0 =~= seq![("replication"@, None::<usize>)]);
            Some(e)
        } else if str_eq(name, "replconf") {
            let mut options: Vec<OptionEntry> = Vec::new();
            options.push(OptionEntry::new("listening-port".to_owned(), Some(1)));
            options.push(OptionEntry::new("capa".to_owned(), Some(1)));
            let e = CommandEntry::new(1, Some(options));
            assert(schema_of(e.options)->Some_0 =~= seq![
                ("listening-port"@, Some(1usize)),
                ("capa"@, Some(1usize)),
            ]);
            Some(e)
        } else if str_eq(name, "psync") {
            let options: Vec<OptionEntry> = Vec::new();
            let e = CommandEntry::new(2, Some(options));
            assert(schema_of(e.options)->Some_0 =~= Seq::empty());
            Some(e)
        } else if str_eq(name, "type") {
            Some(CommandEntry::new(1, None))
        } else if str_eq(name, "xadd") {
            Some(CommandEntry::new(2, None))
        } else {
            None
        }
    }
}

/// An option as it stands in a request: its name and its values.
#[derive(Debug)]
pub struct CommandOption {
    pub name: String,
    pub val: Option<VecDeque<String>>,
}

impl View for CommandOption {
    type V = (Seq<char>, Option<Seq<Seq<char>>>);

    open spec fn view(&self) -> Self::V {
        (self.name@, opt_texts(self.val))
    }
}

impl CommandOption {
    pub fn new(name: String, val: Option<VecDeque<String>>) -> (r: Self)
        ensures
            r@ == (name@, opt_texts(val)),
    {
        Self { name, val }
    }
}

/// What a sequence of options stands for.
pub open spec fn options_view(v: Seq<CommandOption>) -> Seq<(Seq<char>, Option<Seq<Seq<char>>>)> {
    Seq::new(v.len(), |i: int| v[i]@)
}

/// `front` put before the options that were read behind it.
pub open spec fn prefixed(
    front: Seq<(Seq<char>, Option<Seq<Seq<char>>>)>,
    rest: Result<Seq<(Seq<char>, Option<Seq<Seq<char>>>)>, CommandError>,
) -> Result<Seq<(Seq<char>, Option<Seq<Seq<char>>>)>, CommandError> {
    match rest {
        Ok(r) => Ok(front + r),
        Err(e) => Err(e),
    }
}

/// The options that `args` spell under a schema: each argument names an
/// option, in upper or lower case (`InvalidOption` where the schema has none
/// of that name), and the arguments behind it are its values, as many as the
/// schema says (`InvalidArgs` where fewer are left).
pub open spec fn parse_options(
    schema: Option<Seq<(Seq<char>, Option<usize>)>>,
    args: Seq<Seq<char>>,
) -> Result<Seq<(Seq<char>, Option<Seq<Seq<char>>>)>, CommandError>
    decreases args.len(),
{
    if args.len() == 0 {
        Ok(Seq::empty())
    } else {
        match find_option(schema, lower_text(args[0])) {
            None => Err(CommandError::InvalidOption),
            Some((name, None)) => prefixed(
                seq![(name, None::<Seq<Seq<char>>>)],
                parse_options(schema, args.subrange(1, args.len() as int)),
            ),
            Some((name, Some(n))) => if n > args.len() - 1 {
                Err(CommandError::InvalidArgs)
            } else {
                prefixed(
                    seq![(name, Some(args.subrange(1, 1 + n)))],
                    parse_options(schema, args.subrange(1 + n, args.len() as int)),
                )
            },
        }
    }
}

/// The texts of a part of a sequence of strings are that part of its texts.
pub proof fn lemma_texts_subrange(v: Seq<String>, from: int, to: int)
    requires
        0 <= from <= to <= v.len(),
    ensures
        texts(v.subrange(from, to)) == texts(v).subrange(from, to),
{
    assert(texts(v.subrange(from, to)) =~= texts(v).subrange(from, to));
}

/// How a command ended: it replied, it failed, or it replied and made the
/// connection a follower's.
#[derive(Debug, Clone, Copy, PartialEq, Eq, Structural)]
pub enum CommandResult {
    Okay,
    Error,
    ReplConf,
}

/// A command, with the arguments that it needs.
#[derive(Debug, PartialEq, Eq)]
pub enum Command {
    PING,
    PSync(String, isize),
    Echo(String),
    Get(String),
    SET { key: String, val: String, px: Option<u64> },
    Info(String),
    ReplConf { port: Option<u16>, capa: Option<String> },
    Tipe(String),
    XAdd { key: String, id: (Option<usize>, Option<usize>), values: Vec<(String, String)> },
}

/// The mathematical model of a [`Command`].
pub enum CommandModel {
    PING,
    PSync(Seq<char>, isize),
    Echo(Seq<char>),
    Get(Seq<char>),
    SET { key: Seq<char>, val: Seq<char>, px: Option<u64> },
    Info(Seq<char>),
    ReplConf { port: Option<u16>, capa: Option<Seq<char>> },
    Tipe(Seq<char>),
    XAdd {
        key: Seq<char>,
        id: (Option<usize>, Option<usize>),
        values: Seq<(Seq<char>, Seq<char>)>,
    },
}

impl View for Command {
    type V = CommandModel;

    open spec fn view(&self) -> CommandModel {
        match self {
            Command::PING => CommandModel::PING,
            Command::PSync(id, offset) => CommandModel::PSync(id@, *offset),
            Command::Echo(s) => CommandModel::Echo(s@),
            Command::Get(s) => CommandModel::Get(s@),
            Command::SET { key, val, px } => CommandModel::SET { key: key@, val: val@, px: *px },
            Command::Info(s) => CommandModel::Info(s@),
            Command::ReplConf { port, capa } => CommandModel::ReplConf {
                port: *port,
                capa: crate::text::opt_text(*capa),
            },
            Command::Tipe(s) => CommandModel::Tipe(s@),
            Command::XAdd { key, id, values } => CommandModel::XAdd {
                key: key@,
                id: *id,
                values: crate::stream::store::fields_view(*values),
            },
        }
    }
}

/// What the outcome of building a command stands for.
pub open spec fn built(r: Result<Command, CommandError>) -> Result<CommandModel, CommandError> {
    match r {
        Ok(c) => Ok(c@),
        Err(e) => Err(e),
    }
}

/// The first value of the first option.
pub open spec fn first_value(opts: Seq<(Seq<char>, Option<Seq<Seq<char>>>)>) -> Option<Seq<char>> {
    if opts.len() > 0 {
        match opts[0].1 {
            Some(vals) => if vals.len() > 0 {
                Some(vals[0])
            } else {
                None
            },
            None => None,
        }
    } else {
        None
    }
}

/// `ECHO <text>`
pub open spec fn echo(args: Seq<Seq<char>>) -> Result<CommandModel, CommandError> {
    if args.len() > 0 {
        Ok(CommandModel::Echo(args[0]))
    } else {
        Err(CommandError::InvalidArgs)
    }
}

/// `GET <key>`
pub open spec fn get(args: Seq<Seq<char>>) -> Result<CommandModel, CommandError> {
    if args.len() > 0 {
        Ok(CommandModel::Get(args[0]))
    } else {
        Err(CommandError::InvalidArgs)
    }
}

/// `TYPE <key>`
pub open spec fn tipe(args: Seq<Seq<char>>) -> Result<CommandModel, CommandError> {
    if args.len() > 0 {
        Ok(CommandModel::Tipe(args[0]))
    } else {
        Err(CommandError::InvalidArgs)
    }
}

/// `SET <key> <value> [px <milliseconds>]`: of several options the first
/// counts.
pub open spec fn set(args: Seq<Seq<char>>) -> Result<CommandModel, CommandError> {
    if args.len() < 2 {
        Err(CommandError::InvalidArgs)
    } else if args.len() == 2 {
        Ok(CommandModel::SET { key: args[0], val: args[1], px: None })
    } else {
        match parse_options(schema("set"@), args.subrange(2, args.len() as int)) {
            Err(e) => Err(e),
            Ok(opts) => match first_value(opts) {
                None => Err(CommandError::InvalidArgs),
                Some(px) => match parse_unsigned(px, u64::MAX as nat) {
                    Some(n) => Ok(
                        CommandModel::SET { key: args[0], val: args[1], px: Some(n as u64) },
                    ),
                    None => Err(CommandError::InvalidArgs),
                },
            },
        }
    }
}

/// `INFO <section>`: the section is the first option.
pub open spec fn info(args: Seq<Seq<char>>) -> Result<CommandModel, CommandError> {
    match parse_options(schema("info"@), args) {
        Err(e) => Err(e),
        Ok(opts) => if opts.len() == 0 {
            Err(CommandError::InvalidArgs)
        } else {
            Ok(CommandModel::Info(opts[0].0))
        },
    }
}

/// A port number, where the text writes one.
pub open spec fn port_of(text: Option<Seq<char>>) -> Option<u16> {
    match text {
        Some(t) => match parse_unsigned(t, u16::MAX as nat) {
            Some(n) => Some(n as u16),
            None => None,
        },
        None => None,
    }
}

/// `REPLCONF listening-port <port>` or `REPLCONF capa <name>`: the first
/// option counts; a port that is no number is left out.
pub open spec fn repl_conf(args: Seq<Seq<char>>) -> Result<CommandModel, CommandError> {
    match parse_options(schema("replconf"@), args) {
        Err(e) => Err(e),
        Ok(opts) => if opts.len() == 0 {
            Err(CommandError::InvalidArgs)
        } else if opts[0].0 == "listening-port"@ {
            Ok(CommandModel::ReplConf { port: port_of(first_value(opts)), capa: None })
        } else if opts[0].0 == "capa"@ {
            Ok(CommandModel::ReplConf { port: None, capa: first_value(opts) })
        } else {
            Err(CommandError::InvalidOption)
        },
    }
}

/// `PSYNC <replication id> <offset>`
pub open spec fn psync(args: Seq<Seq<char>>) -> Result<CommandModel, CommandError> {
    if args.len() < 2 {
        Err(CommandError::InvalidArgs)
    } else {
        match parse_signed(args[1], isize::MIN as int, isize::MAX as int) {
            Some(o) => Ok(CommandModel::PSync(args[0], o as isize)),
            None => Err(CommandError::InvalidArgs),
        }
    }
}

/// The pairs that the arguments from `base` on make, two by two.
pub open spec fn pairs_from(args: Seq<Seq<char>>, base: int) -> Seq<(Seq<char>, Seq<char>)> {
    Seq::new(
        ((args.len() - base) / 2) as nat,
        |i: int| (args[base + 2 * i], args[base + 2 * i + 1]),
    )
}

/// The shape of an ID of two parts in `XADD`: each part digits or `*`, a `-`
/// between them, and nothing before or behind.
pub const XADD_ID_PATTERN: &'static str = "^([0-9]+|\\*)-([0-9]+|\\*)$";

/// One part of a written ID: `None` for the wildcard `*`, else the number
/// that is written; nothing where the text is neither.
pub open spec fn id_part(text: Seq<char>) -> Option<Option<usize>> {
    if text == seq!['*'] {
        Some(None)
    } else {
        match parse_unsigned(text, usize::MAX as nat) {
            Some(n) => Some(Some(n as usize)),
            None => None,
        }
    }
}

/// The two parts of a written ID: what stands before the first `-`, and what
/// stands behind it.
pub open spec fn written_id(text: Seq<char>) -> Option<(Option<usize>, Option<usize>)> {
    let d = dash(text, 0);
    if d >= text.len() {
        None
    } else {
        match (id_part(text.subrange(0, d)), id_part(text.subrange(d + 1, text.len() as int))) {
            (Some(t), Some(s)) => Some((t, s)),
            _ => None,
        }
    }
}

/// `XADD` with an ID: the fields start at the third argument.
pub open spec fn xadd_with_id(args: Seq<Seq<char>>, id: (Option<usize>, Option<usize>)) -> Result<
    CommandModel,
    CommandError,
> {
    if args.len() >= 4 && (args.len() - 4) % 2 == 0 {
        Ok(CommandModel::XAdd { key: args[0], id, values: pairs_from(args, 2) })
    } else {
        Err(CommandError::InvalidArgs)
    }
}

/// `XADD <key> [<id>] <field> <value> [<field> <value> ...]`, given what the
/// search for [`XADD_ID_PATTERN`] in the second argument found.
///
/// The second argument `*` is the ID of which both parts are wildcards,
/// whatever the search found. Where the search matched, the second argument
/// is an ID of two parts, `<timestamp>-<sequence>`, each a number or the
/// wildcard `*`. Else there is no ID: both parts are wildcards, and the
/// second argument is the first field.
pub open spec fn xadd_matched(args: Seq<Seq<char>>, matched: Option<bool>) -> Result<
    CommandModel,
    CommandError,
> {
    if args.len() < 2 {
        Err(CommandError::InvalidArgs)
    } else if args[1] == seq!['*'] {
        xadd_with_id(args, (None, None))
    } else {
        match matched {
            None => Err(CommandError::CommandFailed),
            Some(true) => match written_id(args[1]) {
                Some(id) => xadd_with_id(args, id),
                None => Err(CommandError::InvalidArgs),
            },
            Some(false) => if args.len() >= 3 && (args.len() - 3) % 2 == 0 {
                Ok(
                    CommandModel::XAdd {
                        key: args[0],
                        id: (None, None),
                        values: pairs_from(args, 1),
                    },
                )
            } else {
                Err(CommandError::InvalidArgs)
            },
        }
    }
}

/// `XADD`, with the search for the ID made.
pub open spec fn xadd(args: Seq<Seq<char>>) -> Result<CommandModel, CommandError> {
    if args.len() < 2 {
        Err(CommandError::InvalidArgs)
    } else {
        xadd_matched(args, regex_search(XADD_ID_PATTERN@, args[1]))
    }
}

/// The command of a name, in lower case, and its arguments. `PING` takes
/// none; a name that the table does not hold is `NotFound`; every other
/// command needs arguments.
pub open spec fn try_new(name: Seq<char>, args: Option<Seq<Seq<char>>>) -> Result<
    CommandModel,
    CommandError,
> {
    if name == "ping"@ {
        Ok(CommandModel::PING)
    } else if table(name) is None {
        Err(CommandError::NotFound)
    } else {
        match args {
            None => Err(CommandError::InvalidArgs),
            Some(args) => if name == "echo"@ {
                echo(args)
            } else if name == "get"@ {
                get(args)
            } else if name == "set"@ {
                set(args)
            } else if name == "info"@ {
                info(args)
            } else if name == "replconf"@ {
                repl_conf(args)
            } else if name == "psync"@ {
                psync(args)
            } else if name == "type"@ {
                tipe(args)
            } else if name == "xadd"@ {
                xadd(args)
            } else {
                Err(CommandError::NotFound)
            },
        }
    }
}

/// The command that a bare string is: the name, in upper or lower case, of
/// a command without arguments.
pub open spec fn from_str(s: Seq<char>) -> Result<CommandModel, CommandError> {
    let name = lower_text(s);
    match table(name) {
        Some((n, _)) => if n == 0 {
            try_new(name, None)
        } else {
            Err(CommandError::InvalidArgs)
        },
        None => Err(CommandError::NotFound),
    }
}

/// Every element is a simple or bulk string.
pub open spec fn all_strings(arr: Seq<Value>) -> bool {
    forall|i: int| 0 <= i < arr.len() ==> (#[trigger] arr[i]).string() is Some
}

/// The texts of an array of strings.
pub open spec fn strings_of(arr: Seq<Value>) -> Seq<Seq<char>> {
    Seq::new(arr.len(), |i: int| arr[i].string()->Some_0)
}

/// The command that an array is: its first element names it, in upper or
/// lower case, the others are its arguments, as they are written. An element
/// that is no string is `InvalidArgs`; an empty array, or a name that the
/// table does not hold, is `NotFound`.
pub open spec fn from_arr(arr: Seq<Value>) -> Result<CommandModel, CommandError> {
    if !all_strings(arr) {
        Err(CommandError::InvalidArgs)
    } else if arr.len() == 0 {
        Err(CommandError::NotFound)
    } else {
        let all = strings_of(arr);
        let name = lower_text(all[0]);
        if table(name) is None {
            Err(CommandError::NotFound)
        } else if all.len() > 1 {
            try_new(name, Some(all.subrange(1, all.len() as int)))
        } else {
            try_new(name, None)
        }
    }
}

/// The command that a request is: a bare string or an array of strings.
pub open spec fn try_command(data: Value) -> Result<CommandModel, CommandError> {
    match data {
        Value::SimpleString(s) => from_str(s),
        Value::BulkString(s) => from_str(s),
        Value::Array(arr) => from_arr(arr),
        _ => Err(CommandError::NotFound),
    }
}

impl Command {
    /// Reads the options that `args` spell for the command `name`.
    #[verifier::loop_isolation(false)]
    pub fn parse_options(name: &str, mut args: VecDeque<String>) -> (r: Result<
        VecDeque<CommandOption>,
        CommandError,
    >)
        ensures
            match r {
                Ok(opts) => table(name@) is Some && parse_options(schema(name@), texts(args@)) == Ok::<
                    Seq<(Seq<char>, Option<Seq<Seq<char>>>)>,
                    CommandError,
                >(options_view(opts@)),
                Err(e) => if table(name@) is None {
                    e == CommandError::NotFound
                } else {
                    parse_options(schema(name@), texts(args@)) == Err::<
                        Seq<(Seq<char>, Option<Seq<Seq<char>>>)>,
                        CommandError,
                    >(e)
                },
            },
    {
        let entry = match CommandEntry::lookup(name) {
            Some(e) => e,
            None => {
                return Err(CommandError::NotFound);
            },
        };
        let ghost sch = schema(name@);
        let ghost all = texts(args@);
        let mut buffer: VecDeque<CommandOption> = VecDeque::new();
        proof {
            assert(options_view(buffer@) =~= Seq::empty());
            match parse_options(sch, all) {
                Ok(rest) => {
                    assert(options_view(buffer@) + rest =~= rest);
                },
                Err(_) => {},
            }
        }
        loop
            invariant
                sch == schema_of(entry.options),
                table(name@) is Some,
                sch == schema(name@),
                parse_options(sch, all) == prefixed(
                    options_view(buffer@),
                    parse_options(sch, texts(args@)),
                ),
            decreases args@.len(),
        {
            let ghost before = args@;
            let ghost seen = options_view(buffer@);
            let arg = match args.pop_front() {
                Some(a) => a,
                None => {
                    assert(seen + Seq::empty() =~= seen);
                    break ;
                },
            };
            proof {
                lemma_texts_subrange(before, 1, before.len() as int);
                assert(texts(before)[0] == arg@);
            }
            let arg = to_lower(arg.as_str());
            match entry.get_option_entry(&arg) {
                Some(o_entry) => {
                    match o_entry.args {
                        Some(n) => {
                            if n > args.len() {
                                return Err(CommandError::InvalidArgs);
                            }
                            let mut vals: VecDeque<String> = VecDeque::new();
                            let mut k: usize = 0;
                            assert(vals@ =~= before.subrange(1, 1));
                            while k < n
                                invariant
                                    k <= n,
                                    1 + n <= before.len(),
                                    vals@ == before.subrange(1, 1 + k),
                                    args@ == before.subrange(1 + k, before.len() as int),
                                decreases n - k,
                            {
                                match args.pop_front() {
                                    Some(x) => {
                                        vals.push_back(x);
                                    },
                                    None => {},
                                }
                                assert(vals@ =~= before.subrange(1, 2 + k));
                                assert(args@ =~= before.subrange(2 + k, before.len() as int));
                                k = k + 1;
                            }
                            proof {
                                lemma_texts_subrange(before, 1, 1 + n);
                                lemma_texts_subrange(before, 1 + n, before.len() as int);
                            }
                            let cmd_o = CommandOption::new(o_entry.name.clone(), Some(vals));
                            let ghost item = cmd_o@;
                            buffer.push_back(cmd_o);
                            proof {
                                assert(options_view(buffer@) =~= seen.push(item));
                                match parse_options(sch, texts(args@)) {
                                    Ok(rest) => {
                                        assert(seen + (seq![item] + rest) =~= seen.push(item) + rest);
                                    },
                                    Err(_) => {},
                                }
                            }
                        },
                        None => {
                            let cmd_o = CommandOption::new(o_entry.name.clone(), None);
                            let ghost item = cmd_o@;
                            buffer.push_back(cmd_o);
                            proof {
                                assert(options_view(buffer@) =~= seen.push(item));
                                match parse_options(sch, texts(args@)) {
                                    Ok(rest) => {
                                        assert(seen + (seq![item] + rest) =~= seen.push(item) + rest);
                                    },
                                    Err(_) => {},
                                }
                            }
                        },
                    }
                },
                None => {
                    return Err(CommandError::InvalidOption);
                },
            }
        }
        Ok(buffer)
    }

    /// `PING`
    pub fn ping() -> (r: Result<Self, CommandError>)
        ensures
            built(r) == Ok::<CommandModel, CommandError>(CommandModel::PING),
    {
        Ok(Self::PING)
    }

    /// `ECHO <text>`
    pub fn echo(mut args: VecDeque<String>) -> (r: Result<Self, CommandError>)
        ensures
            built(r) == echo(texts(args@)),
    {
        match args.pop_front() {
            Some(arg) => Ok(Self::Echo(arg)),
            None => Err(CommandError::InvalidArgs),
        }
    }

    /// `GET <key>`
    pub fn get(mut args: VecDeque<String>) -> (r: Result<Self, CommandError>)
        ensures
            built(r) == get(texts(args@)),
    {
        match args.pop_front() {
            Some(arg) => Ok(Self::Get(arg)),
            None => Err(CommandError::InvalidArgs),
        }
    }

    /// `TYPE <key>`
    pub fn tipe(mut args: VecDeque<String>) -> (r: Result<Self, CommandError>)
        ensures
            built(r) == tipe(texts(args@)),
    {
        match args.pop_front() {
            Some(k) => Ok(Self::Tipe(k)),
            None => Err(CommandError::InvalidArgs),
        }
    }

    /// The first value of the first option, taken out of the options.
    fn take_first_value(mut options: VecDeque<CommandOption>) -> (r: Option<String>)
        ensures
            crate::text::opt_text(r) == first_value(options_view(options@)),
    {
        match options.pop_front() {
            Some(o) => match o.val {
                Some(mut vals) => vals.pop_front(),
                None => None,
            },
            None => None,
        }
    }

    /// `SET <key> <value> [px <milliseconds>]`
    pub fn set(mut args: VecDeque<String>) -> (r: Result<Self, CommandError>)
        ensures
            built(r) == set(texts(args@)),
    {
        let ghost all = args@;
        let k = args.pop_front();
        let v = args.pop_front();
        match (k, v) {
            (Some(key), Some(val)) => {
                assert(args@ =~= all.subrange(2, all.len() as int));
                proof {
                    lemma_texts_subrange(all, 2, all.len() as int);
                }
                if args.len() > 0 {
                    let options = match Command::parse_options("set", args) {
                        Ok(o) => o,
                        Err(e) => {
                            return Err(e);
                        },
                    };
                    match Self::take_first_value(options) {
                        Some(px_val) => match parse_unsigned_str(px_val.as_str(), u64::MAX) {
                            Some(px) => Ok(Command::SET { key, val, px: Some(px) }),
                            None => Err(CommandError::InvalidArgs),
                        },
                        None => Err(CommandError::InvalidArgs),
                    }
                } else {
                    Ok(Command::SET { key, val, px: None })
                }
            },
            _ => Err(CommandError::InvalidArgs),
        }
    }

    /// `INFO <section>`
    pub fn info(args: VecDeque<String>) -> (r: Result<Self, CommandError>)
        ensures
            built(r) == info(texts(args@)),
    {
        let mut options = match Command::parse_options("info", args) {
            Ok(o) => o,
            Err(e) => {
                return Err(e);
            },
        };
        match options.pop_front() {
            Some(option) => Ok(Self::Info(option.name)),
            None => Err(CommandError::InvalidArgs),
        }
    }

    /// `REPLCONF listening-port <port>` or `REPLCONF capa <name>`
    pub fn repl_conf(args: VecDeque<String>) -> (r: Result<Self, CommandError>)
        ensures
            built(r) == repl_conf(texts(args@)),
    {
        let options = match Command::parse_options("replconf", args) {
            Ok(o) => o,
            Err(e) => {
                return Err(e);
            },
        };
        if options.len() == 0 {
            return Err(CommandError::InvalidArgs);
        }
        let listening = str_eq(options[0].name.as_str(), "listening-port");
        let capa = str_eq(options[0].name.as_str(), "capa");
        let value = Self::take_first_value(options);
        if listening {
            let port = match value {
                Some(p) => match parse_unsigned_str(p.as_str(), 65535) {
                    Some(n) => Some(n as u16),
                    None => None,
                },
                None => None,
            };
            Ok(Self::ReplConf { port, capa: None })
        } else if capa {
            Ok(Self::ReplConf { port: None, capa: value })
        } else {
            Err(CommandError::InvalidOption)
        }
    }

    /// `PSYNC <replication id> <offset>`
    pub fn psync(mut args: VecDeque<String>) -> (r: Result<Self, CommandError>)
        ensures
            built(r) == psync(texts(args@)),
    {
        let repl_id = args.pop_front();
        let offset = args.pop_front();
        match (repl_id, offset) {
            (Some(id), Some(offset)) => match parse_isize_str(offset.as_str()) {
                Some(o) => Ok(Self::PSync(id, o)),
                None => Err(CommandError::InvalidArgs),
            },
            _ => Err(CommandError::InvalidArgs),
        }
    }

    /// One part of a written ID.
    fn id_part(text: &str) -> (r: Option<Option<usize>>)
        ensures
            r == id_part(text@),
    {
        proof {
            reveal_strlit("*");
            assert("*"@ =~= seq!['*']);
        }
        if str_eq(text, "*") {
            Some(None)
        } else {
            match parse_unsigned_str(text, usize::MAX as u64) {
                Some(n) => Some(Some(n as usize)),
                None => None,
            }
        }
    }

    /// The two parts of a written ID.
    fn written_id(text: &str) -> (r: Option<(Option<usize>, Option<usize>)>)
        ensures
            r == written_id(text@),
    {
        let chars = chars_of(text);
        let d = StreamIDParser::find_dash(&chars, 0);
        if d >= chars.len() {
            return None;
        }
        let first = string_of(&chars, 0, d);
        let second = string_of(&chars, d + 1, chars.len());
        let id = Self::id_part(first.as_str());
        let seq = Self::id_part(second.as_str());
        match (id, seq) {
            (Some(t), Some(s)) => Some((t, s)),
            _ => None,
        }
    }

    /// Builds `XADD`, given what the search for [`XADD_ID_PATTERN`] in the
    /// second argument found.
    pub fn xadd_matched(mut args: VecDeque<String>, matched: Option<bool>) -> (r: Result<
        Self,
        CommandError,
    >)
        ensures
            built(r) == xadd_matched(texts(args@), matched),
    {
        let ghost all = args@;
        let ghost t = texts(all);
        let n = args.len();
        if n < 2 {
            return Err(CommandError::InvalidArgs);
        }
        let key = match args.pop_front() {
            Some(k) => k,
            None => {
                return Err(CommandError::InvalidArgs);
            },
        };
        let next = match args.pop_front() {
            Some(k) => k,
            None => {
                return Err(CommandError::InvalidArgs);
            },
        };
        assert(args@ =~= all.subrange(2, all.len() as int));
        assert(key@ == t[0] && next@ == t[1]);
        proof {
            reveal_strlit("*");
            assert("*"@ =~= seq!['*']);
        }
        let wildcard = str_eq(next.as_str(), "*");
        let found: Option<(Option<usize>, Option<usize>)> = if wildcard {
            Some((None, None))
        } else {
            match matched {
                None => {
                    return Err(CommandError::CommandFailed);
                },
                Some(true) => match Self::written_id(next.as_str()) {
                    Some(id) => Some(id),
                    None => {
                        return Err(CommandError::InvalidArgs);
                    },
                },
                Some(false) => None,
            }
        };
        let stream_id: (Option<usize>, Option<usize>);
        let ghost base: int;
        match found {
            Some(id) => {
                if n < 4 || (n - 4) % 2 != 0 {
                    return Err(CommandError::InvalidArgs);
                }
                stream_id = id;
                proof {
                    base = 2;
                }
            },
            None => {
                if n < 3 || (n - 3) % 2 != 0 {
                    return Err(CommandError::InvalidArgs);
                }
                stream_id = (None, None);
                args.push_front(next);
                proof {
                    base = 1;
                    assert(args@ =~= all.subrange(1, all.len() as int));
                }
            },
        }
        let mut buffer: Vec<(String, String)> = Vec::new();
        let ghost want = pairs_from(t, base);
        assert(fields_view(buffer) =~= want.subrange(0, 0));
        while args.len() >= 2
            invariant
                1 <= base <= 2,
                base <= all.len(),
                (all.len() - base) % 2 == 0,
                t == texts(all),
                want == pairs_from(t, base),
                buffer@.len() <= want.len(),
                args@ == all.subrange(base + 2 * buffer@.len(), all.len() as int),
                fields_view(buffer) == want.subrange(0, buffer@.len() as int),
            decreases args@.len(),
        {
            let ghost i = buffer@.len() as int;
            let ghost before = args@;
            let k = args.pop_front();
            let v = args.pop_front();
            match (k, v) {
                (Some(k), Some(v)) => {
                    assert(k == all[base + 2 * i]);
                    assert(v == all[base + 2 * i + 1]);
                    buffer.push((k, v));
                    assert(args@ =~= all.subrange(base + 2 * (i + 1), all.len() as int));
                    assert(fields_view(buffer) =~= want.subrange(0, i + 1));
                },
                _ => {},
            }
        }
        assert(fields_view(buffer) =~= want);
        Ok(Self::XAdd { key, id: stream_id, values: buffer })
    }

    /// `XADD <key> [<id>] <field> <value> [<field> <value> ...]`
    pub fn xadd(args: VecDeque<String>) -> (r: Result<Self, CommandError>)
        ensures
            built(r) == xadd(texts(args@)),
    {
        if args.len() < 2 {
            return Err(CommandError::InvalidArgs);
        }
        let matched = regex_is_match(XADD_ID_PATTERN, args[1].as_str());
        Self::xadd_matched(args, matched)
    }

    /// The command of a name, in lower case, and its arguments.
    pub fn try_new(str: &str, args: Option<VecDeque<String>>) -> (r: Result<Self, CommandError>)
        ensures
            built(r) == try_new(
                str@,
                match args {
                    Some(a) => Some(texts(a@)),
                    None => None,
                },
            ),
    {
        if str_eq(str, "ping") {
            return Command::ping();
        }
        if CommandEntry::lookup(str).is_none() {
            return Err(CommandError::NotFound);
        }
        let args = match args {
            Some(a) => a,
            None => {
                return Err(CommandError::InvalidArgs);
            },
        };
        if str_eq(str, "echo") {
            Command::echo(args)
        } else if str_eq(str, "get") {
            Command::get(args)
        } else if str_eq(str, "set") {
            Command::set(args)
        } else if str_eq(str, "info") {
            Command::info(args)
        } else if str_eq(str, "replconf") {
            Command::repl_conf(args)
        } else if str_eq(str, "psync") {
            Command::psync(args)
        } else if str_eq(str, "type") {
            Command::tipe(args)
        } else if str_eq(str, "xadd") {
            Command::xadd(args)
        } else {
            Err(CommandError::NotFound)
        }
    }

    /// The command that a bare string is.
    pub fn from_str(s: String) -> (r: Result<Self, CommandError>)
        ensures
            built(r) == from_str(s@),
    {
        let name = to_lower(s.as_str());
        match CommandEntry::lookup(name.as_str()) {
            Some(entry) => {
                if entry.args == 0 {
                    Self::try_new(name.as_str(), None)
                } else {
                    Err(CommandError::InvalidArgs)
                }
            },
            None => Err(CommandError::NotFound),
        }
    }

    /// The command that an array of strings is.
    pub fn from_arr(arr: VecDeque<DataType>) -> (r: Result<Self, CommandError>)
        ensures
            built(r) == from_arr(view_all(arr)),
    {
        let ghost items = view_all(arr);
        let mut str_arr: VecDeque<String> = VecDeque::new();
        let mut i: usize = 0;
        while i < arr.len()
            invariant
                i <= arr.len(),
                items == view_all(arr),
                str_arr@.len() == i,
                forall|k: int|
                    0 <= k < i ==> (#[trigger] items[k]).string() == Some(str_arr@[k]@),
            decreases arr.len() - i,
        {
            match arr[i].try_to_string() {
                Ok(s) => {
                    str_arr.push_back(s);
                },
                Err(_) => {
                    assert(items[i as int].string() is None);
                    return Err(CommandError::InvalidArgs);
                },
            }
            i = i + 1;
        }
        assert(all_strings(items));
        assert(texts(str_arr@) =~= strings_of(items));
        let ghost all = str_arr@;
        let first = match str_arr.pop_front() {
            Some(f) => f,
            None => {
                return Err(CommandError::NotFound);
            },
        };
        proof {
            lemma_texts_subrange(all, 1, all.len() as int);
        }
        let first = to_lower(first.as_str());
        if CommandEntry::lookup(first.as_str()).is_none() {
            return Err(CommandError::NotFound);
        }
        if str_arr.len() > 0 {
            Self::try_new(first.as_str(), Some(str_arr))
        } else {
            Self::try_new(first.as_str(), None)
        }
    }

    /// The command that a request is, or why it is none.
    pub fn from_data(data: DataType) -> (r: Result<Self, CommandError>)
        ensures
            built(r) == try_command(data@),
    {
        match data {
            DataType::SimpleString(s) => Self::from_str(s),
            DataType::BulkString(s) => Self::from_str(s),
            DataType::Array(arr) => {
                proof {
                    lemma_view_array(arr);
                }
                Self::from_arr(arr)
            },
            _ => Err(CommandError::NotFound),
        }
    }

    /// The command that a request is, if it is one.
    pub fn new(data: DataType) -> (r: Option<Self>)
        ensures
            match r {
                Some(c) => try_command(data@) == Ok::<CommandModel, CommandError>(c@),
                None => try_command(data@) is Err,
            },
    {
        match Self::from_data(data) {
            Ok(c) => Some(c),
            Err(_) => None,
        }
    }
}

} // verus!
