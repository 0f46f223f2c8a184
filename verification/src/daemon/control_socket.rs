//! The lines on the daemon's control socket.
//!
//! A request is `CONNECT <uri>` or `PAIR [<seconds>]`, and an answer is
//! `OK [<details>]` or `ERR <message>`, each on a line of its own.
use vstd::prelude::*;

use crate::text::{
    decimal, is_digit, is_space, parse_u64, parsed, same, strip_prefix, trim, trim_end,
    trim_start, trimmed, without_prefix,
};

verus! {

/// A request.
#[derive(Debug)]
pub enum Command {
    /// Load the pairing of a URI.
    Connect(String),
    /// Make a pairing that lives so many seconds, or as long as usual.
    Pair(Option<u64>),
    Unknown,
}

/// [`Command`] with its text as a sequence of characters.
pub enum CommandView {
    Connect(Seq<char>),
    Pair(Option<int>),
    Unknown,
}

impl View for Command {
    type V = CommandView;

    open spec fn view(&self) -> CommandView {
        match *self {
            Command::Connect(s) => CommandView::Connect(s@),
            Command::Pair(None) => CommandView::Pair(None),
            Command::Pair(Some(n)) => CommandView::Pair(Some(n as int)),
            Command::Unknown => CommandView::Unknown,
        }
    }
}

/// The request on a line. A lifetime that is no number is the usual one.
pub open spec fn command_of(line: Seq<char>) -> CommandView {
    let l = trim(line);
    match strip_prefix(l, "CONNECT "@) {
        Some(uri) => CommandView::Connect(uri),
        None => match strip_prefix(l, "PAIR "@) {
            Some(ttl) => CommandView::Pair(parsed(trim(ttl), u64::MAX as int)),
            None => if l == "PAIR"@ {
                CommandView::Pair(None)
            } else {
                CommandView::Unknown
            },
        },
    }
}

/// The request on a line.
pub fn parse_command(line: &str) -> (c: Command)
    ensures
        c@ == command_of(line@),
{
    let l = trimmed(line);
    if let Some(uri) = without_prefix(l.as_str(), "CONNECT ") {
        return Command::Connect(uri);
    }
    if let Some(ttl) = without_prefix(l.as_str(), "PAIR ") {
        return Command::Pair(parse_u64(trimmed(ttl.as_str()).as_str()));
    }
    if same(l.as_str(), "PAIR") {
        return Command::Pair(None);
    }
    Command::Unknown
}

/// What came of a request.
#[derive(Debug)]
pub enum Outcome {
    /// The line could not be read.
    ReadFailed,
    Unknown,
    /// The URI is none.
    InvalidUri(String),
    /// Nobody takes pairings any more.
    ShuttingDown,
    Loaded,
    /// A pairing was made, with this URI.
    Paired(String),
}

/// The answer to a request.
pub fn reply(o: &Outcome) -> (r: String)
    ensures
        r@ == match *o {
            Outcome::ReadFailed => "ERR read failed\n"@,
            Outcome::Unknown => "ERR unknown command\n"@,
            Outcome::InvalidUri(m) => "ERR invalid URI: "@ + m@ + "\n"@,
            Outcome::ShuttingDown => "ERR daemon shutting down\n"@,
            Outcome::Loaded => "OK pairing loaded\n"@,
            Outcome::Paired(uri) => "OK "@ + uri@ + "\n"@,
        },
{
    match o {
        Outcome::ReadFailed => "ERR read failed\n".to_owned(),
        Outcome::Unknown => "ERR unknown command\n".to_owned(),
        Outcome::InvalidUri(m) => "ERR invalid URI: ".to_owned().concat(m.as_str()).concat("\n"),
        Outcome::ShuttingDown => "ERR daemon shutting down\n".to_owned(),
        Outcome::Loaded => "OK pairing loaded\n".to_owned(),
        Outcome::Paired(uri) => "OK ".to_owned().concat(uri.as_str()).concat("\n"),
    }
}

/// A line feed at the end of a text is trimmed, and nothing else of a text
/// without white space at its ends.
proof fn lemma_trim_line(s: Seq<char>)
    requires
        s.len() > 0,
        !is_space(s[0]),
        !is_space(s.last()),
    ensures
        trim(s + "\n"@) == s,
{
    reveal_strlit("\n");
    let t = s + "\n"@;
    assert(t[0] == s[0]);
    assert(trim_start(t) == t);
    assert(t.last() == '\n');
    assert(is_space('\n'));
    assert(t.drop_last() =~= s);
    assert(trim_end(s) == s);
}

/// What `wc connect` sends is understood: the daemon gets the URI as it was
/// given, unless white space stands at its end.
pub proof fn law_connect_is_understood(uri: Seq<char>)
    requires
        uri.len() > 0,
        !is_space(uri.last()),
    ensures
        command_of("CONNECT "@ + uri + "\n"@) == CommandView::Connect(uri),
{
    reveal_strlit("CONNECT ");
    let l = "CONNECT "@ + uri;
    assert(l[0] == 'C');
    assert(l.last() == uri.last());
    lemma_trim_line(l);
    assert("CONNECT "@.is_prefix_of(l)) by {
        assert(l.subrange(0, "CONNECT "@.len() as int) =~= "CONNECT "@);
    }
    assert(l.skip("CONNECT "@.len() as int) =~= uri);
}

/// What `wc pair` sends is understood: the daemon gets the lifetime that was
/// asked for.
pub proof fn law_pair_is_understood(ttl: u64)
    ensures
        command_of("PAIR "@ + decimal(ttl as int) + "\n"@) == CommandView::Pair(Some(ttl as int)),
{
    let d = decimal(ttl as int);
    crate::text::law_decimals_are_read_back(ttl as int, u64::MAX as int);
    crate::text::lemma_decimal_is_digits(ttl as int);
    assert(is_digit(d[0]));
    assert(is_digit(d[d.len() - 1]));
    reveal_strlit("PAIR ");
    reveal_strlit("CONNECT ");
    let l = "PAIR "@ + d;
    assert(l[0] == 'P');
    assert(l.last() == d.last());
    lemma_trim_line(l);
    assert("PAIR "@.is_prefix_of(l)) by {
        assert(l.subrange(0, "PAIR "@.len() as int) =~= "PAIR "@);
    }
    assert(l.skip("PAIR "@.len() as int) =~= d);
    assert(!"CONNECT "@.is_prefix_of(l)) by {
        if "CONNECT "@.is_prefix_of(l) {
            assert("CONNECT "@[0] == l.subrange(0, "CONNECT "@.len() as int)[0]);
        }
    }
    assert(trim_start(d) == d);
    assert(trim_end(d) == d);
}

/// What is read of the value in a contract is the value itself, each part under its
/// own name.
pub proof fn law_command_views_keep_each_value(x: Command)
    ensures
        x matches Command::Connect(s) ==> x@ == CommandView::Connect(s@),
        x matches Command::Pair(None) ==> x@ == CommandView::Pair(None),
        x matches Command::Pair(Some(n)) ==> x@ == CommandView::Pair(Some(n as int)),
        x is Unknown ==> x@ == CommandView::Unknown,
{
}

/// A line is a command exactly when it is `PAIR`, with or without a time, or `CONNECT`
/// with an address; the address and the time are what stands behind.
pub proof fn law_lines_are_commands(line: Seq<char>)
    ensures
        trim(line) == "PAIR"@ ==> command_of(line) == CommandView::Pair(None),
        "CONNECT "@.is_prefix_of(trim(line)) ==> command_of(line) == CommandView::Connect(
            trim(line).skip(8),
        ),
        "PAIR "@.is_prefix_of(trim(line)) ==> command_of(line) == CommandView::Pair(
            parsed(trim(trim(line).skip(5)), u64::MAX as int),
        ),
        command_of(line) is Unknown <==> trim(line) != "PAIR"@ && !"PAIR "@.is_prefix_of(trim(line))
            && !"CONNECT "@.is_prefix_of(trim(line)),
{
    reveal_strlit("PAIR");
    reveal_strlit("PAIR ");
    reveal_strlit("CONNECT ");
    let l = trim(line);
    if "CONNECT "@.is_prefix_of(l) {
        assert(l[0] == l.take(8)[0]);
    }
    if "PAIR "@.is_prefix_of(l) {
        assert(l[0] == l.take(5)[0]);
        assert("PAIR "@[0] == 'P' && "CONNECT "@[0] == 'C');
    }
}

} // verus!
