//! Client-side command parsing: the slash-command grammar a user types into
//! the terminal, and the line-to-command translation used by the client
//! before anything is put on the wire.

use vstd::prelude::*;
use vstd::string::StrSliceExecFns;
use vstd::string::StringExecFns;

use crate::communication::ChangeNameRequest;
use crate::communication::ClientMakeChatRoomRequest;
use crate::communication::ClientMessage;
use crate::communication::JoinChatRoomRequest;
use crate::communication::SendMessageRequest;

verus! {

/// The whitespace a line is trimmed of.
pub open spec fn is_space_char(c: char) -> bool {
    c == ' ' || c == '\t' || c == '\n' || c == '\r'
}

/// `s` without leading whitespace.
pub open spec fn trim_front(s: Seq<char>) -> Seq<char>
    decreases s.len(),
{
    if s.len() > 0 && is_space_char(s[0]) {
        trim_front(s.drop_first())
    } else {
        s
    }
}

/// `s` without trailing whitespace.
pub open spec fn trim_back(s: Seq<char>) -> Seq<char>
    decreases s.len(),
{
    if s.len() > 0 && is_space_char(s[s.len() - 1]) {
        trim_back(s.drop_last())
    } else {
        s
    }
}

/// `s` without leading and trailing whitespace.
pub open spec fn trim_spec(s: Seq<char>) -> Seq<char> {
    trim_back(trim_front(s))
}

proof fn lemma_trim_front_subrange(s: Seq<char>, k: int)
    requires
        0 <= k <= s.len(),
        forall|i: int| 0 <= i < k ==> is_space_char(s[i]),
        k < s.len() ==> !is_space_char(s[k]),
    ensures
        trim_front(s) == s.subrange(k, s.len() as int),
    decreases k,
{
    if k == 0 {
        assert(s.subrange(0, s.len() as int) =~= s);
    } else {
        assert(is_space_char(s[0]));
        let t = s.drop_first();
        assert(t =~= s.subrange(1, s.len() as int));
        assert forall|i: int| 0 <= i < k - 1 implies is_space_char(t[i]) by {
            assert(t[i] == s[i + 1]);
        }
        lemma_trim_front_subrange(t, k - 1);
        assert(t.subrange(k - 1, t.len() as int) =~= s.subrange(k, s.len() as int));
    }
}

proof fn lemma_trim_back_subrange(s: Seq<char>, k: int)
    requires
        0 <= k <= s.len(),
        forall|i: int| k <= i < s.len() ==> is_space_char(s[i]),
        k > 0 ==> !is_space_char(s[k - 1]),
    ensures
        trim_back(s) == s.subrange(0, k),
    decreases s.len(),
{
    if k == s.len() {
        assert(s.subrange(0, s.len() as int) =~= s);
    } else {
        assert(is_space_char(s[s.len() - 1]));
        let t = s.drop_last();
        assert(t =~= s.subrange(0, s.len() - 1));
        lemma_trim_back_subrange(t, k);
        assert(t.subrange(0, k) =~= s.subrange(0, k));
    }
}

/// Whether `c` counts as trimmable whitespace.
fn is_space(c: char) -> (r: bool)
    ensures
        r == is_space_char(c),
{
    c == ' ' || c == '\t' || c == '\n' || c == '\r'
}

/// The line without leading and trailing whitespace.
pub fn trim_line(s: &str) -> (r: String)
    ensures
        r@ == trim_spec(s@),
{
    let n = s.unicode_len();
    let mut start: usize = 0;
    while start < n && is_space(s.get_char(start))
        invariant
            0 <= start <= n,
            n == s@.len(),
            forall|i: int| 0 <= i < start ==> is_space_char(s@[i]),
        decreases n - start,
    {
        start = start + 1;
    }
    let mut end: usize = n;
    while end > start && is_space(s.get_char(end - 1))
        invariant
            start <= end <= n,
            n == s@.len(),
            forall|i: int| end <= i < n ==> is_space_char(s@[i]),
        decreases end,
    {
        end = end - 1;
    }
    let r = String::from_str(s.substring_char(start, end));
    proof {
        lemma_trim_front_subrange(s@, start as int);
        let t = s@.subrange(start as int, n as int);
        assert forall|i: int| (end - start) <= i < t.len() implies is_space_char(t[i]) by {
            assert(t[i] == s@[start + i]);
        }
        lemma_trim_back_subrange(t, end - start);
        assert(t.subrange(0, end - start) =~= s@.subrange(start as int, end as int));
    }
    r
}

/// Index of the first space in `s`, or its length when there is none.
pub open spec fn first_space(s: Seq<char>) -> nat
    decreases s.len(),
{
    if s.len() == 0 {
        0
    } else if s[0] == ' ' {
        0
    } else {
        (1 + first_space(s.drop_first())) as nat
    }
}

/// The space-separated tokens of `s`, in order; adjacent separators and edges
/// yield empty tokens, so there is always at least one token.
pub open spec fn split_spaces(s: Seq<char>) -> Seq<Seq<char>>
    decreases s.len(),
{
    let i = first_space(s) as int;
    if i >= s.len() {
        seq![s]
    } else {
        seq![s.subrange(0, i)] + split_spaces(s.subrange(i + 1, s.len() as int))
    }
}

proof fn lemma_first_space_is(s: Seq<char>, m: int)
    requires
        0 <= m <= s.len(),
        forall|k: int| 0 <= k < m ==> s[k] != ' ',
        m == s.len() || s[m] == ' ',
    ensures
        first_space(s) == m,
    decreases m,
{
    if m == 0 {
    } else {
        assert(s[0] != ' ');
        let t = s.drop_first();
        assert forall|k: int| 0 <= k < m - 1 implies t[k] != ' ' by {
            assert(t[k] == s[k + 1]);
        }
        if m < s.len() {
            assert(t[m - 1] == s[m]);
        }
        lemma_first_space_is(t, m - 1);
    }
}

/// The views of a sequence of strings.
pub open spec fn seq_views(v: Seq<String>) -> Seq<Seq<char>> {
    v.map(|i: int, s: String| s@)
}

/// The space-separated tokens of `s`, as owned strings.
pub fn split_on_spaces(s: &str) -> (r: Vec<String>)
    ensures
        seq_views(r@) == split_spaces(s@),
        r@.len() >= 1,
{
    let n = s.unicode_len();
    let mut out: Vec<String> = Vec::new();
    let mut start: usize = 0;
    let mut i: usize = 0;
    proof {
        assert(s@.subrange(0, n as int) =~= s@);
        assert(seq_views(out@) + split_spaces(s@.subrange(0, n as int)) =~= split_spaces(s@));
    }
    while i < n
        invariant
            0 <= start <= i <= n,
            n == s@.len(),
            forall|k: int| start <= k < i ==> s@[k] != ' ',
            split_spaces(s@) == seq_views(out@) + split_spaces(
                s@.subrange(start as int, n as int),
            ),
        decreases n - i,
    {
        if s.get_char(i) == ' ' {
            let token = String::from_str(s.substring_char(start, i));
            let ghost prev = out@;
            let ghost rest = s@.subrange(start as int, n as int);
            out.push(token);
            proof {
                assert forall|k: int| 0 <= k < i - start implies rest[k] != ' ' by {
                    assert(rest[k] == s@[start + k]);
                }
                assert(rest[i - start] == s@[i as int]);
                lemma_first_space_is(rest, i - start);
                assert(rest.subrange(0, i - start) =~= s@.subrange(start as int, i as int));
                assert(rest.subrange(i - start + 1, rest.len() as int) =~= s@.subrange(
                    i + 1,
                    n as int,
                ));
                assert(split_spaces(rest) == seq![s@.subrange(start as int, i as int)]
                    + split_spaces(s@.subrange(i + 1, n as int)));
                assert(seq_views(out@) =~= seq_views(prev).push(s@.subrange(
                    start as int,
                    i as int,
                )));
                assert(seq_views(out@) + split_spaces(s@.subrange(i + 1, n as int)) =~= seq_views(
                    prev,
                ) + split_spaces(rest));
            }
            start = i + 1;
        }
        i = i + 1;
    }
    let token = String::from_str(s.substring_char(start, n));
    let ghost prev = out@;
    let ghost rest = s@.subrange(start as int, n as int);
    out.push(token);
    proof {
        assert forall|k: int| 0 <= k < rest.len() implies rest[k] != ' ' by {
            assert(rest[k] == s@[start + k]);
        }
        lemma_first_space_is(rest, rest.len() as int);
        assert(split_spaces(rest) == seq![rest]);
        assert(seq_views(out@) =~= seq_views(prev).push(rest));
        assert(seq_views(out@) =~= split_spaces(s@));
    }
    out
}

/// Why a typed line was not a usable command.
#[derive(Clone, Copy, Debug, PartialEq, Eq, Structural)]
pub enum CommandError {
    /// No token at all was handed to the argument parser.
    NoArguments,
    /// The keyword wants an argument that was not given.
    MissingArgument,
    /// The keyword names no known command.
    NotACommand,
}

impl CommandError {
    /// A short human-readable description for the terminal.
    pub fn message(&self) -> (r: String)
        ensures
            *self is NoArguments ==> r@ == "expected args"@,
            *self is MissingArgument ==> r@ == "not enough args"@,
            *self is NotACommand ==> r@ == "Not a valid argument"@,
    {
        match self {
            CommandError::NoArguments => String::from_str("expected args"),
            CommandError::MissingArgument => String::from_str("not enough args"),
            CommandError::NotACommand => String::from_str("Not a valid argument"),
        }
    }
}

/// What a line of user input means, at the specification level.
pub enum ParsedLine {
    Make(Seq<char>),
    Join(Seq<char>),
    List,
    CName(Seq<char>),
    Help,
    Exit,
    Message(Seq<char>),
    Invalid(CommandError),
}

/// The slash-command grammar over a token list: the first token picks the
/// command, the second is its argument where one is needed.
pub open spec fn parse_arguments(args: Seq<Seq<char>>) -> ParsedLine {
    if args.len() == 0 {
        ParsedLine::Invalid(CommandError::NoArguments)
    } else if args[0] == "make"@ {
        if args.len() < 2 {
            ParsedLine::Invalid(CommandError::MissingArgument)
        } else {
            ParsedLine::Make(args[1])
        }
    } else if args[0] == "join"@ {
        if args.len() < 2 {
            ParsedLine::Invalid(CommandError::MissingArgument)
        } else {
            ParsedLine::Join(args[1])
        }
    } else if args[0] == "list"@ {
        ParsedLine::List
    } else if args[0] == "cname"@ {
        if args.len() < 2 {
            ParsedLine::Invalid(CommandError::MissingArgument)
        } else {
            ParsedLine::CName(args[1])
        }
    } else if args[0] == "help"@ {
        ParsedLine::Help
    } else if args[0] == "exit"@ {
        ParsedLine::Exit
    } else {
        ParsedLine::Invalid(CommandError::NotACommand)
    }
}

/// What one line of input asks the client to do: put a message on the wire,
/// or quit locally.
#[derive(Debug)]
pub enum UserInput {
    /// Send this to the server.
    Command(ClientMessage),
    /// Local only: end the client; never sent over the wire.
    Exit,
}

/// The parser's result carries exactly the meaning of the line.
pub open spec fn matches_parsed(r: Result<UserInput, CommandError>, p: ParsedLine) -> bool {
    match p {
        ParsedLine::Make(name) => (r matches Ok(
            UserInput::Command(ClientMessage::MakeChatRoom(q)),
        ) && q.name@ == name),
        ParsedLine::Join(name) => (r matches Ok(
            UserInput::Command(ClientMessage::JoinChatRoom(q)),
        ) && q.name@ == name),
        ParsedLine::List => r == Ok::<UserInput, CommandError>(
            UserInput::Command(ClientMessage::ListChatRooms()),
        ),
        ParsedLine::CName(name) => (r matches Ok(
            UserInput::Command(ClientMessage::ChangeName(q)),
        ) && q.new_name@ == name),
        ParsedLine::Help => r == Ok::<UserInput, CommandError>(
            UserInput::Command(ClientMessage::Help()),
        ),
        ParsedLine::Exit => r == Ok::<UserInput, CommandError>(UserInput::Exit),
        ParsedLine::Message(text) => (r matches Ok(
            UserInput::Command(ClientMessage::SendMessage(q)),
        ) && q.content@ == text),
        ParsedLine::Invalid(e) => r == Err::<UserInput, CommandError>(e),
    }
}

impl UserInput {
    /// Read a token list as a slash command: the first token picks the
    /// command, the second is its argument where one is needed.
    pub fn from_arguments(arguments: Vec<String>) -> (r: Result<UserInput, CommandError>)
        ensures
            matches_parsed(r, parse_arguments(seq_views(arguments@))),
    {
        if arguments.len() == 0 {
            return Err(CommandError::NoArguments);
        }
        if arguments[0] == String::from_str("make") {
            if arguments.len() < 2 {
                Err(CommandError::MissingArgument)
            } else {
                Ok(
                    UserInput::Command(
                        ClientMessage::MakeChatRoom(
                            ClientMakeChatRoomRequest { name: arguments[1].clone() },
                        ),
                    ),
                )
            }
        } else if arguments[0] == String::from_str("join") {
            if arguments.len() < 2 {
                Err(CommandError::MissingArgument)
            } else {
                Ok(
                    UserInput::Command(
                        ClientMessage::JoinChatRoom(
                            JoinChatRoomRequest { name: arguments[1].clone() },
                        ),
                    ),
                )
            }
        } else if arguments[0] == String::from_str("list") {
            Ok(UserInput::Command(ClientMessage::ListChatRooms()))
        } else if arguments[0] == String::from_str("cname") {
            if arguments.len() < 2 {
                Err(CommandError::MissingArgument)
            } else {
                Ok(
                    UserInput::Command(
                        ClientMessage::ChangeName(
                            ChangeNameRequest { new_name: arguments[1].clone() },
                        ),
                    ),
                )
            }
        } else if arguments[0] == String::from_str("help") {
            Ok(UserInput::Command(ClientMessage::Help()))
        } else if arguments[0] == String::from_str("exit") {
            Ok(UserInput::Exit)
        } else {
            Err(CommandError::NotACommand)
        }
    }

    /// Read one typed line: a line opening with `/` is a slash command over
    /// the trimmed rest, anything else is the trimmed line as a message.
    pub fn from_line(line: String) -> (r: Result<UserInput, CommandError>)
        ensures
            line@.len() > 0 && line@[0] == '/' ==> matches_parsed(
                r,
                parse_arguments(
                    split_spaces(
                        trim_spec(line@).subrange(1, trim_spec(line@).len() as int),
                    ),
                ),
            ),
            !(line@.len() > 0 && line@[0] == '/') ==> matches_parsed(
                r,
                ParsedLine::Message(trim_spec(line@)),
            ),
    {
        if is_command(line.clone()) {
            let trimmed = trim_line(line.as_str());
            proof {
                assert(trim_front(line@) == line@);
                lemma_trim_back_keeps_head(line@);
                assert(trimmed@.len() > 0 && trimmed@[0] == '/');
            }
            let rest = crop_letters(trimmed.as_str(), 1);
            proof {
                if trimmed@.len() == 1 {
                    assert(trimmed@.subrange(1, trimmed@.len() as int) =~= Seq::<char>::empty());
                }
                assert(rest@ == trim_spec(line@).subrange(1, trim_spec(line@).len() as int));
            }
            let args = split_on_spaces(rest);
            UserInput::from_arguments(args)
        } else {
            let trimmed = trim_line(line.as_str());
            Ok(UserInput::Command(ClientMessage::SendMessage(SendMessageRequest::new(trimmed))))
        }
    }
}

/// Trimming at the back keeps a non-whitespace head in place.
proof fn lemma_trim_back_keeps_head(s: Seq<char>)
    requires
        s.len() > 0,
        !is_space_char(s[0]),
    ensures
        trim_back(s).len() > 0,
        trim_back(s)[0] == s[0],
    decreases s.len(),
{
    if s.len() > 0 && is_space_char(s[s.len() - 1]) {
        lemma_trim_back_keeps_head(s.drop_last());
    }
}

/// Whether the typed line is a slash command rather than a plain message.
pub fn is_command(line: String) -> (r: bool)
    ensures
        r == (line@.len() > 0 && line@[0] == '/'),
{
    let n = line.as_str().unicode_len();
    if n == 0 {
        false
    } else {
        line.as_str().get_char(0) == '/'
    }
}

/// The characters of `s` from position `pos` on; empty when `s` is shorter.
pub fn crop_letters<'a>(s: &'a str, pos: usize) -> (r: &'a str)
    ensures
        (pos as int) < s@.len() ==> r@ == s@.subrange(pos as int, s@.len() as int),
        (pos as int) >= s@.len() ==> r@ == Seq::<char>::empty(),
{
    let n = s.unicode_len();
    if pos < n {
        s.substring_char(pos, n)
    } else {
        proof {
            reveal_strlit("");
        }
        ""
    }
}

/// Ask for the list of rooms.
#[derive(Debug)]
pub struct ListChatRoomsCommand {}

/// Create the named room.
#[derive(Debug)]
pub struct MakeChatRoomCommand {
    pub room_name: String,
}

/// Subscribe to the named room.
#[derive(Debug)]
pub struct JoinChatRoomCommand {
    pub room_name: String,
}

/// A typed line of the line-oriented client: a room command, or plain text
/// to be sent as a message.
#[derive(Debug)]
pub enum Command {
    ListChatRooms(ListChatRoomsCommand),
    JoinChatRoom(JoinChatRoomCommand),
    MakeChatRoom(MakeChatRoomCommand),
    Message(String),
}

/// The keywords `Command::from_arguments` understands.
pub open spec fn known_command_keyword(kw: Seq<char>) -> bool {
    kw == "make"@ || kw == "list"@ || kw == "join"@
}

impl Command {
    /// Read a token list: `make` and `join` take the room name as their
    /// argument, `list` stands alone.
    pub fn from_arguments(arguments: Vec<String>) -> (r: Result<Command, CommandError>)
        requires
            arguments@.len() > 0,
            known_command_keyword(arguments@[0]@),
        ensures
            arguments@[0]@ == "make"@ ==> if arguments@.len() < 2 {
                r == Err::<Command, CommandError>(CommandError::MissingArgument)
            } else {
                (r matches Ok(Command::MakeChatRoom(c)) && c.room_name@ == arguments@[1]@)
            },
            arguments@[0]@ == "join"@ ==> if arguments@.len() < 2 {
                r == Err::<Command, CommandError>(CommandError::MissingArgument)
            } else {
                (r matches Ok(Command::JoinChatRoom(c)) && c.room_name@ == arguments@[1]@)
            },
            arguments@[0]@ == "list"@ ==> r == Ok::<Command, CommandError>(
                Command::ListChatRooms(ListChatRoomsCommand {}),
            ),
    {
        proof {
            reveal_strlit("make");
            reveal_strlit("list");
            reveal_strlit("join");
            assert("make"@[0] == 'm');
            assert("list"@[0] == 'l');
            assert("join"@[0] == 'j');
        }
        if arguments[0] == String::from_str("make") {
            if arguments.len() < 2 {
                Err(CommandError::MissingArgument)
            } else {
                Ok(Command::MakeChatRoom(MakeChatRoomCommand { room_name: arguments[1].clone() }))
            }
        } else if arguments[0] == String::from_str("list") {
            Ok(Command::ListChatRooms(ListChatRoomsCommand {}))
        } else {
            if arguments.len() < 2 {
                Err(CommandError::MissingArgument)
            } else {
                Ok(Command::JoinChatRoom(JoinChatRoomCommand { room_name: arguments[1].clone() }))
            }
        }
    }

    /// Read one raw line: a line opening with `/` is split into tokens and
    /// read as a command, anything else is the line itself as a message.
    pub fn new(line: String) -> (r: Result<Command, CommandError>)
        requires
            line@.len() > 0 && line@[0] == '/' ==> known_command_keyword(
                split_spaces(line@.subrange(1, line@.len() as int))[0],
            ),
        ensures
            line@.len() > 0 && line@[0] == '/' ==> {
                let toks = split_spaces(line@.subrange(1, line@.len() as int));
                &&& toks[0] == "make"@ ==> if toks.len() < 2 {
                    r == Err::<Command, CommandError>(CommandError::MissingArgument)
                } else {
                    (r matches Ok(Command::MakeChatRoom(c)) && c.room_name@ == toks[1])
                }
                &&& toks[0] == "join"@ ==> if toks.len() < 2 {
                    r == Err::<Command, CommandError>(CommandError::MissingArgument)
                } else {
                    (r matches Ok(Command::JoinChatRoom(c)) && c.room_name@ == toks[1])
                }
                &&& toks[0] == "list"@ ==> r == Ok::<Command, CommandError>(
                    Command::ListChatRooms(ListChatRoomsCommand {}),
                )
            },
            !(line@.len() > 0 && line@[0] == '/') ==> (r matches Ok(Command::Message(m)) && m
                == line),
    {
        if is_command(line.clone()) {
            let rest = crop_letters(line.as_str(), 1);
            proof {
                if line@.len() == 1 {
                    assert(line@.subrange(1, line@.len() as int) =~= Seq::<char>::empty());
                }
            }
            let args = split_on_spaces(rest);
            Command::from_arguments(args)
        } else {
            Ok(Command::Message(line))
        }
    }
}

} // verus!
