//! Commands of the control connection and the parser of command lines.
use vstd::prelude::*;
use crate::reply::Reply;
use crate::reply_code::ReplyCode;
use crate::text::{str_to_chars, string_from_chars};

verus! {

/// The commands the server knows by name.
#[derive(Clone, Copy, Debug, PartialEq, Eq, Structural, Hash)]
pub enum Commands {
    Abor,
    Auth,
    Cdup,
    Cwd,
    Dele,
    Feat,
    List,
    Mfct,
    Mfmt,
    Mkd,
    Mlsd,
    Nlst,
    Noop,
    Opts,
    Pass,
    Pasv,
    Pbsz,
    Prot,
    Pwd,
    Rest,
    Retr,
    Rmd,
    Rmda,
    Stor,
    Syst,
    Type,
    User,
}

/// The name of a command, in upper case.
pub open spec fn command_name(c: Commands) -> Seq<char> {
    match c {
        Commands::Abor => seq!['A', 'B', 'O', 'R'],
        Commands::Auth => seq!['A', 'U', 'T', 'H'],
        Commands::Cdup => seq!['C', 'D', 'U', 'P'],
        Commands::Cwd => seq!['C', 'W', 'D'],
        Commands::Dele => seq!['D', 'E', 'L', 'E'],
        Commands::Feat => seq!['F', 'E', 'A', 'T'],
        Commands::List => seq!['L', 'I', 'S', 'T'],
        Commands::Mfct => seq!['M', 'F', 'C', 'T'],
        Commands::Mfmt => seq!['M', 'F', 'M', 'T'],
        Commands::Mkd => seq!['M', 'K', 'D'],
        Commands::Mlsd => seq!['M', 'L', 'S', 'D'],
        Commands::Nlst => seq!['N', 'L', 'S', 'T'],
        Commands::Noop => seq!['N', 'O', 'O', 'P'],
        Commands::Opts => seq!['O', 'P', 'T', 'S'],
        Commands::Pass => seq!['P', 'A', 'S', 'S'],
        Commands::Pasv => seq!['P', 'A', 'S', 'V'],
        Commands::Pbsz => seq!['P', 'B', 'S', 'Z'],
        Commands::Prot => seq!['P', 'R', 'O', 'T'],
        Commands::Pwd => seq!['P', 'W', 'D'],
        Commands::Rest => seq!['R', 'E', 'S', 'T'],
        Commands::Retr => seq!['R', 'E', 'T', 'R'],
        Commands::Rmd => seq!['R', 'M', 'D'],
        Commands::Rmda => seq!['R', 'M', 'D', 'A'],
        Commands::Stor => seq!['S', 'T', 'O', 'R'],
        Commands::Syst => seq!['S', 'Y', 'S', 'T'],
        Commands::Type => seq!['T', 'Y', 'P', 'E'],
        Commands::User => seq!['U', 'S', 'E', 'R'],
    }
}

/// Two characters are equal ignoring ASCII case, the second being an
/// upper-case letter or another character that has no case.
pub open spec fn ascii_ci_char_eq(a: char, upper: char) -> bool {
    a == upper || ('A' <= upper <= 'Z' && (a as u32) == (upper as u32) + 32)
}

/// The text equals the upper-case name ignoring ASCII case.
pub open spec fn ascii_ci_eq(s: Seq<char>, upper: Seq<char>) -> bool {
    &&& s.len() == upper.len()
    &&& forall|i: int| 0 <= i < s.len() ==> ascii_ci_char_eq(#[trigger] s[i], upper[i])
}

/// The command a name stands for, ignoring ASCII case.
pub open spec fn command_of_name(s: Seq<char>) -> Option<Commands> {
    if ascii_ci_eq(s, command_name(Commands::Abor)) {
        Some(Commands::Abor)
    } else if ascii_ci_eq(s, command_name(Commands::Auth)) {
        Some(Commands::Auth)
    } else if ascii_ci_eq(s, command_name(Commands::Cdup)) {
        Some(Commands::Cdup)
    } else if ascii_ci_eq(s, command_name(Commands::Cwd)) {
        Some(Commands::Cwd)
    } else if ascii_ci_eq(s, command_name(Commands::Dele)) {
        Some(Commands::Dele)
    } else if ascii_ci_eq(s, command_name(Commands::Feat)) {
        Some(Commands::Feat)
    } else if ascii_ci_eq(s, command_name(Commands::List)) {
        Some(Commands::List)
    } else if ascii_ci_eq(s, command_name(Commands::Mfct)) {
        Some(Commands::Mfct)
    } else if ascii_ci_eq(s, command_name(Commands::Mfmt)) {
        Some(Commands::Mfmt)
    } else if ascii_ci_eq(s, command_name(Commands::Mkd)) {
        Some(Commands::Mkd)
    } else if ascii_ci_eq(s, command_name(Commands::Mlsd)) {
        Some(Commands::Mlsd)
    } else if ascii_ci_eq(s, command_name(Commands::Nlst)) {
        Some(Commands::Nlst)
    } else if ascii_ci_eq(s, command_name(Commands::Noop)) {
        Some(Commands::Noop)
    } else if ascii_ci_eq(s, command_name(Commands::Opts)) {
        Some(Commands::Opts)
    } else if ascii_ci_eq(s, command_name(Commands::Pass)) {
        Some(Commands::Pass)
    } else if ascii_ci_eq(s, command_name(Commands::Pasv)) {
        Some(Commands::Pasv)
    } else if ascii_ci_eq(s, command_name(Commands::Pbsz)) {
        Some(Commands::Pbsz)
    } else if ascii_ci_eq(s, command_name(Commands::Prot)) {
        Some(Commands::Prot)
    } else if ascii_ci_eq(s, command_name(Commands::Pwd)) {
        Some(Commands::Pwd)
    } else if ascii_ci_eq(s, command_name(Commands::Rest)) {
        Some(Commands::Rest)
    } else if ascii_ci_eq(s, command_name(Commands::Retr)) {
        Some(Commands::Retr)
    } else if ascii_ci_eq(s, command_name(Commands::Rmd)) {
        Some(Commands::Rmd)
    } else if ascii_ci_eq(s, command_name(Commands::Rmda)) {
        Some(Commands::Rmda)
    } else if ascii_ci_eq(s, command_name(Commands::Stor)) {
        Some(Commands::Stor)
    } else if ascii_ci_eq(s, command_name(Commands::Syst)) {
        Some(Commands::Syst)
    } else if ascii_ci_eq(s, command_name(Commands::Type)) {
        Some(Commands::Type)
    } else if ascii_ci_eq(s, command_name(Commands::User)) {
        Some(Commands::User)
    } else {
        None
    }
}

fn name_chars(c: Commands) -> (v: Vec<char>)
    ensures
        v@ == command_name(c),
{
    match c {
        Commands::Abor => vec!['A', 'B', 'O', 'R'],
        Commands::Auth => vec!['A', 'U', 'T', 'H'],
        Commands::Cdup => vec!['C', 'D', 'U', 'P'],
        Commands::Cwd => vec!['C', 'W', 'D'],
        Commands::Dele => vec!['D', 'E', 'L', 'E'],
        Commands::Feat => vec!['F', 'E', 'A', 'T'],
        Commands::List => vec!['L', 'I', 'S', 'T'],
        Commands::Mfct => vec!['M', 'F', 'C', 'T'],
        Commands::Mfmt => vec!['M', 'F', 'M', 'T'],
        Commands::Mkd => vec!['M', 'K', 'D'],
        Commands::Mlsd => vec!['M', 'L', 'S', 'D'],
        Commands::Nlst => vec!['N', 'L', 'S', 'T'],
        Commands::Noop => vec!['N', 'O', 'O', 'P'],
        Commands::Opts => vec!['O', 'P', 'T', 'S'],
        Commands::Pass => vec!['P', 'A', 'S', 'S'],
        Commands::Pasv => vec!['P', 'A', 'S', 'V'],
        Commands::Pbsz => vec!['P', 'B', 'S', 'Z'],
        Commands::Prot => vec!['P', 'R', 'O', 'T'],
        Commands::Pwd => vec!['P', 'W', 'D'],
        Commands::Rest => vec!['R', 'E', 'S', 'T'],
        Commands::Retr => vec!['R', 'E', 'T', 'R'],
        Commands::Rmd => vec!['R', 'M', 'D'],
        Commands::Rmda => vec!['R', 'M', 'D', 'A'],
        Commands::Stor => vec!['S', 'T', 'O', 'R'],
        Commands::Syst => vec!['S', 'Y', 'S', 'T'],
        Commands::Type => vec!['T', 'Y', 'P', 'E'],
        Commands::User => vec!['U', 'S', 'E', 'R'],
    }
}

fn ascii_ci_eq_exec(s: &[char], upper: &[char]) -> (b: bool)
    ensures
        b == ascii_ci_eq(s@, upper@),
{
    if s.len() != upper.len() {
        return false;
    }
    let mut i: usize = 0;
    while i < s.len()
        invariant
            i <= s.len(),
            s.len() == upper.len(),
            forall|k: int| 0 <= k < i ==> ascii_ci_char_eq(#[trigger] s@[k], upper@[k]),
        decreases s.len() - i,
    {
        let a = s[i];
        let u = upper[i];
        let ok = a == u || ('A' <= u && u <= 'Z' && (a as u32) == (u as u32) + 32);
        if !ok {
            assert(!ascii_ci_char_eq(s@[i as int], upper@[i as int]));
            return false;
        }
        i = i + 1;
    }
    true
}

fn name_matches(s: &[char], c: Commands) -> (b: bool)
    ensures
        b == ascii_ci_eq(s@, command_name(c)),
{
    let n = name_chars(c);
    ascii_ci_eq_exec(s, n.as_slice())
}

impl Commands {
    /// The command a name stands for, ignoring ASCII case.
    pub fn from_name(s: &[char]) -> (r: Option<Commands>)
        ensures
            r == command_of_name(s@),
    {
        if name_matches(s, Commands::Abor) {
            Some(Commands::Abor)
        } else if name_matches(s, Commands::Auth) {
            Some(Commands::Auth)
        } else if name_matches(s, Commands::Cdup) {
            Some(Commands::Cdup)
        } else if name_matches(s, Commands::Cwd) {
            Some(Commands::Cwd)
        } else if name_matches(s, Commands::Dele) {
            Some(Commands::Dele)
        } else if name_matches(s, Commands::Feat) {
            Some(Commands::Feat)
        } else if name_matches(s, Commands::List) {
            Some(Commands::List)
        } else if name_matches(s, Commands::Mfct) {
            Some(Commands::Mfct)
        } else if name_matches(s, Commands::Mfmt) {
            Some(Commands::Mfmt)
        } else if name_matches(s, Commands::Mkd) {
            Some(Commands::Mkd)
        } else if name_matches(s, Commands::Mlsd) {
            Some(Commands::Mlsd)
        } else if name_matches(s, Commands::Nlst) {
            Some(Commands::Nlst)
        } else if name_matches(s, Commands::Noop) {
            Some(Commands::Noop)
        } else if name_matches(s, Commands::Opts) {
            Some(Commands::Opts)
        } else if name_matches(s, Commands::Pass) {
            Some(Commands::Pass)
        } else if name_matches(s, Commands::Pasv) {
            Some(Commands::Pasv)
        } else if name_matches(s, Commands::Pbsz) {
            Some(Commands::Pbsz)
        } else if name_matches(s, Commands::Prot) {
            Some(Commands::Prot)
        } else if name_matches(s, Commands::Pwd) {
            Some(Commands::Pwd)
        } else if name_matches(s, Commands::Rest) {
            Some(Commands::Rest)
        } else if name_matches(s, Commands::Retr) {
            Some(Commands::Retr)
        } else if name_matches(s, Commands::Rmd) {
            Some(Commands::Rmd)
        } else if name_matches(s, Commands::Rmda) {
            Some(Commands::Rmda)
        } else if name_matches(s, Commands::Stor) {
            Some(Commands::Stor)
        } else if name_matches(s, Commands::Syst) {
            Some(Commands::Syst)
        } else if name_matches(s, Commands::Type) {
            Some(Commands::Type)
        } else if name_matches(s, Commands::User) {
            Some(Commands::User)
        } else {
            None
        }
    }

    /// Whether the server carries this command out; the others are answered
    /// with "command not implemented".
    pub fn is_implemented(&self) -> (b: bool)
        ensures
            b == command_implemented(*self),
    {
        match self {
            Commands::Abor => false,
            Commands::Auth => false,
            Commands::Cdup => true,
            Commands::Cwd => true,
            Commands::Dele => true,
            Commands::Feat => true,
            Commands::List => true,
            Commands::Mfct => false,
            Commands::Mfmt => false,
            Commands::Mkd => true,
            Commands::Mlsd => true,
            Commands::Nlst => true,
            Commands::Noop => true,
            Commands::Opts => false,
            Commands::Pass => true,
            Commands::Pasv => true,
            Commands::Pbsz => true,
            Commands::Prot => true,
            Commands::Pwd => true,
            Commands::Rest => true,
            Commands::Retr => true,
            Commands::Rmd => true,
            Commands::Rmda => true,
            Commands::Stor => true,
            Commands::Syst => true,
            Commands::Type => true,
            Commands::User => true,
        }
    }
}

/// The commands the server carries out.
pub open spec fn command_implemented(c: Commands) -> bool {
    match c {
        Commands::Abor => false,
        Commands::Auth => false,
        Commands::Cdup => true,
        Commands::Cwd => true,
        Commands::Dele => true,
        Commands::Feat => true,
        Commands::List => true,
        Commands::Mfct => false,
        Commands::Mfmt => false,
        Commands::Mkd => true,
        Commands::Mlsd => true,
        Commands::Nlst => true,
        Commands::Noop => true,
        Commands::Opts => false,
        Commands::Pass => true,
        Commands::Pasv => true,
        Commands::Pbsz => true,
        Commands::Prot => true,
        Commands::Pwd => true,
        Commands::Rest => true,
        Commands::Retr => true,
        Commands::Rmd => true,
        Commands::Rmda => true,
        Commands::Stor => true,
        Commands::Syst => true,
        Commands::Type => true,
        Commands::User => true,
    }
}

/// Every command's name reads back as that command.
pub proof fn lemma_command_of_own_name(c: Commands)
    ensures
        command_of_name(command_name(c)) == Some(c),
{
    assert(ascii_ci_eq(command_name(c), command_name(c)));
}

/// The five commands the server answers with "command not implemented";
/// every other command is carried out.
pub proof fn lemma_commands_not_carried_out(c: Commands)
    ensures
        !command_implemented(c) <==> (c == Commands::Abor || c == Commands::Auth || c == Commands::Mfct
            || c == Commands::Mfmt || c == Commands::Opts),
{
}

proof fn lemma_keyword_line(c: Commands, keyword: Seq<char>, argument: Seq<char>)
    requires
        keyword =~= command_name(c),
        argument.len() == 0 || (argument.last() != '\n' && argument.last() != '\r'),
    ensures
        parse_command_line(keyword + seq![' '] + argument + seq!['\r', '\n']) == Some((c, argument)),
{
    lemma_command_line_parses_back(c, argument);
}

/// Each command is named by its FTP keyword: a line holding the keyword, a
/// space, any argument that does not end in a line break, and CR LF reads as
/// that command with that argument.
pub proof fn lemma_ftp_keywords(c: Commands, argument: Seq<char>)
    requires
        argument.len() == 0 || (argument.last() != '\n' && argument.last() != '\r'),
    ensures
        parse_command_line(match c {
            Commands::Abor => "ABOR"@,
            Commands::Auth => "AUTH"@,
            Commands::Cdup => "CDUP"@,
            Commands::Cwd => "CWD"@,
            Commands::Dele => "DELE"@,
            Commands::Feat => "FEAT"@,
            Commands::List => "LIST"@,
            Commands::Mfct => "MFCT"@,
            Commands::Mfmt => "MFMT"@,
            Commands::Mkd => "MKD"@,
            Commands::Mlsd => "MLSD"@,
            Commands::Nlst => "NLST"@,
            Commands::Noop => "NOOP"@,
            Commands::Opts => "OPTS"@,
            Commands::Pass => "PASS"@,
            Commands::Pasv => "PASV"@,
            Commands::Pbsz => "PBSZ"@,
            Commands::Prot => "PROT"@,
            Commands::Pwd => "PWD"@,
            Commands::Rest => "REST"@,
            Commands::Retr => "RETR"@,
            Commands::Rmd => "RMD"@,
            Commands::Rmda => "RMDA"@,
            Commands::Stor => "STOR"@,
            Commands::Syst => "SYST"@,
            Commands::Type => "TYPE"@,
            Commands::User => "USER"@,
        } + seq![' '] + argument + seq!['\r', '\n']) == Some((c, argument)),
{
    match c {
        Commands::Abor => {
            reveal_strlit("ABOR");
            lemma_keyword_line(c, "ABOR"@, argument);
        },
        Commands::Auth => {
            reveal_strlit("AUTH");
            lemma_keyword_line(c, "AUTH"@, argument);
        },
        Commands::Cdup => {
            reveal_strlit("CDUP");
            lemma_keyword_line(c, "CDUP"@, argument);
        },
        Commands::Cwd => {
            reveal_strlit("CWD");
            lemma_keyword_line(c, "CWD"@, argument);
        },
        Commands::Dele => {
            reveal_strlit("DELE");
            lemma_keyword_line(c, "DELE"@, argument);
        },
        Commands::Feat => {
            reveal_strlit("FEAT");
            lemma_keyword_line(c, "FEAT"@, argument);
        },
        Commands::List => {
            reveal_strlit("LIST");
            lemma_keyword_line(c, "LIST"@, argument);
        },
        Commands::Mfct => {
            reveal_strlit("MFCT");
            lemma_keyword_line(c, "MFCT"@, argument);
        },
        Commands::Mfmt => {
            reveal_strlit("MFMT");
            lemma_keyword_line(c, "MFMT"@, argument);
        },
        Commands::Mkd => {
            reveal_strlit("MKD");
            lemma_keyword_line(c, "MKD"@, argument);
        },
        Commands::Mlsd => {
            reveal_strlit("MLSD");
            lemma_keyword_line(c, "MLSD"@, argument);
        },
        Commands::Nlst => {
            reveal_strlit("NLST");
            lemma_keyword_line(c, "NLST"@, argument);
        },
        Commands::Noop => {
            reveal_strlit("NOOP");
            lemma_keyword_line(c, "NOOP"@, argument);
        },
        Commands::Opts => {
            reveal_strlit("OPTS");
            lemma_keyword_line(c, "OPTS"@, argument);
        },
        Commands::Pass => {
            reveal_strlit("PASS");
            lemma_keyword_line(c, "PASS"@, argument);
        },
        Commands::Pasv => {
            reveal_strlit("PASV");
            lemma_keyword_line(c, "PASV"@, argument);
        },
        Commands::Pbsz => {
            reveal_strlit("PBSZ");
            lemma_keyword_line(c, "PBSZ"@, argument);
        },
        Commands::Prot => {
            reveal_strlit("PROT");
            lemma_keyword_line(c, "PROT"@, argument);
        },
        Commands::Pwd => {
            reveal_strlit("PWD");
            lemma_keyword_line(c, "PWD"@, argument);
        },
        Commands::Rest => {
            reveal_strlit("REST");
            lemma_keyword_line(c, "REST"@, argument);
        },
        Commands::Retr => {
            reveal_strlit("RETR");
            lemma_keyword_line(c, "RETR"@, argument);
        },
        Commands::Rmd => {
            reveal_strlit("RMD");
            lemma_keyword_line(c, "RMD"@, argument);
        },
        Commands::Rmda => {
            reveal_strlit("RMDA");
            lemma_keyword_line(c, "RMDA"@, argument);
        },
        Commands::Stor => {
            reveal_strlit("STOR");
            lemma_keyword_line(c, "STOR"@, argument);
        },
        Commands::Syst => {
            reveal_strlit("SYST");
            lemma_keyword_line(c, "SYST"@, argument);
        },
        Commands::Type => {
            reveal_strlit("TYPE");
            lemma_keyword_line(c, "TYPE"@, argument);
        },
        Commands::User => {
            reveal_strlit("USER");
            lemma_keyword_line(c, "USER"@, argument);
        },
    }
}

/// A command and its argument.
#[derive(Clone, Debug, PartialEq)]
pub struct Command {
    pub command: Commands,
    pub argument: String,
}

/// Why a command line could not be read.
#[derive(Clone, Copy, Debug, PartialEq, Eq, Structural)]
pub enum CommandParseError {
    /// The first word is not the name of a known command.
    UnknownCommand,
}

/// The text without trailing line feeds and carriage returns, as
/// `trim_end_matches(|c| c == '\n' || c == '\r')` gives it.
pub open spec fn trim_line_end(s: Seq<char>) -> Seq<char>
    decreases s.len(),
{
    if s.len() > 0 && (s.last() == '\n' || s.last() == '\r') {
        trim_line_end(s.drop_last())
    } else {
        s
    }
}

/// The index of the first space, if there is one.
pub open spec fn index_of_space(s: Seq<char>) -> Option<nat>
    decreases s.len(),
{
    if s.len() == 0 {
        None
    } else if s[0] == ' ' {
        Some(0)
    } else {
        match index_of_space(s.drop_first()) {
            Some(i) => Some(i + 1),
            None => None,
        }
    }
}

/// The command and argument a line stands for: line breaks at the end are
/// dropped, the text up to the first space names the command (ignoring ASCII
/// case) and the rest after that space is the argument.
pub open spec fn parse_command_line(s: Seq<char>) -> Option<(Commands, Seq<char>)> {
    let t = trim_line_end(s);
    let name = match index_of_space(t) {
        Some(i) => t.take(i as int),
        None => t,
    };
    let argument = match index_of_space(t) {
        Some(i) => t.skip(i as int + 1),
        None => Seq::<char>::empty(),
    };
    match command_of_name(name) {
        Some(c) => Some((c, argument)),
        None => None,
    }
}

pub proof fn lemma_index_of_space_found(s: Seq<char>, i: int)
    requires
        0 <= i < s.len(),
        s[i] == ' ',
        forall|k: int| 0 <= k < i ==> #[trigger] s[k] != ' ',
    ensures
        index_of_space(s) == Some(i as nat),
    decreases i,
{
    if i > 0 {
        assert forall|k: int| 0 <= k < i - 1 implies #[trigger] s.drop_first()[k] != ' ' by {
            assert(s.drop_first()[k] == s[k + 1]);
        }
        lemma_index_of_space_found(s.drop_first(), i - 1);
    }
}

pub proof fn lemma_index_of_space_none(s: Seq<char>)
    requires
        forall|k: int| 0 <= k < s.len() ==> #[trigger] s[k] != ' ',
    ensures
        index_of_space(s) is None,
    decreases s.len(),
{
    if s.len() > 0 {
        assert forall|k: int| 0 <= k < s.len() - 1 implies #[trigger] s.drop_first()[k] != ' ' by {
            assert(s.drop_first()[k] == s[k + 1]);
        }
        lemma_index_of_space_none(s.drop_first());
    }
}

impl Command {
    /// A command with the given argument.
    pub fn new(command: Commands, argument: &str) -> (r: Command)
        ensures
            r.command == command,
            r.argument@ == argument@,
    {
        let chars = str_to_chars(argument);
        Command { command, argument: string_from_chars(chars.as_slice()) }
    }

    /// Reads a command line.
    pub fn from_str(message: &str) -> (r: Result<Command, CommandParseError>)
        ensures
            r matches Ok(cmd) ==> parse_command_line(message@) == Some((cmd.command, cmd.argument@)),
            r is Err ==> parse_command_line(message@) is None,
    {
        let chars = str_to_chars(message);
        let mut n: usize = chars.len();
        assert(chars@.take(n as int) =~= chars@);
        while n > 0 && (chars[n - 1] == '\n' || chars[n - 1] == '\r')
            invariant
                n <= chars.len(),
                trim_line_end(chars@.take(n as int)) == trim_line_end(message@),
            decreases n,
        {
            assert(chars@.take(n as int).drop_last() =~= chars@.take(n - 1));
            n = n - 1;
        }
        let ghost t = chars@.take(n as int);
        assert(trim_line_end(message@) == t);
        let mut i: usize = 0;
        while i < n && chars[i] != ' '
            invariant
                i <= n <= chars.len(),
                forall|k: int| 0 <= k < i ==> #[trigger] chars@[k] != ' ',
            decreases n - i,
        {
            i = i + 1;
        }
        let name_end = i;
        let arg_start = if i < n { i + 1 } else { n };
        proof {
            if i < n {
                assert forall|k: int| 0 <= k < i implies #[trigger] t[k] != ' ' by {
                    assert(t[k] == chars@[k]);
                }
                lemma_index_of_space_found(t, i as int);
            } else {
                assert forall|k: int| 0 <= k < t.len() implies #[trigger] t[k] != ' ' by {
                    assert(t[k] == chars@[k]);
                }
                lemma_index_of_space_none(t);
            }
        }
        let name = crate::reply::sub_chars(chars.as_slice(), 0, name_end);
        let arg = crate::reply::sub_chars(chars.as_slice(), arg_start, n);
        assert(i < n ==> name@ =~= t.take(i as int) && arg@ =~= t.skip(i + 1));
        assert(i >= n ==> name@ =~= t && arg@ =~= Seq::<char>::empty());
        match Commands::from_name(name.as_slice()) {
            Some(c) => Ok(Command { command: c, argument: string_from_chars(arg.as_slice()) }),
            None => Err(CommandParseError::UnknownCommand),
        }
    }

    /// The reply to a command that the server does not carry out, if this is one.
    pub fn not_implemented_reply(&self) -> (r: Option<Reply>)
        ensures
            r is Some <==> !command_implemented(self.command),
            r matches Some(reply) ==> reply@ == (ReplyCode::CommandNotImplemented, seq!["Command not implemented!"@]),
    {
        if self.command.is_implemented() {
            None
        } else {
            Some(Reply::new(ReplyCode::CommandNotImplemented, "Command not implemented!"))
        }
    }
}

#[verifier::spinoff_prover]
proof fn lemma_line_with_argument_parses_back(c: Commands, argument: Seq<char>)
    requires
        argument.len() == 0 || (argument.last() != '\n' && argument.last() != '\r'),
    ensures
        parse_command_line(command_name(c) + seq![' '] + argument + seq!['\r', '\n']) == Some((c, argument)),
{
    let name = command_name(c);
    lemma_command_of_own_name(c);
    let line = name + seq![' '] + argument;
    let full = line + seq!['\r', '\n'];
    assert(full.drop_last() =~= line + seq!['\r']);
    assert(full.drop_last().drop_last() =~= line);
    assert(line.len() > 0);
    assert(line.last() != '\n' && line.last() != '\r');
    assert(trim_line_end(line) == line);
    assert(full.last() == '\n');
    assert(trim_line_end(full) == trim_line_end(full.drop_last()));
    assert(full.drop_last().last() == '\r');
    assert(trim_line_end(full.drop_last()) == trim_line_end(full.drop_last().drop_last()));
    assert(trim_line_end(full) == line);
    assert(forall|k: int| 0 <= k < name.len() ==> #[trigger] name[k] != ' ');
    assert forall|k: int| 0 <= k < name.len() implies #[trigger] line[k] != ' ' by {
        assert(line[k] == name[k]);
    }
    lemma_index_of_space_found(line, name.len() as int);
    assert(line.take(name.len() as int) =~= name);
    assert(line.skip(name.len() as int + 1) =~= argument);
}

#[verifier::spinoff_prover]
proof fn lemma_bare_line_parses_back(c: Commands)
    ensures
        parse_command_line(command_name(c) + seq!['\r', '\n']) == Some((c, Seq::<char>::empty())),
{
    let name = command_name(c);
    lemma_command_of_own_name(c);
    let bare = name + seq!['\r', '\n'];
    assert(bare.drop_last() =~= name + seq!['\r']);
    assert(bare.drop_last().drop_last() =~= name);
    assert(name.last() != '\n' && name.last() != '\r');
    assert(bare.last() == '\n');
    assert(trim_line_end(bare) == trim_line_end(bare.drop_last()));
    assert(bare.drop_last().last() == '\r');
    assert(trim_line_end(bare.drop_last()) == trim_line_end(bare.drop_last().drop_last()));
    assert(trim_line_end(name) == name);
    assert(trim_line_end(bare) == name);
    assert(forall|k: int| 0 <= k < name.len() ==> #[trigger] name[k] != ' ');
    lemma_index_of_space_none(name);
}

/// A line naming a command, then a space and an argument that does not end in
/// a line break, then CR LF, reads back as that command and argument; a line
/// holding only the name reads back with an empty argument.
pub proof fn lemma_command_line_parses_back(c: Commands, argument: Seq<char>)
    requires
        argument.len() == 0 || (argument.last() != '\n' && argument.last() != '\r'),
    ensures
        parse_command_line(command_name(c) + seq![' '] + argument + seq!['\r', '\n']) == Some((c, argument)),
        parse_command_line(command_name(c) + seq!['\r', '\n']) == Some((c, Seq::<char>::empty())),
{
    lemma_line_with_argument_parses_back(c, argument);
    lemma_bare_line_parses_back(c);
}

} // verus!
