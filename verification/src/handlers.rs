//! What each command decides: the checks it makes on the session and its
//! argument, how it changes the session, and what it replies. The file-system
//! and data-channel work between these decisions is done by the caller, which
//! hands the results back.
use vstd::prelude::*;
use crate::auth::{LoginForm, UserData, copy_string};
use crate::commands::Command;
use crate::permission::EntryType;
use crate::reply::{Reply, sub_chars};
use crate::reply_code::ReplyCode;
use crate::session::{DataType, ProtMode, SessionProperties, SubType, prot_mode_of};
use crate::shared::{IoError, error_reply_code, error_reply_text, get_change_directory_reply};
use crate::text::{all_digits, decimal, digits_value, lemma_decimal_value, parse_unsigned, parse_unsigned_chars, push_char, push_decimal, push_str, str_to_chars, string_from_chars};

verus! {

/// A one-line reply as its view.
pub open spec fn one_line(code: ReplyCode, text: Seq<char>) -> (ReplyCode, Seq<Seq<char>>) {
    (code, seq![text])
}

/// The reply to a command that needs a logged-in user when nobody is.
pub open spec fn not_logged_in() -> (ReplyCode, Seq<Seq<char>>) {
    one_line(ReplyCode::NotLoggedIn, "User not logged in!"@)
}

/// Nothing but the restart offset changed between two states of a session.
pub open spec fn same_session_except_offset(a: &SessionProperties, b: &SessionProperties) -> bool {
    &&& a.username == b.username
    &&& a.login_form == b.login_form
    &&& a.data_type == b.data_type
    &&& a.prot_mode == b.prot_mode
    &&& a.pbsz == b.pbsz
    &&& a.utf8 == b.utf8
}

/// Nothing changed between two states of a session.
pub open spec fn same_session(a: &SessionProperties, b: &SessionProperties) -> bool {
    same_session_except_offset(a, b) && a.offset == b.offset
}

fn not_logged_in_reply() -> (r: Reply)
    ensures
        r@ == not_logged_in(),
{
    Reply::new(ReplyCode::NotLoggedIn, "User not logged in!")
}

/// `CDUP`: moves the working directory one level up.
#[derive(Clone, Copy, Debug, PartialEq, Eq, Structural, Default)]
pub struct Cdup;

impl Cdup {
    /// The reply that ends `CDUP` before the directory changes, if any: the
    /// user must be logged in and give no argument.
    pub fn check(command: &Command, session: &SessionProperties) -> (r: Option<Reply>)
        ensures
            !session.logged_in() ==> r is Some && r->0@ == not_logged_in(),
            session.logged_in() && command.argument@.len() > 0 ==> r is Some && r->0@
                == one_line(ReplyCode::SyntaxErrorInParametersOrArguments, "CDUP must not have an argument!"@),
            session.logged_in() && command.argument@.len() == 0 ==> r is None,
    {
        if !session.is_logged_in() {
            return Some(not_logged_in_reply());
        }
        if command.argument.as_str().is_empty() == false {
            return Some(Reply::new(ReplyCode::SyntaxErrorInParametersOrArguments, "CDUP must not have an argument!"));
        }
        None
    }

    /// The reply once the directory change has been tried.
    pub fn finish(result: Result<bool, IoError>) -> (r: Reply)
        ensures
            result == Ok::<bool, IoError>(true) ==> r@ == one_line(ReplyCode::RequestedFileActionOkay, "Path changed"@),
            result == Ok::<bool, IoError>(false) ==> r@ == one_line(ReplyCode::RequestedFileActionOkay, "Path not changed"@),
            result matches Err(e) ==> r@ == one_line(error_reply_code(e), error_reply_text(e)),
    {
        get_change_directory_reply(result)
    }
}

/// The reply that ends `CWD` before the directory changes, if any: the user
/// must be logged in and name a path.
pub fn cwd_check(command: &Command, session: &SessionProperties) -> (r: Option<Reply>)
    ensures
        !session.logged_in() ==> r is Some && r->0@ == not_logged_in(),
        session.logged_in() && command.argument@.len() == 0 ==> r is Some && r->0@
            == one_line(ReplyCode::SyntaxErrorInParametersOrArguments, "No path specified!"@),
        session.logged_in() && command.argument@.len() > 0 ==> r is None,
{
    if !session.is_logged_in() {
        return Some(not_logged_in_reply());
    }
    if command.argument.as_str().is_empty() {
        return Some(Reply::new(ReplyCode::SyntaxErrorInParametersOrArguments, "No path specified!"));
    }
    None
}

/// The lines of the `FEAT` reply.
pub open spec fn feature_lines() -> Seq<Seq<char>> {
    seq![
        "Supported features:"@,
        " MLSD"@,
        " MFMT"@,
        " REST STREAM"@,
        " UTF8"@,
        " RMDA <path>"@,
        "END"@,
    ]
}

/// `FEAT`: the features the server supports, between a header and `END`.
pub fn feat_reply() -> (r: Reply)
    ensures
        r@ == (ReplyCode::SystemStatus, feature_lines()),
{
    let lines = vec![
        "Supported features:",
        " MLSD",
        " MFMT",
        " REST STREAM",
        " UTF8",
        " RMDA <path>",
        "END",
    ];
    let r = Reply::new_multiline(ReplyCode::SystemStatus, lines);
    assert(lines@.map_values(|l: &str| l@) =~= feature_lines());
    r
}

/// `NOOP`.
pub fn noop_reply() -> (r: Reply)
    ensures
        r@ == one_line(ReplyCode::CommandOkay, "OK"@),
{
    Reply::new(ReplyCode::CommandOkay, "OK")
}

/// `SYST`.
pub fn syst_reply() -> (r: Reply)
    ensures
        r@ == one_line(ReplyCode::NameSystemType, "UNIX Type: L8"@),
{
    Reply::new(ReplyCode::NameSystemType, "UNIX Type: L8")
}

/// `AUTH`: TLS on the control connection is not offered.
pub fn auth_reply() -> (r: Reply)
    ensures
        r@ == one_line(ReplyCode::AuthNotAvailable, "SSL/TLS not available"@),
{
    Reply::new(ReplyCode::AuthNotAvailable, "SSL/TLS not available")
}

/// The reply that ends a command needing only a logged-in user, if any.
pub fn login_check(session: &SessionProperties) -> (r: Option<Reply>)
    ensures
        !session.logged_in() ==> r is Some && r->0@ == not_logged_in(),
        session.logged_in() ==> r is None,
{
    if !session.is_logged_in() {
        Some(not_logged_in_reply())
    } else {
        None
    }
}

/// What the `LIST` argument pattern `^(-[al])? ?(.*)?$` captures as the path:
/// nothing when the argument holds a line feed (the pattern cannot match),
/// otherwise the argument without a leading `-a` or `-l` and then without one
/// leading space.
pub open spec fn list_path_capture(argument: Seq<char>) -> Option<Seq<char>> {
    if exists|i: int| 0 <= i < argument.len() && argument[i] == '\n' {
        None
    } else {
        let a = if argument.len() >= 2 && argument[0] == '-' && (argument[1] == 'a' || argument[1] == 'l') {
            argument.skip(2)
        } else {
            argument
        };
        Some(if a.len() >= 1 && a[0] == ' ' { a.skip(1) } else { a })
    }
}

/// The path that `LIST` lists: what the pattern captures, or `.`.
pub open spec fn list_path_of(argument: Seq<char>) -> Seq<char> {
    match list_path_capture(argument) {
        Some(p) => p,
        None => seq!['.'],
    }
}

/// What the `LIST` argument pattern captures as the path, read off the
/// argument's characters.
pub fn list_path_capture_exec(argument: &str) -> (r: Option<String>)
    ensures
        r is Some ==> list_path_capture(argument@) == Some(r->0@),
        r is None ==> list_path_capture(argument@) is None,
{
    let chars = str_to_chars(argument);
    let n = chars.len();
    let mut i: usize = 0;
    while i < n
        invariant
            n == chars@.len(),
            chars@ == argument@,
            i <= n,
            forall|k: int| 0 <= k < i ==> chars@[k] != '\n',
        decreases n - i,
    {
        if chars[i] == '\n' {
            return None;
        }
        i = i + 1;
    }
    let mut start: usize = 0;
    if n >= 2 && chars[0] == '-' && (chars[1] == 'a' || chars[1] == 'l') {
        start = 2;
    }
    if start < n && chars[start] == ' ' {
        start = start + 1;
    }
    let rest = sub_chars(chars.as_slice(), start, n);
    proof {
        let t = argument@;
        let a = if t.len() >= 2 && t[0] == '-' && (t[1] == 'a' || t[1] == 'l') { t.skip(2) } else { t };
        assert(a.len() >= 1 ==> a[0] == t[(t.len() - a.len()) as int]);
        assert(rest@ =~= if a.len() >= 1 && a[0] == ' ' { a.skip(1) } else { a });
    }
    Some(string_from_chars(rest.as_slice()))
}

/// The path `LIST` lists for its argument.
pub fn list_path(argument: &str) -> (p: String)
    ensures
        p@ == list_path_of(argument@),
{
    match list_path_capture_exec(argument) {
        Some(p) => p,
        None => {
            let dot = vec!['.'];
            string_from_chars(dot.as_slice())
        },
    }
}

/// Whether `LIST` and `NLST` send an entry: all but the current directory.
pub fn listed(entry_type: EntryType) -> (b: bool)
    ensures
        b == (entry_type != EntryType::Cdir),
{
    entry_type != EntryType::Cdir
}

/// The reply that announces a listing.
pub fn listing_start_reply() -> (r: Reply)
    ensures
        r@ == one_line(ReplyCode::FileStatusOkay, "Transferring directory information!"@),
{
    Reply::new(ReplyCode::FileStatusOkay, "Transferring directory information!")
}

/// The reply that ends a listing.
pub fn listing_done_reply() -> (r: Reply)
    ensures
        r@ == one_line(ReplyCode::ClosingDataConnection, "Directory information sent!"@),
{
    Reply::new(ReplyCode::ClosingDataConnection, "Directory information sent!")
}

/// The reply when a listing finds no open data connection.
pub fn data_connection_not_open_reply() -> (r: Reply)
    ensures
        r@ == one_line(ReplyCode::BadSequenceOfCommands, "Data connection is not open!"@),
{
    Reply::new(ReplyCode::BadSequenceOfCommands, "Data connection is not open!")
}

/// The line `NLST` sends for an entry: a space, its name and CR LF.
pub fn nlst_line(name: &str) -> (s: String)
    ensures
        s@ == seq![' '] + name@ + seq!['\r', '\n'],
{
    let mut s = String::new();
    push_char(&mut s, ' ');
    push_str(&mut s, name);
    push_char(&mut s, '\r');
    push_char(&mut s, '\n');
    assert(s@ =~= seq![' '] + name@ + seq!['\r', '\n']);
    s
}

/// The reply that ends `MKD` before the directory is created, if any.
pub fn mkd_check(command: &Command, session: &SessionProperties) -> (r: Option<Reply>)
    ensures
        !session.logged_in() ==> r is Some && r->0@ == not_logged_in(),
        session.logged_in() && command.argument@.len() == 0 ==> r is Some && r->0@
            == one_line(ReplyCode::SyntaxErrorInParametersOrArguments, "MKD must have an argument!"@),
        session.logged_in() && command.argument@.len() > 0 ==> r is None,
{
    if !session.is_logged_in() {
        return Some(not_logged_in_reply());
    }
    if command.argument.as_str().is_empty() {
        return Some(Reply::new(ReplyCode::SyntaxErrorInParametersOrArguments, "MKD must have an argument!"));
    }
    None
}

/// The reply that ends `ABOR` before the data channel is aborted, if any.
pub fn abor_check(command: &Command, session: &SessionProperties) -> (r: Option<Reply>)
    ensures
        !session.logged_in() ==> r is Some && r->0@ == not_logged_in(),
        session.logged_in() && command.argument@.len() > 0 ==> r is Some && r->0@
            == one_line(ReplyCode::SyntaxErrorInParametersOrArguments, "ABOR must not have an argument!"@),
        session.logged_in() && command.argument@.len() == 0 ==> r is None,
{
    if !session.is_logged_in() {
        return Some(not_logged_in_reply());
    }
    if command.argument.as_str().is_empty() == false {
        return Some(Reply::new(ReplyCode::SyntaxErrorInParametersOrArguments, "ABOR must not have an argument!"));
    }
    None
}

/// The reply once an aborted data channel is free again.
pub fn abor_done_reply() -> (r: Reply)
    ensures
        r@ == one_line(ReplyCode::ClosingDataConnection, "Closing data connection."@),
{
    Reply::new(ReplyCode::ClosingDataConnection, "Closing data connection.")
}

/// The text in upper case, as `str::to_uppercase` gives it under Unicode's
/// case mappings.
pub uninterp spec fn uppercase(s: Seq<char>) -> Seq<char>;

/// The text in upper case.
///
/// Trusted: `str::to_uppercase`, whose result is named `uppercase`.
#[verifier::external_body]
fn to_uppercase(s: &str) -> (r: String)
    ensures
        r@ == uppercase(s@),
{
    s.to_uppercase()
}

/// What `OPTS` replies and sets, given its argument and that argument in
/// upper case.
pub open spec fn opts_outcome(logged_in: bool, argument: Seq<char>, upper: Seq<char>) -> ((ReplyCode, Seq<Seq<char>>), bool) {
    if !logged_in {
        (not_logged_in(), false)
    } else if argument.len() == 0 {
        (one_line(ReplyCode::SyntaxErrorInParametersOrArguments, "OPTS must have an argument!"@), false)
    } else if upper == "UTF8 ON"@ {
        (one_line(ReplyCode::CommandOkay, "UTF8 is always enabled."@), true)
    } else {
        (one_line(ReplyCode::SyntaxErrorInParametersOrArguments, "OPTS parameter not recognized!"@), false)
    }
}

/// `OPTS`, given the argument in upper case: `UTF8 ON` turns UTF-8 on, every
/// other option is refused.
pub fn opts_decide(command: &Command, upper: &str, session: &mut SessionProperties) -> (r: Reply)
    ensures
        r@ == opts_outcome(old(session).logged_in(), command.argument@, upper@).0,
        final(session).utf8 == (old(session).utf8 || opts_outcome(old(session).logged_in(), command.argument@, upper@).1),
        final(session).username == old(session).username,
        final(session).login_form == old(session).login_form,
        final(session).data_type == old(session).data_type,
        final(session).prot_mode == old(session).prot_mode,
        final(session).pbsz == old(session).pbsz,
        final(session).offset == old(session).offset,
{
    if !session.is_logged_in() {
        return not_logged_in_reply();
    }
    if command.argument.as_str().is_empty() {
        return Reply::new(ReplyCode::SyntaxErrorInParametersOrArguments, "OPTS must have an argument!");
    }
    let u = str_to_chars(upper);
    let expected = vec!['U', 'T', 'F', '8', ' ', 'O', 'N'];
    proof {
        reveal_strlit("UTF8 ON");
    }
    let mut same = u.len() == expected.len();
    let mut i: usize = 0;
    while same && i < u.len()
        invariant
            i <= u.len(),
            same ==> u.len() == expected.len(),
            same ==> forall|k: int| 0 <= k < i ==> u@[k] == expected@[k],
            !same ==> u@ != expected@,
        decreases u.len() - i,
    {
        if u[i] != expected[i] {
            same = false;
        }
        i = i + 1;
    }
    assert(same ==> u@ =~= expected@);
    assert(expected@ =~= "UTF8 ON"@);
    if same {
        session.utf8 = true;
        Reply::new(ReplyCode::CommandOkay, "UTF8 is always enabled.")
    } else {
        Reply::new(ReplyCode::SyntaxErrorInParametersOrArguments, "OPTS parameter not recognized!")
    }
}

/// `OPTS`.
pub fn opts(command: &Command, session: &mut SessionProperties) -> (r: Reply)
    ensures
        r@ == opts_outcome(old(session).logged_in(), command.argument@, uppercase(command.argument@)).0,
        final(session).utf8 == (old(session).utf8 || opts_outcome(old(session).logged_in(), command.argument@, uppercase(command.argument@)).1),
        final(session).username == old(session).username,
        final(session).login_form == old(session).login_form,
        final(session).data_type == old(session).data_type,
        final(session).prot_mode == old(session).prot_mode,
        final(session).pbsz == old(session).pbsz,
        final(session).offset == old(session).offset,
{
    let upper = to_uppercase(command.argument.as_str());
    opts_decide(command, upper.as_str(), session)
}

/// The first step of `PASS`: the form to log in with (the user name given
/// before and this password), or the reply that ends the command.
pub fn pass_check(command: &Command, session: &SessionProperties) -> (r: Result<LoginForm, Reply>)
    ensures
        command.argument@.len() == 0 ==> r is Err && r->Err_0@
            == one_line(ReplyCode::SyntaxErrorInParametersOrArguments, "No password supplied"@),
        command.argument@.len() > 0 && session.login_form.username is None ==> r is Err && r->Err_0@
            == one_line(ReplyCode::BadSequenceOfCommands, "Supply the username first!"@),
        command.argument@.len() > 0 && session.login_form.username is Some ==> r is Ok
            && r->Ok_0.username is Some && session.login_form.username is Some
            && r->Ok_0.username->0@ == session.login_form.username->0@
            && r->Ok_0.password is Some && r->Ok_0.password->0@ == command.argument@,
{
    if command.argument.as_str().is_empty() {
        return Err(Reply::new(ReplyCode::SyntaxErrorInParametersOrArguments, "No password supplied"));
    }
    match &session.login_form.username {
        None => Err(Reply::new(ReplyCode::BadSequenceOfCommands, "Supply the username first!")),
        Some(u) => Ok(LoginForm { username: Some(copy_string(u)), password: Some(copy_string(&command.argument)) }),
    }
}

/// The reply to `PASS` when no authentication back end is set up.
pub fn pass_unavailable_reply() -> (r: Reply)
    ensures
        r@ == one_line(ReplyCode::ServiceNotAvailableClosingControlConnection, "Unknown error occurred!"@),
{
    Reply::new(ReplyCode::ServiceNotAvailableClosingControlConnection, "Unknown error occurred!")
}

/// The last step of `PASS`: records the login attempt and replies whether it
/// succeeded.
pub fn pass_finish(session: &mut SessionProperties, form: LoginForm, user: Option<UserData>) -> (r: Reply)
    ensures
        user is Some ==> r@ == one_line(ReplyCode::UserLoggedIn, "Log in successful"@),
        user is None ==> r@ == one_line(ReplyCode::NotLoggedIn, "Incorrect credentials!"@),
        user is Some ==> final(session).username is Some && final(session).username->0@ == user->0.username@,
        user is None ==> final(session).username == old(session).username,
        final(session).login_form == form,
        final(session).offset == old(session).offset,
        final(session).data_type == old(session).data_type,
        final(session).prot_mode == old(session).prot_mode,
        final(session).pbsz == old(session).pbsz,
        final(session).utf8 == old(session).utf8,
{
    if session.login(form, user) {
        Reply::new(ReplyCode::UserLoggedIn, "Log in successful")
    } else {
        Reply::new(ReplyCode::NotLoggedIn, "Incorrect credentials!")
    }
}

/// `USER`: remembers the user name for the following `PASS`.
pub fn user(command: &Command, session: &mut SessionProperties) -> (r: Reply)
    ensures
        command.argument@.len() == 0 ==> r@ == one_line(ReplyCode::SyntaxErrorInParametersOrArguments, "No username specified!"@)
            && same_session(&*final(session), &*old(session)),
        command.argument@.len() > 0 ==> r@ == one_line(ReplyCode::UserNameOkay, "User name okay, need password."@)
            && final(session).login_form.username is Some && final(session).login_form.username->0@ == command.argument@
            && final(session).login_form.password == old(session).login_form.password
            && final(session).username == old(session).username
            && final(session).offset == old(session).offset
            && final(session).data_type == old(session).data_type
            && final(session).prot_mode == old(session).prot_mode
            && final(session).pbsz == old(session).pbsz
            && final(session).utf8 == old(session).utf8,
{
    if command.argument.as_str().is_empty() {
        return Reply::new(ReplyCode::SyntaxErrorInParametersOrArguments, "No username specified!");
    }
    session.login_form.username = Some(copy_string(&command.argument));
    Reply::new(ReplyCode::UserNameOkay, "User name okay, need password.")
}

/// The text of the `PASV` reply for an IPv4 address and port: the address
/// octets and the port's high and low byte, comma separated.
pub open spec fn pasv_text(a: u8, b: u8, c: u8, d: u8, port: u16) -> Seq<char> {
    "Entering Passive Mode ("@ + decimal(a as nat) + seq![','] + decimal(b as nat) + seq![','] + decimal(c as nat)
        + seq![','] + decimal(d as nat) + seq![','] + decimal((port / 256) as nat) + seq![','] + decimal((port % 256) as nat)
        + seq![')']
}

/// The text of the `PASV` reply for an IPv4 address and port.
pub fn create_pasv_response(octets: [u8; 4], port: u16) -> (s: String)
    ensures
        s@ == pasv_text(octets@[0], octets@[1], octets@[2], octets@[3], port),
{
    let p1 = port / 256;
    let p2 = port - p1 * 256;
    assert(p2 == port % 256);
    let mut s = String::new();
    push_str(&mut s, "Entering Passive Mode (");
    push_decimal(&mut s, octets[0] as u64);
    push_char(&mut s, ',');
    push_decimal(&mut s, octets[1] as u64);
    push_char(&mut s, ',');
    push_decimal(&mut s, octets[2] as u64);
    push_char(&mut s, ',');
    push_decimal(&mut s, octets[3] as u64);
    push_char(&mut s, ',');
    push_decimal(&mut s, p1 as u64);
    push_char(&mut s, ',');
    push_decimal(&mut s, p2 as u64);
    push_char(&mut s, ')');
    assert(s@ =~= pasv_text(octets@[0], octets@[1], octets@[2], octets@[3], port));
    s
}

/// The pieces of a text between its commas, in order (a text without commas
/// is one piece).
pub open spec fn comma_fields(s: Seq<char>) -> Seq<Seq<char>>
    decreases s.len(),
{
    if s.len() == 0 {
        seq![Seq::<char>::empty()]
    } else {
        let init = comma_fields(s.drop_last());
        if s.last() == ',' {
            init.push(Seq::<char>::empty())
        } else {
            init.update(init.len() - 1, init.last().push(s.last()))
        }
    }
}

/// No character of the text is a comma.
pub open spec fn no_comma(s: Seq<char>) -> bool {
    forall|i: int| 0 <= i < s.len() ==> #[trigger] s[i] != ','
}

proof fn lemma_comma_fields_single(y: Seq<char>)
    requires
        no_comma(y),
    ensures
        comma_fields(y) == seq![y],
    decreases y.len(),
{
    if y.len() > 0 {
        assert(no_comma(y.drop_last()));
        lemma_comma_fields_single(y.drop_last());
        assert(y.drop_last().push(y.last()) =~= y);
        assert(seq![y.drop_last()].update(0, y.drop_last().push(y.last())) =~= seq![y]);
    } else {
        assert(y =~= Seq::<char>::empty());
    }
}

proof fn lemma_comma_fields_append(x: Seq<char>, y: Seq<char>)
    requires
        no_comma(y),
    ensures
        comma_fields(x + seq![','] + y) == comma_fields(x).push(y),
    decreases y.len(),
{
    let t = x + seq![','] + y;
    if y.len() == 0 {
        assert(t.drop_last() =~= x);
        assert(t.last() == ',');
        assert(y =~= Seq::<char>::empty());
    } else {
        assert(no_comma(y.drop_last()));
        lemma_comma_fields_append(x, y.drop_last());
        assert(t.drop_last() =~= x + seq![','] + y.drop_last());
        assert(t.last() == y.last());
        let init = comma_fields(x).push(y.drop_last());
        assert(y.drop_last().push(y.last()) =~= y);
        assert(init.update(init.len() - 1, init.last().push(y.last())) =~= comma_fields(x).push(y));
    }
}

proof fn lemma_decimal_no_comma(n: nat)
    ensures
        no_comma(decimal(n)),
        decimal(n).len() > 0,
        all_digits(decimal(n)),
        digits_value(decimal(n)) == n,
{
    lemma_decimal_value(n);
    assert forall|i: int| 0 <= i < decimal(n).len() implies #[trigger] decimal(n)[i] != ',' by {
        assert('0' <= decimal(n)[i] <= '9');
    }
}

/// Reading a `PASV` text back gives the address and the port: after the text
/// `Entering Passive Mode (` and before a final `)` stand six comma-separated
/// runs of decimal digits, the four octets in order, then the high and the
/// low byte of the port.
pub proof fn lemma_pasv_text_reads_back(a: u8, b: u8, c: u8, d: u8, port: u16)
    ensures
        ({
            let t = pasv_text(a, b, c, d, port);
            let prefix = "Entering Passive Mode ("@;
            let fields = comma_fields(t.subrange(prefix.len() as int, t.len() - 1));
            &&& t.len() > prefix.len()
            &&& t.take(prefix.len() as int) == prefix
            &&& t.last() == ')'
            &&& fields.len() == 6
            &&& forall|i: int| 0 <= i < 6 ==> #[trigger] fields[i].len() > 0 && all_digits(fields[i])
            &&& digits_value(fields[0]) == a
            &&& digits_value(fields[1]) == b
            &&& digits_value(fields[2]) == c
            &&& digits_value(fields[3]) == d
            &&& digits_value(fields[5]) < 256
            &&& digits_value(fields[4]) * 256 + digits_value(fields[5]) == port
        }),
{
    let t = pasv_text(a, b, c, d, port);
    let prefix = "Entering Passive Mode ("@;
    let da = decimal(a as nat);
    let db = decimal(b as nat);
    let dc = decimal(c as nat);
    let dd = decimal(d as nat);
    let dh = decimal((port / 256) as nat);
    let dl = decimal((port % 256) as nat);
    lemma_decimal_no_comma(a as nat);
    lemma_decimal_no_comma(b as nat);
    lemma_decimal_no_comma(c as nat);
    lemma_decimal_no_comma(d as nat);
    lemma_decimal_no_comma((port / 256) as nat);
    lemma_decimal_no_comma((port % 256) as nat);
    let inner = da + seq![','] + db + seq![','] + dc + seq![','] + dd + seq![','] + dh + seq![','] + dl;
    assert(t =~= prefix + inner + seq![')']);
    assert(t.take(prefix.len() as int) =~= prefix);
    assert(t.subrange(prefix.len() as int, t.len() - 1) =~= inner);
    lemma_comma_fields_single(da);
    lemma_comma_fields_append(da, db);
    lemma_comma_fields_append(da + seq![','] + db, dc);
    lemma_comma_fields_append(da + seq![','] + db + seq![','] + dc, dd);
    lemma_comma_fields_append(da + seq![','] + db + seq![','] + dc + seq![','] + dd, dh);
    lemma_comma_fields_append(da + seq![','] + db + seq![','] + dc + seq![','] + dd + seq![','] + dh, dl);
    let fields = comma_fields(inner);
    assert(fields =~= seq![da, db, dc, dd, dh, dl]);
    assert((port / 256) * 256 + port % 256 == port);
}

/// The two bytes of a port in a `PASV` reply give the port back.
pub proof fn lemma_pasv_port_bytes(port: u16)
    ensures
        (port / 256) * 256 + port % 256 == port,
        port / 256 < 256,
        port % 256 < 256,
{
}

/// Where the passive data channel listens, as opening it reported.
#[derive(Clone, Copy, Debug)]
pub enum PassiveAddress {
    V4 { octets: [u8; 4], port: u16 },
    V6,
    Failed,
}

/// `PASV`, once the data channel has been opened: the IPv4 address and port,
/// or why there is none.
pub fn pasv_reply(address: PassiveAddress) -> (r: Reply)
    ensures
        address matches PassiveAddress::V4 { octets, port } ==> r@ == one_line(
            ReplyCode::EnteringPassiveMode,
            pasv_text(octets@[0], octets@[1], octets@[2], octets@[3], port),
        ),
        address is V6 ==> r@ == one_line(ReplyCode::CommandNotImplementedForThatParameter, "Server only supports IPv6!"@),
        address is Failed ==> r@ == one_line(ReplyCode::SyntaxErrorInParametersOrArguments, "Failed to listen for data stream"@),
{
    match address {
        PassiveAddress::V4 { octets, port } => {
            let text = create_pasv_response(octets, port);
            Reply::new(ReplyCode::EnteringPassiveMode, text.as_str())
        },
        PassiveAddress::V6 => Reply::new(ReplyCode::CommandNotImplementedForThatParameter, "Server only supports IPv6!"),
        PassiveAddress::Failed => Reply::new(ReplyCode::SyntaxErrorInParametersOrArguments, "Failed to listen for data stream"),
    }
}

/// `PBSZ`: only a buffer size of zero exists; any number sets it, anything
/// else clears it.
pub fn pbsz(command: &Command, session: &mut SessionProperties) -> (r: Reply)
    ensures
        parse_unsigned(command.argument@, u32::MAX as nat) == Some(0nat) ==> r@ == one_line(ReplyCode::CommandOkay, "Buffer size set"@)
            && final(session).pbsz == Some(0u32),
        parse_unsigned(command.argument@, u32::MAX as nat) is Some && parse_unsigned(command.argument@, u32::MAX as nat)->0 > 0 ==> r@ == one_line(
            ReplyCode::CommandOkay,
            "PBSZ=0, provided size is not supported!"@,
        ) && final(session).pbsz == Some(0u32),
        parse_unsigned(command.argument@, u32::MAX as nat) is None ==> r@ == one_line(ReplyCode::SyntaxErrorInParametersOrArguments, "Invalid buffer size!"@)
            && final(session).pbsz is None,
        final(session).username == old(session).username,
        final(session).login_form == old(session).login_form,
        final(session).data_type == old(session).data_type,
        final(session).prot_mode == old(session).prot_mode,
        final(session).utf8 == old(session).utf8,
        final(session).offset == old(session).offset,
{
    let chars = str_to_chars(command.argument.as_str());
    match parse_unsigned_chars(chars.as_slice(), 4294967295) {
        Some(0) => {
            session.pbsz = Some(0);
            Reply::new(ReplyCode::CommandOkay, "Buffer size set")
        },
        Some(_) => {
            session.pbsz = Some(0);
            Reply::new(ReplyCode::CommandOkay, "PBSZ=0, provided size is not supported!")
        },
        None => {
            session.pbsz = None;
            Reply::new(ReplyCode::SyntaxErrorInParametersOrArguments, "Invalid buffer size!")
        },
    }
}

/// `PROT`: clear protection is always available, private protection only
/// when TLS is configured, the others never.
pub fn prot(command: &Command, session: &mut SessionProperties, tls_available: bool) -> (r: Reply)
    ensures
        prot_mode_of(command.argument@) == Some(ProtMode::Clear) ==> r@ == one_line(ReplyCode::CommandOkay, "Protection level set"@)
            && final(session).prot_mode == ProtMode::Clear,
        (prot_mode_of(command.argument@) == Some(ProtMode::Safe) || prot_mode_of(command.argument@) == Some(ProtMode::Confidential))
            ==> r@ == one_line(ReplyCode::ProtectionLevelNotSupported, "Protection mode not available"@)
            && final(session).prot_mode == old(session).prot_mode,
        prot_mode_of(command.argument@) == Some(ProtMode::Private) && tls_available ==> r@ == one_line(ReplyCode::CommandOkay, "Protection level set"@)
            && final(session).prot_mode == ProtMode::Private,
        prot_mode_of(command.argument@) == Some(ProtMode::Private) && !tls_available ==> r@ == one_line(ReplyCode::AuthNotAvailable, "Protection not available"@)
            && final(session).prot_mode == old(session).prot_mode,
        prot_mode_of(command.argument@) is None ==> r@ == one_line(ReplyCode::CommandNotImplementedForThatParameter, "Unknown protection mode"@)
            && final(session).prot_mode == old(session).prot_mode,
        final(session).username == old(session).username,
        final(session).login_form == old(session).login_form,
        final(session).data_type == old(session).data_type,
        final(session).pbsz == old(session).pbsz,
        final(session).utf8 == old(session).utf8,
        final(session).offset == old(session).offset,
{
    match ProtMode::from_str(command.argument.as_str()) {
        Some(ProtMode::Clear) => {
            session.prot_mode = ProtMode::Clear;
            Reply::new(ReplyCode::CommandOkay, "Protection level set")
        },
        Some(ProtMode::Safe) | Some(ProtMode::Confidential) => Reply::new(
            ReplyCode::ProtectionLevelNotSupported,
            "Protection mode not available",
        ),
        Some(ProtMode::Private) => {
            if tls_available {
                session.prot_mode = ProtMode::Private;
                Reply::new(ReplyCode::CommandOkay, "Protection level set")
            } else {
                Reply::new(ReplyCode::AuthNotAvailable, "Protection not available")
            }
        },
        None => Reply::new(ReplyCode::CommandNotImplementedForThatParameter, "Unknown protection mode"),
    }
}

/// `PWD`, given the working directory: it is quoted back.
pub fn pwd(command: &Command, session: &SessionProperties, cwd: &str) -> (r: Reply)
    ensures
        command.argument@.len() > 0 ==> r@ == one_line(ReplyCode::SyntaxErrorInParametersOrArguments, "PWD must not have an argument!"@),
        command.argument@.len() == 0 && !session.logged_in() ==> r@ == not_logged_in(),
        command.argument@.len() == 0 && session.logged_in() ==> r@ == one_line(
            ReplyCode::PathnameCreated,
            seq!['"'] + cwd@ + seq!['"'],
        ),
{
    if command.argument.as_str().is_empty() == false {
        return Reply::new(ReplyCode::SyntaxErrorInParametersOrArguments, "PWD must not have an argument!");
    }
    if !session.is_logged_in() {
        return not_logged_in_reply();
    }
    let mut m = String::new();
    push_char(&mut m, '"');
    push_str(&mut m, cwd);
    push_char(&mut m, '"');
    assert(m@ =~= seq!['"'] + cwd@ + seq!['"']);
    Reply::new(ReplyCode::PathnameCreated, m.as_str())
}

/// `REST`: sets where the next retrieval starts.
pub fn rest(command: &Command, session: &mut SessionProperties) -> (r: Reply)
    ensures
        command.argument@.len() == 0 ==> r@ == one_line(ReplyCode::SyntaxErrorInParametersOrArguments, "Offset not specified!"@)
            && same_session(&*final(session), &*old(session)),
        command.argument@.len() > 0 && !old(session).logged_in() ==> r@ == not_logged_in()
            && same_session(&*final(session), &*old(session)),
        command.argument@.len() > 0 && old(session).logged_in() && parse_unsigned(command.argument@, u64::MAX as nat) is None
            ==> r@ == one_line(ReplyCode::SyntaxErrorInParametersOrArguments, "Unable to parse offset!"@)
            && same_session(&*final(session), &*old(session)),
        command.argument@.len() > 0 && old(session).logged_in() && parse_unsigned(command.argument@, u64::MAX as nat) is Some
            ==> r@ == one_line(
                ReplyCode::RequestedFileActionPendingFurtherInformation,
                "Restarting at "@ + decimal(parse_unsigned(command.argument@, u64::MAX as nat)->0),
            ) && final(session).offset == parse_unsigned(command.argument@, u64::MAX as nat)->0,
        same_session_except_offset(&*final(session), &*old(session)),
{
    if command.argument.as_str().is_empty() {
        return Reply::new(ReplyCode::SyntaxErrorInParametersOrArguments, "Offset not specified!");
    }
    if !session.is_logged_in() {
        return not_logged_in_reply();
    }
    let chars = str_to_chars(command.argument.as_str());
    let offset = match parse_unsigned_chars(chars.as_slice(), u64::MAX) {
        Some(o) => o,
        None => return Reply::new(ReplyCode::SyntaxErrorInParametersOrArguments, "Unable to parse offset!"),
    };
    session.offset = offset;
    let mut m = String::new();
    push_str(&mut m, "Restarting at ");
    push_decimal(&mut m, session.offset);
    Reply::new(ReplyCode::RequestedFileActionPendingFurtherInformation, m.as_str())
}

/// The reply that ends `RETR` or `STOR` before a data channel is acquired, if
/// any: a file must be named and the user logged in.
pub fn transfer_check(command: &Command, session: &SessionProperties) -> (r: Option<Reply>)
    ensures
        command.argument@.len() == 0 ==> r is Some && r->0@
            == one_line(ReplyCode::SyntaxErrorInParametersOrArguments, "No file specified!"@),
        command.argument@.len() > 0 && !session.logged_in() ==> r is Some && r->0@ == not_logged_in(),
        command.argument@.len() > 0 && session.logged_in() ==> r is None,
{
    if command.argument.as_str().is_empty() {
        return Some(Reply::new(ReplyCode::SyntaxErrorInParametersOrArguments, "No file specified!"));
    }
    if !session.is_logged_in() {
        return Some(not_logged_in_reply());
    }
    None
}

/// The reply that announces a file transfer.
pub fn transfer_start_reply() -> (r: Reply)
    ensures
        r@ == one_line(ReplyCode::FileStatusOkay, "Starting file transfer!"@),
{
    Reply::new(ReplyCode::FileStatusOkay, "Starting file transfer!")
}

/// The representation type a `TYPE` argument selects: `A` with no, `N`, `T`
/// or `C` subtype, or `I` with any; the mode word is what precedes the first
/// space.
pub open spec fn type_of_argument(argument: Seq<char>) -> Option<DataType> {
    let mode = match crate::commands::index_of_space(argument) {
        Some(i) => argument.take(i as int),
        None => argument,
    };
    let sub = match crate::commands::index_of_space(argument) {
        Some(i) => argument.skip(i as int + 1),
        None => Seq::<char>::empty(),
    };
    if mode == seq!['A'] && (sub == seq!['N'] || sub.len() == 0) {
        Some(DataType::Ascii { sub_type: SubType::NonPrint })
    } else if mode == seq!['A'] && sub == seq!['T'] {
        Some(DataType::Ascii { sub_type: SubType::TelnetFormatEffectors })
    } else if mode == seq!['A'] && sub == seq!['C'] {
        Some(DataType::Ascii { sub_type: SubType::CarriageControl })
    } else if mode == seq!['I'] {
        Some(DataType::Binary)
    } else {
        None
    }
}

/// The mode word of a `TYPE` argument: what precedes the first space.
pub open spec fn type_mode_word(argument: Seq<char>) -> Seq<char> {
    match crate::commands::index_of_space(argument) {
        Some(i) => argument.take(i as int),
        None => argument,
    }
}

fn is_single(s: &[char], c: char) -> (b: bool)
    ensures
        b == (s@ == seq![c]),
{
    if s.len() == 1 && s[0] == c {
        assert(s@ =~= seq![c]);
        true
    } else {
        false
    }
}

/// The arguments of `TYPE`: a mode word without subtype selects what the same
/// word with subtype `N` selects, so `A` alone is ASCII non-print as `A N` is;
/// only the mode words `A` and `I` are accepted, with or without a subtype;
/// `I` takes any subtype and selects binary; `A N`, `A T` and `A C` select the
/// three ASCII formats; and the word the reply names is the mode word, what
/// precedes the first space.
pub proof fn lemma_type_arguments(word: Seq<char>, sub: Seq<char>)
    requires
        forall|i: int| 0 <= i < word.len() ==> #[trigger] word[i] != ' ',
    ensures
        type_of_argument(word) == type_of_argument(word + seq![' ', 'N']),
        type_of_argument(word) is Some ==> word == seq!['A'] || word == seq!['I'],
        type_of_argument(word + seq![' '] + sub) is Some ==> word == seq!['A'] || word == seq!['I'],
        type_of_argument(seq!['I', ' '] + sub) == Some(DataType::Binary),
        type_of_argument(seq!['I']) == Some(DataType::Binary),
        type_of_argument(seq!['A', ' ', 'N']) == Some(DataType::Ascii { sub_type: SubType::NonPrint }),
        type_of_argument(seq!['A', ' ', 'T']) == Some(DataType::Ascii { sub_type: SubType::TelnetFormatEffectors }),
        type_of_argument(seq!['A', ' ', 'C']) == Some(DataType::Ascii { sub_type: SubType::CarriageControl }),
        type_mode_word(word) == word,
        type_mode_word(word + seq![' '] + sub) == word,
{
    crate::commands::lemma_index_of_space_none(word);
    let with_sub = word + seq![' '] + sub;
    assert forall|k: int| 0 <= k < word.len() implies #[trigger] with_sub[k] != ' ' by {
        assert(with_sub[k] == word[k]);
    }
    crate::commands::lemma_index_of_space_found(with_sub, word.len() as int);
    assert(with_sub.take(word.len() as int) =~= word);
    assert(with_sub.skip(word.len() as int + 1) =~= sub);
    let with_n = word + seq![' ', 'N'];
    assert forall|k: int| 0 <= k < word.len() implies #[trigger] with_n[k] != ' ' by {
        assert(with_n[k] == word[k]);
    }
    crate::commands::lemma_index_of_space_found(with_n, word.len() as int);
    assert(with_n.take(word.len() as int) =~= word);
    assert(with_n.skip(word.len() as int + 1) =~= seq!['N']);
    let i_sub = seq!['I', ' '] + sub;
    crate::commands::lemma_index_of_space_found(i_sub, 1);
    assert(i_sub.take(1) =~= seq!['I']);
    crate::commands::lemma_index_of_space_none(seq!['I']);
    let an = seq!['A', ' ', 'N'];
    let at = seq!['A', ' ', 'T'];
    let ac = seq!['A', ' ', 'C'];
    crate::commands::lemma_index_of_space_found(an, 1);
    crate::commands::lemma_index_of_space_found(at, 1);
    crate::commands::lemma_index_of_space_found(ac, 1);
    assert(an.take(1) =~= seq!['A'] && an.skip(2) =~= seq!['N']);
    assert(at.take(1) =~= seq!['A'] && at.skip(2) =~= seq!['T']);
    assert(ac.take(1) =~= seq!['A'] && ac.skip(2) =~= seq!['C']);
    assert(seq!['T'] != seq!['N']) by { assert(seq!['T'][0] != seq!['N'][0]); }
    assert(seq!['C'] != seq!['N']) by { assert(seq!['C'][0] != seq!['N'][0]); }
    assert(seq!['C'] != seq!['T']) by { assert(seq!['C'][0] != seq!['T'][0]); }
    assert(seq!['A'] != seq!['I']) by { assert(seq!['A'][0] != seq!['I'][0]); }
}

/// `TYPE`: selects the representation type.
pub fn type_command(command: &Command, session: &mut SessionProperties) -> (r: Reply)
    ensures
        !old(session).logged_in() ==> r@ == not_logged_in() && same_session(&*final(session), &*old(session)),
        old(session).logged_in() && command.argument@.len() == 0 ==> r@ == one_line(
            ReplyCode::SyntaxErrorInParametersOrArguments,
            "Mode not specified!"@,
        ) && same_session(&*final(session), &*old(session)),
        old(session).logged_in() && command.argument@.len() > 0 && type_of_argument(command.argument@) is None
            ==> r@ == one_line(ReplyCode::CommandNotImplementedForThatParameter, "Invalid or not supported mode!"@)
            && same_session(&*final(session), &*old(session)),
        old(session).logged_in() && command.argument@.len() > 0 && type_of_argument(command.argument@) is Some
            ==> r@ == one_line(ReplyCode::CommandOkay, "TYPE set to "@ + type_mode_word(command.argument@) + seq!['.'])
            && final(session).data_type == type_of_argument(command.argument@)->0,
        final(session).username == old(session).username,
        final(session).login_form == old(session).login_form,
        final(session).prot_mode == old(session).prot_mode,
        final(session).pbsz == old(session).pbsz,
        final(session).utf8 == old(session).utf8,
        final(session).offset == old(session).offset,
{
    if !session.is_logged_in() {
        return not_logged_in_reply();
    }
    if command.argument.as_str().is_empty() {
        return Reply::new(ReplyCode::SyntaxErrorInParametersOrArguments, "Mode not specified!");
    }
    let chars = str_to_chars(command.argument.as_str());
    let ghost arg = chars@;
    let mut i: usize = 0;
    while i < chars.len() && chars[i] != ' '
        invariant
            i <= chars.len(),
            forall|k: int| 0 <= k < i ==> #[trigger] chars@[k] != ' ',
        decreases chars.len() - i,
    {
        i = i + 1;
    }
    let (mode, sub) = if i < chars.len() {
        proof {
            crate::commands::lemma_index_of_space_found(arg, i as int);
        }
        (sub_chars(chars.as_slice(), 0, i), sub_chars(chars.as_slice(), i + 1, chars.len()))
    } else {
        proof {
            crate::commands::lemma_index_of_space_none(arg);
        }
        (sub_chars(chars.as_slice(), 0, chars.len()), Vec::new())
    };
    assert(mode@ =~= type_mode_word(arg));
    assert(i < chars.len() ==> sub@ =~= arg.skip(i as int + 1));
    assert(i >= chars.len() ==> sub@ =~= Seq::<char>::empty());
    let a = is_single(mode.as_slice(), 'A');
    let new_type = if a && (is_single(sub.as_slice(), 'N') || sub.len() == 0) {
        DataType::Ascii { sub_type: SubType::NonPrint }
    } else if a && is_single(sub.as_slice(), 'T') {
        DataType::Ascii { sub_type: SubType::TelnetFormatEffectors }
    } else if a && is_single(sub.as_slice(), 'C') {
        DataType::Ascii { sub_type: SubType::CarriageControl }
    } else if is_single(mode.as_slice(), 'I') {
        DataType::Binary
    } else {
        return Reply::new(ReplyCode::CommandNotImplementedForThatParameter, "Invalid or not supported mode!");
    };
    session.data_type = new_type;
    let mut m = String::new();
    push_str(&mut m, "TYPE set to ");
    push_str(&mut m, string_from_chars(mode.as_slice()).as_str());
    push_char(&mut m, '.');
    assert(m@ =~= "TYPE set to "@ + type_mode_word(arg) + seq!['.']);
    Reply::new(ReplyCode::CommandOkay, m.as_str())
}

} // verus!
