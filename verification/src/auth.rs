//! Users, their views of the file system, and the decisions of logging in.
use vstd::prelude::*;
use argon2::{Argon2, PasswordHash, PasswordVerifier};
use crate::permission::{PermissionSet, parse_permission_list, permission_list};
use crate::text::{str_to_chars, string_from_chars};

verus! {

/// Why a user could not be authenticated.
#[derive(Clone, Copy, Debug, PartialEq, Eq, Structural)]
pub enum AuthError {
    UserNotFoundError,
    InvalidCredentials,
    PermissionParsingError,
    BackendError,
}

/// The name of an error, as it is displayed.
pub open spec fn auth_error_name(e: AuthError) -> Seq<char> {
    match e {
        AuthError::UserNotFoundError => "UserNotFoundError"@,
        AuthError::InvalidCredentials => "InvalidCredentials"@,
        AuthError::PermissionParsingError => "PermissionParsingError"@,
        AuthError::BackendError => "BackendError"@,
    }
}

impl AuthError {
    /// The name of the error, as it is displayed.
    pub fn as_str(&self) -> (s: &'static str)
        ensures
            s@ == auth_error_name(*self),
    {
        match self {
            AuthError::UserNotFoundError => "UserNotFoundError",
            AuthError::InvalidCredentials => "InvalidCredentials",
            AuthError::PermissionParsingError => "PermissionParsingError",
            AuthError::BackendError => "BackendError",
        }
    }
}

/// The user name and password a client supplied.
#[derive(Clone, Debug, PartialEq, Eq, Hash)]
pub struct LoginForm {
    pub username: Option<String>,
    pub password: Option<String>,
}

impl LoginForm {
    /// A form with neither user name nor password.
    pub fn new() -> (f: LoginForm)
        ensures
            f.username is None,
            f.password is None,
    {
        LoginForm { username: None, password: None }
    }
}

/// A copy of a string with the same characters.
pub fn copy_string(s: &String) -> (r: String)
    ensures
        r@ == s@,
{
    let chars = str_to_chars(s.as_str());
    string_from_chars(chars.as_slice())
}

/// A part of the file system a user can reach, under a label, with the
/// permissions the user has there.
#[derive(Clone, Debug)]
pub struct FileSystemView {
    pub root: String,
    pub label: String,
    pub permissions: PermissionSet,
}

/// What identifies a view: its root, its label and its permissions.
pub open spec fn view_of(v: FileSystemView) -> (Seq<char>, Seq<char>, PermissionSet) {
    (v.root@, v.label@, v.permissions)
}

impl FileSystemView {
    /// A view of `root` under `label`.
    pub fn new(root: &str, label: &str, permissions: PermissionSet) -> (v: FileSystemView)
        ensures
            v.root@ == root@,
            v.label@ == label@,
            v.permissions == permissions,
    {
        let r = str_to_chars(root);
        let l = str_to_chars(label);
        FileSystemView {
            root: string_from_chars(r.as_slice()),
            label: string_from_chars(l.as_slice()),
            permissions,
        }
    }

    /// Whether two views are the same view.
    pub fn same_as(&self, other: &FileSystemView) -> (b: bool)
        ensures
            b == (view_of(*self) == view_of(*other)),
    {
        self.root == other.root && self.label == other.label && self.permissions == other.permissions
    }
}

/// What identifies each view.
pub open spec fn views_of(vs: Seq<FileSystemView>) -> Seq<(Seq<char>, Seq<char>, PermissionSet)> {
    vs.map_values(|v: FileSystemView| view_of(v))
}

/// The first index at which the sequence holds `x`, if any.
pub open spec fn first_index_of<A>(s: Seq<A>, x: A) -> Option<nat>
    decreases s.len(),
{
    if s.len() == 0 {
        None
    } else if s[0] == x {
        Some(0)
    } else {
        match first_index_of(s.drop_first(), x) {
            Some(i) => Some(i + 1),
            None => None,
        }
    }
}

proof fn lemma_first_index_found<A>(s: Seq<A>, x: A, i: int)
    requires
        0 <= i < s.len(),
        s[i] == x,
        forall|k: int| 0 <= k < i ==> s[k] != x,
    ensures
        first_index_of(s, x) == Some(i as nat),
    decreases i,
{
    if i > 0 {
        lemma_first_index_found(s.drop_first(), x, i - 1);
    }
}

proof fn lemma_first_index_none<A>(s: Seq<A>, x: A)
    requires
        forall|k: int| 0 <= k < s.len() ==> s[k] != x,
    ensures
        first_index_of(s, x) is None,
    decreases s.len(),
{
    if s.len() > 0 {
        lemma_first_index_none(s.drop_first(), x);
    }
}

/// A logged-in user: name, password hash and views.
#[derive(Clone, Debug)]
pub struct UserData {
    pub username: String,
    pub password: String,
    pub file_system_views: Vec<FileSystemView>,
}

impl UserData {
    /// A user without views.
    pub fn new(username: &str, password: &str) -> (u: UserData)
        ensures
            u.username@ == username@,
            u.password@ == password@,
            u.file_system_views@.len() == 0,
    {
        let n = str_to_chars(username);
        let p = str_to_chars(password);
        UserData {
            username: string_from_chars(n.as_slice()),
            password: string_from_chars(p.as_slice()),
            file_system_views: Vec::new(),
        }
    }

    /// Adds a view at the end.
    pub fn add_view(&mut self, view: FileSystemView)
        ensures
            final(self).username == old(self).username,
            final(self).password == old(self).password,
            final(self).file_system_views@ == old(self).file_system_views@.push(view),
    {
        self.file_system_views.push(view);
    }

    /// Removes the first view that is the same as `view`; nothing changes if
    /// there is none.
    pub fn remove_view(&mut self, view: &FileSystemView)
        ensures
            final(self).username == old(self).username,
            final(self).password == old(self).password,
            match first_index_of(views_of(old(self).file_system_views@), view_of(*view)) {
                Some(i) => final(self).file_system_views@ == old(self).file_system_views@.remove(i as int),
                None => final(self).file_system_views@ == old(self).file_system_views@,
            },
    {
        let ghost vs = views_of(self.file_system_views@);
        let mut i: usize = 0;
        while i < self.file_system_views.len()
            invariant
                i <= self.file_system_views@.len(),
                self.username == old(self).username,
                self.password == old(self).password,
                self.file_system_views@ == old(self).file_system_views@,
                vs == views_of(self.file_system_views@),
                forall|k: int| 0 <= k < i ==> vs[k] != view_of(*view),
            decreases self.file_system_views@.len() - i,
        {
            if self.file_system_views[i].same_as(view) {
                proof {
                    lemma_first_index_found(vs, view_of(*view), i as int);
                }
                self.file_system_views.remove(i);
                return;
            }
            i = i + 1;
        }
        proof {
            lemma_first_index_none(vs, view_of(*view));
        }
    }
}

/// A stored user as the data source holds it.
#[derive(Clone, Debug)]
pub struct UserRecord {
    pub user_id: i64,
    pub username: String,
    pub password: String,
}

/// A stored view as the data source holds it; the permissions are written as
/// a list such as `r;w;l`.
#[derive(Clone, Debug)]
pub struct ViewRecord {
    pub root: String,
    pub label: String,
    pub permissions: String,
}

/// The user name of a form that holds both a user name and a password.
pub fn form_username(form: &LoginForm) -> (r: Result<String, AuthError>)
    ensures
        (form.username is None || form.password is None) <==> r == Err::<String, AuthError>(AuthError::BackendError),
        r matches Ok(name) ==> form.username matches Some(u) && name@ == u@,
        r matches Err(e) ==> e == AuthError::BackendError,
{
    match (&form.username, &form.password) {
        (Some(u), Some(_)) => Ok(copy_string(u)),
        _ => Err(AuthError::BackendError),
    }
}

/// The stored user that a lookup found: a failed lookup is a back-end error,
/// an empty one means the user is unknown.
pub fn found_user(lookup: Result<Option<UserRecord>, ()>) -> (r: Result<UserRecord, AuthError>)
    ensures
        lookup is Err ==> r == Err::<UserRecord, AuthError>(AuthError::BackendError),
        lookup == Ok::<Option<UserRecord>, ()>(None) ==> r == Err::<UserRecord, AuthError>(AuthError::UserNotFoundError),
        lookup matches Ok(Some(u)) ==> r == Ok::<UserRecord, AuthError>(u),
{
    match lookup {
        Err(_) => Err(AuthError::BackendError),
        Ok(None) => Err(AuthError::UserNotFoundError),
        Ok(Some(u)) => Ok(u),
    }
}

/// The text a stored password hash in PHC string format is written back as
/// once parsed, or `None` when it is not a valid PHC string.
pub uninterp spec fn phc_normal_form(hash: Seq<char>) -> Option<Seq<char>>;

/// Whether Argon2 accepts the password for the PHC hash string.
pub uninterp spec fn argon2_accepts(password: Seq<u8>, hash: Seq<char>) -> bool;

/// Parses a PHC hash string.
///
/// Trusted: `PasswordHash::new`, whose result is written back with its
/// `Display` impl. The result is named `phc_normal_form`; nothing more is
/// claimed of it.
#[verifier::external_body]
fn parse_phc(hash: &str) -> (r: Option<String>)
    ensures
        r is Some ==> phc_normal_form(hash@) == Some(r->0@),
        r is None ==> phc_normal_form(hash@) is None,
{
    PasswordHash::new(hash).ok().map(|h| h.to_string())
}

/// Checks a password against a PHC hash string with the default Argon2
/// instance.
///
/// Trusted: `PasswordHash::new` then `Argon2::default().verify_password`,
/// which recomputes the hash from the salt and parameters in the string. The
/// answer is named `argon2_accepts`; an unparsable string is never accepted.
#[verifier::external_body]
fn argon2_verify(password: &[u8], hash: &str) -> (b: bool)
    ensures
        b == argon2_accepts(password@, hash@),
        phc_normal_form(hash@) is None ==> !b,
{
    match PasswordHash::new(hash) {
        Ok(h) => Argon2::default().verify_password(password, &h).is_ok(),
        Err(_) => false,
    }
}

/// The UTF-8 bytes of a string.
fn str_bytes(s: &str) -> (b: Vec<u8>)
    ensures
        b@ == vstd::utf8::encode_utf8(s@),
{
    let bytes = s.as_bytes();
    let mut v: Vec<u8> = Vec::new();
    let mut i: usize = 0;
    while i < bytes.len()
        invariant
            i <= bytes@.len(),
            bytes@ == vstd::utf8::encode_utf8(s@),
            v@ == bytes@.take(i as int),
        decreases bytes@.len() - i,
    {
        v.push(bytes[i]);
        i = i + 1;
        assert(v@ =~= bytes@.take(i as int));
    }
    assert(bytes@.take(i as int) =~= bytes@);
    v
}

/// What checking the password of a stored user gives: the stored hash in
/// normal form when Argon2 accepts the password, invalid credentials when it
/// does not.
pub open spec fn credential_check(password: Seq<char>, stored_hash: Seq<char>) -> Result<Seq<char>, AuthError> {
    if argon2_accepts(vstd::utf8::encode_utf8(password), stored_hash) {
        Ok(phc_normal_form(stored_hash).unwrap())
    } else {
        Err(AuthError::InvalidCredentials)
    }
}

/// Checks the password of a stored user whose hash is a valid PHC string.
pub fn verify_credentials(password: &str, record: &UserRecord) -> (r: Result<String, AuthError>)
    requires
        phc_normal_form(record.password@) is Some,
    ensures
        r matches Ok(h) ==> credential_check(password@, record.password@) == Ok::<Seq<char>, AuthError>(h@),
        r matches Err(e) ==> credential_check(password@, record.password@) == Err::<Seq<char>, AuthError>(e),
{
    let normal = parse_phc(record.password.as_str());
    let bytes = str_bytes(password);
    if !argon2_verify(bytes.as_slice(), record.password.as_str()) {
        return Err(AuthError::InvalidCredentials);
    }
    match normal {
        Some(h) => Ok(h),
        None => Err(AuthError::InvalidCredentials),
    }
}

/// Checks the password of a stored user, or gives `None` when the stored hash
/// is not a valid PHC string (where `verify_credentials` may not be called).
pub fn try_verify_credentials(password: &str, record: &UserRecord) -> (r: Option<Result<String, AuthError>>)
    ensures
        r is None <==> phc_normal_form(record.password@) is None,
        r matches Some(Ok(h)) ==> credential_check(password@, record.password@) == Ok::<Seq<char>, AuthError>(h@),
        r matches Some(Err(e)) ==> credential_check(password@, record.password@) == Err::<Seq<char>, AuthError>(e),
{
    match parse_phc(record.password.as_str()) {
        None => None,
        Some(_) => Some(verify_credentials(password, record)),
    }
}

/// The permissions of each stored view, in order; the first list that does
/// not parse makes the whole login fail.
pub fn view_permissions(views: &Vec<ViewRecord>) -> (r: Result<Vec<PermissionSet>, AuthError>)
    ensures
        r is Err <==> exists|i: int| 0 <= i < views@.len() && permission_list(#[trigger] views@[i].permissions@) is None,
        r matches Err(e) ==> e == AuthError::PermissionParsingError,
        r matches Ok(ps) ==> ps@.len() == views@.len() && forall|i: int| 0 <= i < views@.len() ==> permission_list(#[trigger] views@[i].permissions@) == Some(ps@[i]@),
{
    let mut out: Vec<PermissionSet> = Vec::new();
    let mut i: usize = 0;
    while i < views.len()
        invariant
            i <= views@.len(),
            out@.len() == i,
            forall|k: int| 0 <= k < i ==> permission_list(#[trigger] views@[k].permissions@) == Some(out@[k]@),
        decreases views@.len() - i,
    {
        match parse_permission_list(views[i].permissions.as_str()) {
            None => return Err(AuthError::PermissionParsingError),
            Some(p) => out.push(p),
        }
        i = i + 1;
    }
    Ok(out)
}

/// The views a user gets from the stored views, in order: each view whose root
/// was found, at that root, under its label and with the permissions parsed
/// for it; a view whose root was not found is left out.
pub open spec fn assembled_views(
    views: Seq<ViewRecord>,
    perms: Seq<PermissionSet>,
    roots: Seq<Option<String>>,
) -> Seq<(Seq<char>, Seq<char>, PermissionSet)>
    decreases views.len(),
{
    if views.len() == 0 {
        Seq::empty()
    } else {
        let n = views.len() - 1;
        let init = assembled_views(views.drop_last(), perms, roots);
        match roots[n] {
            Some(root) => init.push((root@, views[n].label@, perms[n])),
            None => init,
        }
    }
}

/// The user a successful login gives: the name, the password hash, and the
/// stored views whose root was found (`roots[i]`, for the view `views[i]`
/// with the permissions `perms[i]`).
pub fn assemble_user(
    username: &str,
    hash: &str,
    views: &Vec<ViewRecord>,
    perms: &Vec<PermissionSet>,
    roots: &Vec<Option<String>>,
) -> (u: UserData)
    requires
        perms@.len() == views@.len(),
        roots@.len() == views@.len(),
    ensures
        u.username@ == username@,
        u.password@ == hash@,
        views_of(u.file_system_views@) == assembled_views(views@, perms@, roots@),
{
    let mut u = UserData::new(username, hash);
    let mut i: usize = 0;
    assert(views_of(u.file_system_views@) =~= assembled_views(views@.take(0), perms@, roots@));
    while i < views.len()
        invariant
            i <= views@.len(),
            perms@.len() == views@.len(),
            roots@.len() == views@.len(),
            u.username@ == username@,
            u.password@ == hash@,
            views_of(u.file_system_views@) == assembled_views(views@.take(i as int), perms@, roots@),
        decreases views@.len() - i,
    {
        let ghost before = u.file_system_views@;
        assert(views@.take(i + 1).drop_last() =~= views@.take(i as int));
        match &roots[i] {
            Some(root) => {
                let view = FileSystemView::new(root.as_str(), views[i].label.as_str(), perms[i]);
                u.add_view(view);
                assert(views_of(u.file_system_views@) =~= views_of(before).push(view_of(view)));
            },
            None => {},
        }
        i = i + 1;
    }
    assert(views@.take(i as int) =~= views@);
    u
}

/// Where a login against the SQLite user store stands.
#[derive(Debug)]
pub enum SqliteLoginState {
    /// The form has arrived; nothing is done yet.
    Begin,
    /// Waiting for the stored user of this name.
    AwaitingUser { username: String, password: String },
    /// The password matched; waiting for the user's stored views.
    AwaitingViews { username: String, hash: String },
    /// Waiting for the roots of the views, as found on disk.
    AwaitingRoots { username: String, hash: String, views: Vec<ViewRecord>, permissions: Vec<PermissionSet> },
    /// The login is over.
    Done,
}

/// What the caller's last query gave.
#[derive(Debug)]
pub enum SqliteLoginEvent {
    /// The login is to be tried.
    Start,
    /// The stored user of the name, none, or a failed query.
    UserFound(Result<Option<UserRecord>, ()>),
    /// The stored views of the user, or a failed query.
    ViewsFound(Result<Vec<ViewRecord>, ()>),
    /// For each view in order, its root as found on disk, or none when it
    /// does not exist.
    RootsFound(Vec<Option<String>>),
}

/// What the caller does next.
#[derive(Debug)]
pub enum SqliteLoginAction {
    /// Query the stored user of this name.
    FindUser(String),
    /// Query the stored views of the user with this id.
    FindViews(i64),
    /// Look up each of these roots on disk, in order.
    FindRoots(Vec<String>),
    /// The stored password hash is not a valid PHC string; the login cannot go
    /// on.
    StoredHashInvalid,
    /// The login is over with this result.
    Finish(Result<UserData, AuthError>),
    /// The event does not belong to the state; nothing is done.
    Ignore,
}

/// Whether an event belongs to a state of a login.
pub open spec fn sqlite_login_event_fits(state: SqliteLoginState, event: SqliteLoginEvent) -> bool {
    ||| state is Begin && event is Start
    ||| state is AwaitingUser && event is UserFound
    ||| state is AwaitingViews && event is ViewsFound
    ||| state is AwaitingRoots && event is RootsFound && event->RootsFound_0@.len()
        == state->AwaitingRoots_views@.len() && state->AwaitingRoots_permissions@.len()
        == state->AwaitingRoots_views@.len()
}

/// The action ends the login with an error.
pub open spec fn login_fails(action: SqliteLoginAction, e: AuthError) -> bool {
    action == SqliteLoginAction::Finish(Err(e))
}

/// The action ends the login with a user of this name, password hash and
/// views.
pub open spec fn login_succeeds(
    action: SqliteLoginAction,
    username: Seq<char>,
    hash: Seq<char>,
    views: Seq<(Seq<char>, Seq<char>, PermissionSet)>,
) -> bool {
    action matches SqliteLoginAction::Finish(Ok(u)) && u.username@ == username && u.password@ == hash
        && views_of(u.file_system_views@) == views
}

/// The roots of the stored views, in order.
pub open spec fn view_roots(views: Seq<ViewRecord>) -> Seq<Seq<char>> {
    views.map_values(|v: ViewRecord| v.root@)
}

/// One step of logging in against the SQLite user store.
///
/// A form without both a user name and a password is a back-end error. The
/// stored user of the name is looked up: a failed query is a back-end error,
/// no user means the user is unknown. A stored hash that is not a PHC string
/// ends the login. A password that Argon2 does not accept is invalid
/// credentials. Then the user's views are looked up: a failed query is a
/// back-end error, and a permission list that does not parse fails the login.
/// Last, the roots of the views are looked up on disk, and the user gets the
/// views whose root exists, in order.
pub fn sqlite_login_step(
    state: SqliteLoginState,
    event: SqliteLoginEvent,
    form: &LoginForm,
) -> (r: (SqliteLoginState, SqliteLoginAction))
    ensures
        state is Begin && event is Start && (form.username is None || form.password is None) ==> r.0 is Done
            && login_fails(r.1, AuthError::BackendError),
        state is Begin && event is Start && form.username is Some && form.password is Some ==> r.0 is AwaitingUser
            && r.0->AwaitingUser_username@ == form.username->0@ && r.0->AwaitingUser_password@ == form.password->0@
            && r.1 is FindUser && r.1->FindUser_0@ == form.username->0@,
        state is AwaitingUser && event == SqliteLoginEvent::UserFound(Err(())) ==> r.0 is Done && login_fails(
            r.1,
            AuthError::BackendError,
        ),
        state is AwaitingUser && event == SqliteLoginEvent::UserFound(Ok(None)) ==> r.0 is Done && login_fails(
            r.1,
            AuthError::UserNotFoundError,
        ),
        event matches SqliteLoginEvent::UserFound(Ok(Some(user))) ==> (state is AwaitingUser && phc_normal_form(
            user.password@,
        ) is None ==> r.0 is Done && r.1 is StoredHashInvalid),
        event matches SqliteLoginEvent::UserFound(Ok(Some(user))) ==> (state is AwaitingUser && phc_normal_form(
            user.password@,
        ) is Some && credential_check(state->AwaitingUser_password@, user.password@) is Err ==> r.0 is Done
            && login_fails(r.1, AuthError::InvalidCredentials)),
        event matches SqliteLoginEvent::UserFound(Ok(Some(user))) ==> (state is AwaitingUser && phc_normal_form(
            user.password@,
        ) is Some && credential_check(state->AwaitingUser_password@, user.password@) is Ok ==> r.0
            is AwaitingViews && r.0->AwaitingViews_username@ == state->AwaitingUser_username@
            && r.0->AwaitingViews_hash@ == credential_check(state->AwaitingUser_password@, user.password@)->Ok_0
            && r.1 == SqliteLoginAction::FindViews(user.user_id)),
        state is AwaitingViews && event == SqliteLoginEvent::ViewsFound(Err(())) ==> r.0 is Done && login_fails(
            r.1,
            AuthError::BackendError,
        ),
        event matches SqliteLoginEvent::ViewsFound(Ok(views)) ==> (state is AwaitingViews && (exists|i: int|
            0 <= i < views@.len() && permission_list(#[trigger] views@[i].permissions@) is None) ==> r.0 is Done
            && login_fails(r.1, AuthError::PermissionParsingError)),
        event matches SqliteLoginEvent::ViewsFound(Ok(views)) ==> (state is AwaitingViews && (forall|i: int|
            0 <= i < views@.len() ==> permission_list(#[trigger] views@[i].permissions@) is Some) ==> r.0
            is AwaitingRoots && r.0->AwaitingRoots_username@ == state->AwaitingViews_username@
            && r.0->AwaitingRoots_hash@ == state->AwaitingViews_hash@ && r.0->AwaitingRoots_views@ == views@
            && r.0->AwaitingRoots_permissions@.len() == views@.len() && (forall|i: int| 0 <= i < views@.len()
            ==> permission_list(#[trigger] views@[i].permissions@) == Some(r.0->AwaitingRoots_permissions@[i]@))
            && r.1 is FindRoots && r.1->FindRoots_0@.map_values(|p: String| p@) == view_roots(views@)),
        event matches SqliteLoginEvent::RootsFound(roots) ==> (state is AwaitingRoots && roots@.len()
            == state->AwaitingRoots_views@.len() && state->AwaitingRoots_permissions@.len()
            == state->AwaitingRoots_views@.len() ==> r.0 is Done && login_succeeds(
            r.1,
            state->AwaitingRoots_username@,
            state->AwaitingRoots_hash@,
            assembled_views(state->AwaitingRoots_views@, state->AwaitingRoots_permissions@, roots@),
        )),
        !sqlite_login_event_fits(state, event) ==> r.0 == state && r.1 is Ignore,
{
    match state {
        SqliteLoginState::Begin => match event {
            SqliteLoginEvent::Start => match form_username(form) {
                Ok(username) => {
                    let password = match &form.password {
                        Some(p) => copy_string(p),
                        None => String::new(),
                    };
                    let name = copy_string(&username);
                    (SqliteLoginState::AwaitingUser { username, password }, SqliteLoginAction::FindUser(name))
                },
                Err(e) => (SqliteLoginState::Done, SqliteLoginAction::Finish(Err(e))),
            },
            _ => (state, SqliteLoginAction::Ignore),
        },
        SqliteLoginState::AwaitingUser { username, password } => match event {
            SqliteLoginEvent::UserFound(lookup) => match found_user(lookup) {
                Err(e) => (SqliteLoginState::Done, SqliteLoginAction::Finish(Err(e))),
                Ok(user) => match try_verify_credentials(password.as_str(), &user) {
                    None => (SqliteLoginState::Done, SqliteLoginAction::StoredHashInvalid),
                    Some(Err(e)) => (SqliteLoginState::Done, SqliteLoginAction::Finish(Err(e))),
                    Some(Ok(hash)) => {
                        proof {
                            assert(credential_check(password@, user.password@) is Ok ==> credential_check(password@, user.password@) == Ok::<Seq<char>, AuthError>(
                                phc_normal_form(user.password@).unwrap(),
                            ));
                        }
                        (SqliteLoginState::AwaitingViews { username, hash }, SqliteLoginAction::FindViews(user.user_id))
                    },
                },
            },
            _ => (SqliteLoginState::AwaitingUser { username, password }, SqliteLoginAction::Ignore),
        },
        SqliteLoginState::AwaitingViews { username, hash } => match event {
            SqliteLoginEvent::ViewsFound(Err(())) => {
                (SqliteLoginState::Done, SqliteLoginAction::Finish(Err(AuthError::BackendError)))
            },
            SqliteLoginEvent::ViewsFound(Ok(views)) => match view_permissions(&views) {
                Err(e) => (SqliteLoginState::Done, SqliteLoginAction::Finish(Err(e))),
                Ok(permissions) => {
                    let mut roots: Vec<String> = Vec::new();
                    let mut i: usize = 0;
                    while i < views.len()
                        invariant
                            i <= views@.len(),
                            roots@.len() == i,
                            forall|k: int| 0 <= k < i ==> #[trigger] roots@[k]@ == views@[k].root@,
                        decreases views@.len() - i,
                    {
                        roots.push(copy_string(&views[i].root));
                        i = i + 1;
                    }
                    assert(roots@.map_values(|p: String| p@) =~= view_roots(views@));
                    (
                        SqliteLoginState::AwaitingRoots { username, hash, views, permissions },
                        SqliteLoginAction::FindRoots(roots),
                    )
                },
            },
            _ => (SqliteLoginState::AwaitingViews { username, hash }, SqliteLoginAction::Ignore),
        },
        SqliteLoginState::AwaitingRoots { username, hash, views, permissions } => match event {
            SqliteLoginEvent::RootsFound(roots) => {
                if roots.len() == views.len() && permissions.len() == views.len() {
                    let user = assemble_user(username.as_str(), hash.as_str(), &views, &permissions, &roots);
                    (SqliteLoginState::Done, SqliteLoginAction::Finish(Ok(user)))
                } else {
                    (
                        SqliteLoginState::AwaitingRoots { username, hash, views, permissions },
                        SqliteLoginAction::Ignore,
                    )
                }
            },
            _ => (SqliteLoginState::AwaitingRoots { username, hash, views, permissions }, SqliteLoginAction::Ignore),
        },
        SqliteLoginState::Done => (state, SqliteLoginAction::Ignore),
    }
}

/// The data sources that can authenticate users, asked in the order they
/// were added.
pub struct AuthProvider<D> {
    data_sources: Vec<D>,
}

/// What to do after a data source has answered.
#[derive(Debug)]
pub enum AuthStep {
    /// The data source accepted the form: the user is logged in.
    Authenticated(UserData),
    /// Ask the data source at this index next.
    TryNext(usize),
    /// No data source accepted the form.
    Rejected,
}

/// The user data of the first answer that accepted the form, if any.
pub open spec fn first_success(results: Seq<Result<UserData, AuthError>>) -> Option<UserData>
    decreases results.len(),
{
    if results.len() == 0 {
        None
    } else {
        match results[0] {
            Ok(u) => Some(u),
            Err(_) => first_success(results.drop_first()),
        }
    }
}

/// The step after source `index` of `count` answered `result`.
pub open spec fn auth_step(count: nat, index: nat, result: Result<UserData, AuthError>) -> AuthStep {
    match result {
        Ok(u) => AuthStep::Authenticated(u),
        Err(_) => if index + 1 < count {
            AuthStep::TryNext((index + 1) as usize)
        } else {
            AuthStep::Rejected
        },
    }
}

/// Asking the sources from `index` on, with `results[i]` the answer of source `i`.
pub open spec fn run_auth(count: nat, results: Seq<Result<UserData, AuthError>>, index: nat) -> Option<UserData>
    decreases count - index,
{
    if index >= count {
        None
    } else {
        match auth_step(count, index, results[index as int]) {
            AuthStep::Authenticated(u) => Some(u),
            AuthStep::TryNext(j) => if j > index { run_auth(count, results, j as nat) } else { None },
            AuthStep::Rejected => None,
        }
    }
}

/// Asking the data sources in order, stopping at the first that accepts the
/// form, logs the user in with that source's user data, and rejects the form
/// when none accepts it.
pub proof fn lemma_auth_gives_first_success(results: Seq<Result<UserData, AuthError>>, index: nat)
    requires
        index <= results.len(),
        results.len() < usize::MAX,
    ensures
        run_auth(results.len(), results, index) == first_success(results.skip(index as int)),
    decreases results.len() - index,
{
    if index < results.len() {
        assert(results.skip(index as int)[0] == results[index as int]);
        assert(results.skip(index as int).drop_first() =~= results.skip(index as int + 1));
        lemma_auth_gives_first_success(results, index + 1);
        if index + 1 >= results.len() {
            assert(results.skip(index as int + 1).len() == 0);
        }
    } else {
        assert(results.skip(index as int).len() == 0);
    }
}

impl<D> AuthProvider<D> {
    /// A provider without data sources.
    pub fn new() -> (p: AuthProvider<D>)
        ensures
            p.sources()@.len() == 0,
    {
        AuthProvider { data_sources: Vec::new() }
    }

    /// The data sources, in order.
    pub closed spec fn sources(&self) -> Vec<D> {
        self.data_sources
    }

    /// Adds a data source, asked after those already added.
    pub fn add_data_source(&mut self, data_source: D)
        ensures
            final(self).sources()@ == old(self).sources()@.push(data_source),
    {
        self.data_sources.push(data_source);
    }

    /// The data sources, in order.
    pub fn data_sources(&self) -> (v: &Vec<D>)
        ensures
            v@ == self.sources()@,
    {
        &self.data_sources
    }

    /// The first step of authenticating: ask the first source, or reject when
    /// there is none.
    pub fn first_step(&self) -> (s: AuthStep)
        ensures
            self.sources()@.len() == 0 ==> s is Rejected,
            self.sources()@.len() > 0 ==> s == AuthStep::TryNext(0),
    {
        if self.data_sources.len() == 0 {
            AuthStep::Rejected
        } else {
            AuthStep::TryNext(0)
        }
    }

    /// The step after source `index` answered `result`.
    pub fn next_step(&self, index: usize, result: Result<UserData, AuthError>) -> (s: AuthStep)
        requires
            index < self.sources()@.len(),
        ensures
            s == auth_step(self.sources()@.len(), index as nat, result),
    {
        match result {
            Ok(u) => AuthStep::Authenticated(u),
            Err(_) => if index < self.data_sources.len() - 1 {
                AuthStep::TryNext(index + 1)
            } else {
                AuthStep::Rejected
            },
        }
    }
}

} // verus!
