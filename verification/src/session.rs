//! The state of a client's session that commands read and change.
use vstd::prelude::*;
use crate::auth::{LoginForm, UserData, copy_string};
use crate::text::str_to_chars;

verus! {

/// The protection level of the data connection (RFC 2228 `PROT`).
#[derive(Clone, Copy, Debug, PartialEq, Eq, Structural, Hash)]
pub enum ProtMode {
    /// `C`: no protection.
    Clear,
    /// `S`: integrity protection.
    Safe,
    /// `E`: confidentiality protection.
    Confidential,
    /// `P`: integrity and confidentiality (TLS).
    Private,
}

/// The protection level a `PROT` argument names: one letter, in either case.
pub open spec fn prot_mode_of(s: Seq<char>) -> Option<ProtMode> {
    if s.len() != 1 {
        None
    } else if s[0] == 'C' || s[0] == 'c' {
        Some(ProtMode::Clear)
    } else if s[0] == 'S' || s[0] == 's' {
        Some(ProtMode::Safe)
    } else if s[0] == 'E' || s[0] == 'e' {
        Some(ProtMode::Confidential)
    } else if s[0] == 'P' || s[0] == 'p' {
        Some(ProtMode::Private)
    } else {
        None
    }
}

impl ProtMode {
    /// The protection level a `PROT` argument names.
    pub fn from_str(s: &str) -> (r: Option<ProtMode>)
        ensures
            r == prot_mode_of(s@),
    {
        let c = str_to_chars(s);
        if c.len() != 1 {
            None
        } else if c[0] == 'C' || c[0] == 'c' {
            Some(ProtMode::Clear)
        } else if c[0] == 'S' || c[0] == 's' {
            Some(ProtMode::Safe)
        } else if c[0] == 'E' || c[0] == 'e' {
            Some(ProtMode::Confidential)
        } else if c[0] == 'P' || c[0] == 'p' {
            Some(ProtMode::Private)
        } else {
            None
        }
    }
}

/// The format of ASCII transfers.
#[derive(Clone, Copy, Debug, PartialEq, Eq, Structural, Hash)]
pub enum SubType {
    NonPrint,
    TelnetFormatEffectors,
    CarriageControl,
}

/// The representation type of transfers (`TYPE`).
#[derive(Clone, Copy, Debug, PartialEq, Eq, Structural, Hash)]
pub enum DataType {
    Ascii { sub_type: SubType },
    Binary,
}

/// The state of one client's session.
#[derive(Debug)]
pub struct SessionProperties {
    /// The name of the logged-in user, if any.
    pub username: Option<String>,
    /// What the client has supplied towards logging in.
    pub login_form: LoginForm,
    /// Where the next retrieval starts.
    pub offset: u64,
    pub data_type: DataType,
    pub prot_mode: ProtMode,
    pub pbsz: Option<u32>,
    pub utf8: bool,
}

impl SessionProperties {
    /// A new session: nobody logged in, ASCII non-print transfers, no
    /// protection, no restart offset.
    pub fn new() -> (s: SessionProperties)
        ensures
            s.username is None,
            s.login_form.username is None,
            s.login_form.password is None,
            s.offset == 0,
            s.data_type == (DataType::Ascii { sub_type: SubType::NonPrint }),
            s.prot_mode == ProtMode::Clear,
            s.pbsz is None,
            !s.utf8,
    {
        SessionProperties {
            username: None,
            login_form: LoginForm::new(),
            offset: 0,
            data_type: DataType::Ascii { sub_type: SubType::NonPrint },
            prot_mode: ProtMode::Clear,
            pbsz: None,
            utf8: false,
        }
    }

    /// Whether a user is logged in.
    pub open spec fn logged_in(&self) -> bool {
        self.username is Some
    }

    /// Whether a user is logged in.
    pub fn is_logged_in(&self) -> (b: bool)
        ensures
            b == self.logged_in(),
    {
        self.username.is_some()
    }

    /// Hands out the restart offset and resets it, so that it applies to one
    /// retrieval only.
    pub fn take_offset(&mut self) -> (o: u64)
        ensures
            o == old(self).offset,
            final(self).offset == 0,
            final(self).username == old(self).username,
            final(self).login_form == old(self).login_form,
            final(self).data_type == old(self).data_type,
            final(self).prot_mode == old(self).prot_mode,
            final(self).pbsz == old(self).pbsz,
            final(self).utf8 == old(self).utf8,
    {
        let o = self.offset;
        self.offset = 0;
        o
    }

    /// Records the outcome of a login attempt with `form`: the user of the
    /// accepted form is logged in; a rejected attempt changes nothing but the
    /// form. Returns whether the attempt succeeded.
    pub fn login(&mut self, form: LoginForm, user: Option<UserData>) -> (ok: bool)
        ensures
            ok == user is Some,
            final(self).login_form == form,
            user matches Some(u) ==> final(self).username matches Some(n) && n@ == u.username@,
            user is None ==> final(self).username == old(self).username,
            final(self).offset == old(self).offset,
            final(self).data_type == old(self).data_type,
            final(self).prot_mode == old(self).prot_mode,
            final(self).pbsz == old(self).pbsz,
            final(self).utf8 == old(self).utf8,
    {
        self.login_form = form;
        match user {
            Some(u) => {
                self.username = Some(copy_string(&u.username));
                true
            },
            None => false,
        }
    }
}

} // verus!
