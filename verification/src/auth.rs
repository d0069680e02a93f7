//! The stored login token and the reading of a password key by key.
use vstd::prelude::*;
use crate::text::{opt_seq, trim, trim_str};

verus! {

/// Keeps the path of the token file.
pub struct AuthManager {
    token_path: String,
}

/// The token that a token file holds: its trimmed contents, none where the
/// file could not be read or holds only whitespace.
pub open spec fn stored_token(content: Option<Seq<char>>) -> Option<Seq<char>> {
    match content {
        Some(c) => if trim(c).len() == 0 { None } else { Some(trim(c)) },
        None => None,
    }
}

/// The trimmed token of a token file's contents (`None` where the file
/// could not be read), none where it is blank.
pub fn token_from_content(content: Option<&str>) -> (r: Option<String>)
    ensures
        match r {
            Some(t) => stored_token(opt_seq(content)) == Some(t@),
            None => stored_token(opt_seq(content)) is None,
        },
{
    match content {
        Some(c) => {
            let token = trim_str(c);
            if token.as_str().is_empty() {
                None
            } else {
                Some(token)
            }
        },
        None => None,
    }
}

impl AuthManager {
    /// The path of the token file.
    pub closed spec fn path(&self) -> Seq<char> {
        self.token_path@
    }

    pub fn new(token_path: String) -> (a: AuthManager)
        ensures
            a.path() == token_path@,
    {
        AuthManager { token_path }
    }

    /// The path of the token file.
    pub fn token_path(&self) -> (p: &str)
        ensures
            p@ == self.path(),
    {
        self.token_path.as_str()
    }

    /// The stored token, given the contents of the token file (`None` where
    /// it could not be read).
    pub fn load_token(&self, content: Option<&str>) -> (r: Option<String>)
        ensures
            match r {
                Some(t) => stored_token(opt_seq(content)) == Some(t@),
                None => stored_token(opt_seq(content)) is None,
            },
    {
        token_from_content(content)
    }
}

// ───────────────────────── password entry ─────────────────────────

/// What the terminal shows, or does, after a key.
#[derive(Clone, Copy, Debug, PartialEq, Eq, Structural)]
pub enum KeyAction {
    /// Enter: the password is complete.
    Finish,
    /// Backspace removed the last character: erase one `●`.
    Erase,
    /// Ctrl-C: print `^C` and exit with status 1.
    Interrupt,
    /// A character was added: show one `●`.
    Echo,
    /// Nothing to do.
    Ignore,
}

/// A printable ASCII character other than space (`u8::is_ascii_graphic`).
pub open spec fn is_graphic(b: u8) -> bool {
    0x21 <= b <= 0x7e
}

/// The typed text after a key byte.
pub open spec fn typed_after(typed: Seq<char>, byte: u8) -> Seq<char> {
    if (byte == 0x7f || byte == 8) && typed.len() > 0 {
        typed.drop_last()
    } else if is_graphic(byte) || byte == 0x20 {
        typed.push(byte as char)
    } else {
        typed
    }
}

/// A password being typed.
pub struct PasswordInput {
    chars: Vec<char>,
}

impl PasswordInput {
    /// What has been typed so far.
    pub closed spec fn typed(&self) -> Seq<char> {
        self.chars@
    }

    /// No key typed yet.
    pub fn new() -> (p: PasswordInput)
        ensures
            p.typed() == Seq::<char>::empty(),
    {
        PasswordInput { chars: Vec::new() }
    }

    /// Takes one key byte: Enter (`\n` or `\r`) finishes; Backspace (0x7f or
    /// 0x08) removes the last character, if any; Ctrl-C (0x03) interrupts;
    /// a printable ASCII character or space is added; anything else is
    /// ignored.
    pub fn key(&mut self, byte: u8) -> (a: KeyAction)
        ensures
            final(self).typed() == typed_after(old(self).typed(), byte),
            (byte == 10 || byte == 13) ==> a == KeyAction::Finish && final(self).typed() == old(
                self,
            ).typed(),
            (byte == 0x7f || byte == 8) ==> if old(self).typed().len() > 0 {
                a == KeyAction::Erase && final(self).typed() == old(self).typed().drop_last()
            } else {
                a == KeyAction::Ignore && final(self).typed() == old(self).typed()
            },
            byte == 3 ==> a == KeyAction::Interrupt && final(self).typed() == old(self).typed(),
            (is_graphic(byte) || byte == 0x20) ==> a == KeyAction::Echo && final(self).typed() == old(
                self,
            ).typed().push(byte as char),
            !(byte == 10 || byte == 13 || byte == 0x7f || byte == 8 || byte == 3 || is_graphic(byte)
                || byte == 0x20) ==> a == KeyAction::Ignore && final(self).typed() == old(self).typed(),
    {
        if byte == 10 || byte == 13 {
            KeyAction::Finish
        } else if byte == 0x7f || byte == 8 {
            if self.chars.len() > 0 {
                self.chars.pop();
                KeyAction::Erase
            } else {
                KeyAction::Ignore
            }
        } else if byte == 3 {
            KeyAction::Interrupt
        } else if (0x21 <= byte && byte <= 0x7e) || byte == 0x20 {
            self.chars.push(byte as char);
            KeyAction::Echo
        } else {
            KeyAction::Ignore
        }
    }

    /// The password typed.
    pub fn password(&self) -> (s: String)
        ensures
            s@ == self.typed(),
    {
        crate::text::string_of(&self.chars)
    }
}

/// Backspace undoes a typed character: typing a printable character and
/// then backspace leaves the password as it was.
pub proof fn law_backspace_undoes_key(typed: Seq<char>, byte: u8, backspace: u8)
    requires
        is_graphic(byte) || byte == 0x20,
        backspace == 0x7f || backspace == 8,
    ensures
        typed_after(typed_after(typed, byte), backspace) == typed,
{
    assert(typed.push(byte as char).drop_last() =~= typed);
}

} // verus!
