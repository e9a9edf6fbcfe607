//! Credentials in the system keyring: what is kept under which name, and when
//! the keyring is left alone.

use vstd::prelude::*;
use crate::text::{cat3, same};
#[allow(unused_imports)]
use crate::text::{holds_text, law_text_is_held, opt_str};

verus! {

/// The service under which entries are kept.
pub const SERVICE: &'static str = "adele-tui";

/// The environment variable that turns the keyring off.
pub const ENV_DISABLE: &'static str = "ADELE_TUI_DISABLE_KEYRING";

#[derive(Debug, Clone, Copy, PartialEq, Eq, Structural)]
pub enum CredentialKind {
    /// The password that goes with a user name.
    Password,
    /// A token, or the access token after signing in.
    Jwt,
    /// The token that renews an access token.
    OauthRefresh,
}

impl CredentialKind {
    pub open spec fn prefix(self) -> Seq<char> {
        match self {
            CredentialKind::Password => "password"@,
            CredentialKind::Jwt => "jwt"@,
            CredentialKind::OauthRefresh => "oauth_refresh"@,
        }
    }

    pub fn account_prefix(self) -> (s: &'static str)
        ensures
            s@ == self.prefix(),
    {
        match self {
            CredentialKind::Password => "password",
            CredentialKind::Jwt => "jwt",
            CredentialKind::OauthRefresh => "oauth_refresh",
        }
    }
}

/// The account of a credential of a profile.
pub open spec fn account(profile_id: Seq<char>, kind: CredentialKind) -> Seq<char> {
    kind.prefix() + "::"@ + profile_id
}

/// The account of a credential of a profile.
pub fn account_key(profile_id: &str, kind: CredentialKind) -> (s: String)
    ensures
        s@ == account(profile_id@, kind),
{
    cat3(kind.account_prefix(), "::", profile_id)
}

/// The values of the environment variable that turn the keyring off.
pub open spec fn turned_off(setting: Option<Seq<char>>) -> bool {
    setting == Some("1"@) || setting == Some("true"@) || setting == Some("yes"@)
}

/// Whether the environment variable turns the keyring off. None where it is not
/// set, or is no text.
pub fn keyring_disabled(setting: Option<&str>) -> (b: bool)
    ensures
        b == turned_off(opt_str(setting)),
{
    match setting {
        Some(value) => same(value, "1") || same(value, "true") || same(value, "yes"),
        None => false,
    }
}

/// An entry of the keyring.
#[derive(Debug, PartialEq, Eq)]
pub struct KeyringEntry {
    pub service: &'static str,
    pub account: String,
}

/// The entry of a credential of a profile.
pub open spec fn names(entry: KeyringEntry, profile_id: Seq<char>, kind: CredentialKind) -> bool {
    entry.service@ == SERVICE@ && entry.account@ == account(profile_id, kind)
}

fn entry_of(profile_id: &str, kind: CredentialKind) -> (entry: KeyringEntry)
    ensures
        names(entry, profile_id@, kind),
{
    KeyringEntry { service: SERVICE, account: account_key(profile_id, kind) }
}

/// The entry that a secret is stored in; an error where the keyring is off.
pub fn store(setting: Option<&str>, profile_id: &str, kind: CredentialKind) -> (r: Result<
    KeyringEntry,
    &'static str,
>)
    ensures
        match r {
            Ok(entry) => !turned_off(opt_str(setting)) && names(entry, profile_id@, kind),
            Err(e) => turned_off(opt_str(setting)) && e@ == "keyring disabled via env"@,
        },
{
    if keyring_disabled(setting) {
        return Err("keyring disabled via env");
    }
    Ok(entry_of(profile_id, kind))
}

/// The entry that a secret is read from; an error where the keyring is off.
pub fn retrieve(setting: Option<&str>, profile_id: &str, kind: CredentialKind) -> (r: Result<
    KeyringEntry,
    &'static str,
>)
    ensures
        match r {
            Ok(entry) => !turned_off(opt_str(setting)) && names(entry, profile_id@, kind),
            Err(e) => turned_off(opt_str(setting)) && e@ == "keyring disabled via env"@,
        },
{
    if keyring_disabled(setting) {
        return Err("keyring disabled via env");
    }
    Ok(entry_of(profile_id, kind))
}

/// The entry to delete; none where the keyring is off, which is no error.
pub fn delete(setting: Option<&str>, profile_id: &str, kind: CredentialKind) -> (r: Option<
    KeyringEntry,
>)
    ensures
        match r {
            Some(entry) => !turned_off(opt_str(setting)) && names(entry, profile_id@, kind),
            None => turned_off(opt_str(setting)),
        },
{
    if keyring_disabled(setting) {
        return None;
    }
    Some(entry_of(profile_id, kind))
}

/// What deleting an entry came to.
pub enum DeleteReply {
    Deleted,
    /// There was no such entry.
    Missing,
    Failed(String),
}

/// An entry that is not there counts as deleted.
pub fn deleted(reply: DeleteReply) -> (r: Result<(), String>)
    ensures
        match reply {
            DeleteReply::Failed(e) => r == Err::<(), String>(e),
            _ => r is Ok,
        },
{
    match reply {
        DeleteReply::Failed(e) => Err(e),
        _ => Ok(()),
    }
}

/// What the three kinds of account begin with.
proof fn lemma_prefixes()
    ensures
        "password"@.len() == 8 && "password"@[0] == 'p',
        "jwt"@.len() == 3 && "jwt"@[0] == 'j',
        "oauth_refresh"@.len() == 13 && "oauth_refresh"@[0] == 'o',
{
    reveal_strlit("password");
    reveal_strlit("jwt");
    reveal_strlit("oauth_refresh");
}

/// Different profiles, and different credentials of a profile, have different
/// accounts.
pub proof fn law_accounts_differ(p: Seq<char>, a: CredentialKind, q: Seq<char>, b: CredentialKind)
    requires
        account(p, a) == account(q, b),
    ensures
        p == q && a == b,
{
    lemma_prefixes();
    let s = account(p, a);
    let t = account(q, b);
    assert(s[0] == a.prefix()[0]);
    assert(t[0] == b.prefix()[0]);
    assert(a == b);
    let n = (a.prefix() + "::"@).len() as int;
    assert(s.skip(n) =~= p);
    assert(t.skip(n) =~= q);
}

/// An entry is kept under the client's service, and its account names the kind of
/// credential and the profile.
pub proof fn law_entries_name_their_profile(
    entry: KeyringEntry,
    profile_id: Seq<char>,
    kind: CredentialKind,
)
    requires
        names(entry, profile_id, kind),
    ensures
        entry.service@ == "adele-tui"@,
        holds_text(entry.account@, profile_id),
        holds_text(entry.account@, kind.prefix()),
        kind == CredentialKind::Password ==> kind.prefix() == "password"@,
        kind == CredentialKind::Jwt ==> kind.prefix() == "jwt"@,
        kind == CredentialKind::OauthRefresh ==> kind.prefix() == "oauth_refresh"@,
{
    let none = Seq::<char>::empty();
    law_text_is_held(kind.prefix() + "::"@, profile_id, none);
    law_text_is_held(none, kind.prefix(), "::"@ + profile_id);
    assert(kind.prefix() + ("::"@ + profile_id) =~= account(profile_id, kind));
}

/// The keyring is used unless it is turned off, which takes one of three words.
pub proof fn law_keyring_is_on_by_default(setting: Seq<char>)
    ensures
        !turned_off(None),
        turned_off(Some(setting)) <==> setting == "1"@ || setting == "true"@ || setting == "yes"@,
{
}

} // verus!
