//! The OS keyring as the secret store uses it: a session that records every
//! request made through it (which entry was opened, what was written, read
//! or deleted), so that contracts can say what was handed to the keyring.
//! What the keyring answers is outside state and is not modelled.
use vstd::prelude::*;

verus! {

/// A keyring entry (`keyring::Entry`), opaque to verification.
#[verifier::external_type_specification]
#[verifier::external_body]
pub struct ExKeyringEntry(keyring::Entry);

/// A request made of the keyring, as character sequences: the entry is
/// named by its service and user.
pub enum KeyringRequest {
    /// `Entry::new(service, user)`, and whether it gave an entry.
    Open(Seq<char>, Seq<char>, bool),
    /// `set_password(password)` on the entry, and whether it succeeded.
    Write(Seq<char>, Seq<char>, Seq<char>, bool),
    /// `get_password()` on the entry.
    Get(Seq<char>, Seq<char>),
    /// `delete_credential()` on the entry.
    Delete(Seq<char>, Seq<char>),
}

/// A request made of the keyring, as it is recorded.
#[derive(Debug, PartialEq, Eq)]
pub enum KeyringCall {
    Open(String, String, bool),
    Write(String, String, String, bool),
    Get(String, String),
    Delete(String, String),
}

impl View for KeyringCall {
    type V = KeyringRequest;

    open spec fn view(&self) -> KeyringRequest {
        match self {
            KeyringCall::Open(s, u, ok) => KeyringRequest::Open(s@, u@, *ok),
            KeyringCall::Write(s, u, p, ok) => KeyringRequest::Write(s@, u@, p@, *ok),
            KeyringCall::Get(s, u) => KeyringRequest::Get(s@, u@),
            KeyringCall::Delete(s, u) => KeyringRequest::Delete(s@, u@),
        }
    }
}

/// A session with the OS keyring. Its view is the requests made through it,
/// in order; only the calls below add to it.
pub struct Keyring {
    calls: Vec<KeyringCall>,
}

impl View for Keyring {
    type V = Seq<KeyringRequest>;

    closed spec fn view(&self) -> Seq<KeyringRequest> {
        self.calls@.map_values(|c: KeyringCall| c@)
    }
}

impl Keyring {
    /// A session in which nothing has been asked yet.
    pub fn new() -> (k: Keyring)
        ensures
            k@ == Seq::<KeyringRequest>::empty(),
    {
        let k = Keyring { calls: Vec::new() };
        assert(k@ =~= Seq::<KeyringRequest>::empty());
        k
    }

    /// The requests made through this session, in order.
    pub fn requests(&self) -> (r: &Vec<KeyringCall>)
        ensures
            r@.map_values(|c: KeyringCall| c@) == self@,
    {
        &self.calls
    }
}

/// An opened keyring entry, with the service and user it was opened for.
pub struct KeyringEntry {
    service: String,
    user: String,
    entry: keyring::Entry,
}

impl KeyringEntry {
    /// The service the entry was opened for.
    pub closed spec fn service(&self) -> Seq<char> {
        self.service@
    }

    /// The user the entry was opened for.
    pub closed spec fn user(&self) -> Seq<char> {
        self.user@
    }
}

/// `keyring::Entry::new(service, user)`, its error dropped.
///
/// Trusted: the request is recorded in `keyring` with the arguments and
/// whether an entry came back, and the entry carries the service and user it
/// was opened for. Nothing is claimed of whether it succeeds.
#[verifier::external_body]
pub(crate) fn open_entry(keyring: &mut Keyring, service: &str, user: &str) -> (r: Option<KeyringEntry>)
    ensures
        final(keyring)@ == old(keyring)@.push(KeyringRequest::Open(service@, user@, r is Some)),
        r matches Some(e) ==> e.service() == service@ && e.user() == user@,
{
    let r = keyring::Entry::new(service, user).ok().map(
        |entry| KeyringEntry { service: service.to_string(), user: user.to_string(), entry },
    );
    keyring.calls.push(KeyringCall::Open(service.to_string(), user.to_string(), r.is_some()));
    r
}

/// `keyring::Entry::set_password(password)` on `entry`, telling whether it
/// succeeded.
///
/// Trusted: the request is recorded with the entry's service and user, the
/// password and the outcome. Nothing is claimed of the outcome.
#[verifier::external_body]
pub(crate) fn set_password(keyring: &mut Keyring, entry: &KeyringEntry, password: &str) -> (r: bool)
    ensures
        final(keyring)@ == old(keyring)@.push(
            KeyringRequest::Write(entry.service(), entry.user(), password@, r),
        ),
{
    let r = entry.entry.set_password(password).is_ok();
    keyring.calls.push(
        KeyringCall::Write(entry.service.clone(), entry.user.clone(), password.to_string(), r),
    );
    r
}

/// `keyring::Entry::get_password()` on `entry`, its error dropped.
///
/// Trusted: the request is recorded with the entry's service and user.
/// Nothing is claimed of the answer, which is what the keyring holds.
#[verifier::external_body]
pub(crate) fn get_password(keyring: &mut Keyring, entry: &KeyringEntry) -> (r: Option<String>)
    ensures
        final(keyring)@ == old(keyring)@.push(KeyringRequest::Get(entry.service(), entry.user())),
{
    let r = entry.entry.get_password().ok();
    keyring.calls.push(KeyringCall::Get(entry.service.clone(), entry.user.clone()));
    r
}

/// `keyring::Entry::delete_credential()` on `entry`, its outcome dropped.
///
/// Trusted: the request is recorded with the entry's service and user.
/// Nothing is claimed of the outcome.
#[verifier::external_body]
pub(crate) fn delete_credential(keyring: &mut Keyring, entry: &KeyringEntry)
    ensures
        final(keyring)@ == old(keyring)@.push(KeyringRequest::Delete(entry.service(), entry.user())),
{
    let _ = entry.entry.delete_credential();
    keyring.calls.push(KeyringCall::Delete(entry.service.clone(), entry.user.clone()));
}

} // verus!
