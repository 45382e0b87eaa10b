//! Named sessions.

use vstd::prelude::*;

verus! {

/// A session: its identifier, a version 4 UUID as a number; its name; and
/// when it was created and last changed, in milliseconds since the Unix
/// epoch.
#[derive(Debug, Clone)]
pub struct Session {
    pub id: u128,
    pub name: String,
    pub created_at: i64,
    pub updated_at: i64,
}

pub struct SessionManager {
    current_session: Option<Session>,
}

/// Whether a number is a version 4 UUID: the version field holds 4 and the
/// variant field the two bits `10`.
pub open spec fn is_version4(id: u128) -> bool {
    (id / 0x1000_0000_0000_0000_0000) % 16 == 4 && (id / 0x4000_0000_0000_0000) % 4 == 2
}

/// `uuid::Uuid::new_v4`, as the number that `as_u128` gives. The number
/// is drawn at random; all that is claimed of it is that the version and
/// variant fields are set as `new_v4` sets them.
#[verifier::external_body]
fn random_uuid() -> (id: u128)
    ensures
        is_version4(id),
{
    uuid::Uuid::new_v4().as_u128()
}

/// `chrono::Utc::now`, in milliseconds since the Unix epoch. Nothing is
/// claimed of the result: it is the time of the call.
#[verifier::external_body]
fn utc_now_millis() -> (ms: i64) {
    chrono::Utc::now().timestamp_millis()
}

impl Session {
    /// A session with a given identifier, created at a given time.
    pub fn with(id: u128, name: String, now: i64) -> (s: Session)
        ensures
            s.id == id,
            s.name == name,
            s.created_at == now,
            s.updated_at == now,
    {
        Session { id, name, created_at: now, updated_at: now }
    }

    /// A session with a fresh identifier, created now.
    pub fn new(name: String) -> (s: Session)
        ensures
            s.name == name,
            s.created_at == s.updated_at,
            is_version4(s.id),
    {
        let now = utc_now_millis();
        Session::with(random_uuid(), name, now)
    }
}

impl SessionManager {
    pub closed spec fn current(&self) -> Option<Session> {
        self.current_session
    }

    /// A manager without a session.
    pub fn new() -> (m: SessionManager)
        ensures
            m.current() is None,
    {
        SessionManager { current_session: None }
    }

    /// Starts a session under the name and makes it the current one.
    pub fn create_session(&mut self, name: String) -> (s: &Session)
        ensures
            final(self).current() == Some(*s),
            s.name == name,
            s.created_at == s.updated_at,
            is_version4(s.id),
    {
        self.current_session = Some(Session::new(name));
        self.current_session.as_ref().unwrap()
    }

    /// The current session, if one was started.
    pub fn current_session(&self) -> (s: Option<&Session>)
        ensures
            s matches Some(x) ==> self.current() == Some(*x),
            s is None ==> self.current() is None,
    {
        self.current_session.as_ref()
    }
}

} // verus!
