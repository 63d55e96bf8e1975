//! Sessions and their string-tagged properties.
//!
//! The session directory reports a session's state, type and class as
//! keyword strings. Each is modelled as a closed enumeration with an
//! explicit `Unknown` case, and parsing is uniform: a recognised keyword
//! yields its variant, anything else degrades to `Unknown` — no keyword ever
//! aborts an operation. The directory queries themselves are plain
//! request/response calls made by the embedding application, which hands the
//! returned strings to the parsers here.

use vstd::prelude::*;

verus! {

/// Relies on str's equality: two string slices are equal exactly when their
/// character sequences are.
#[verifier::external_body]
fn str_eq(a: &str, b: &str) -> (r: bool)
    ensures
        r <==> a@ == b@,
{
    a == b
}

/// A session's lifecycle state.
#[derive(Clone, Copy, Debug, PartialEq, Eq, Structural)]
pub enum State {
    Unknown,
    Online,
    Active,
    Closing,
}

/// The state a keyword names; an unrecognised keyword is `Unknown`.
pub open spec fn spec_parse_state(s: Seq<char>) -> State {
    if s == "online"@ {
        State::Online
    } else if s == "active"@ {
        State::Active
    } else if s == "closing"@ {
        State::Closing
    } else {
        State::Unknown
    }
}

impl From<&str> for State {
    fn from(s: &str) -> (r: State) {
        if str_eq(s, "online") {
            State::Online
        } else if str_eq(s, "active") {
            State::Active
        } else if str_eq(s, "closing") {
            State::Closing
        } else {
            State::Unknown
        }
    }
}

impl vstd::std_specs::convert::FromSpecImpl<&str> for State {
    open spec fn obeys_from_spec() -> bool {
        true
    }

    open spec fn from_spec(s: &str) -> State {
        spec_parse_state(s@)
    }
}

/// What kind of display server, if any, a session runs under.
#[derive(Clone, Copy, Debug, PartialEq, Eq, Structural)]
pub enum Type {
    Unspecified,
    X11,
    Wayland,
    TTY,
    Mir,
    Unknown,
}

/// The type a keyword names; an unrecognised keyword is `Unknown`.
pub open spec fn spec_parse_type(s: Seq<char>) -> Type {
    if s == "x11"@ {
        Type::X11
    } else if s == "wayland"@ {
        Type::Wayland
    } else if s == "tty"@ {
        Type::TTY
    } else if s == "mir"@ {
        Type::Mir
    } else if s == "unspecified"@ {
        Type::Unspecified
    } else {
        Type::Unknown
    }
}

impl From<&str> for Type {
    fn from(s: &str) -> (r: Type) {
        if str_eq(s, "x11") {
            Type::X11
        } else if str_eq(s, "wayland") {
            Type::Wayland
        } else if str_eq(s, "tty") {
            Type::TTY
        } else if str_eq(s, "mir") {
            Type::Mir
        } else if str_eq(s, "unspecified") {
            Type::Unspecified
        } else {
            Type::Unknown
        }
    }
}

impl vstd::std_specs::convert::FromSpecImpl<&str> for Type {
    open spec fn obeys_from_spec() -> bool {
        true
    }

    open spec fn from_spec(s: &str) -> Type {
        spec_parse_type(s@)
    }
}

/// What a session is for.
#[derive(Clone, Copy, Debug, PartialEq, Eq, Structural)]
pub enum Class {
    User,
    Greeter,
    LockScreen,
    Background,
    Unknown,
}

/// The class a keyword names; an unrecognised keyword is `Unknown`.
pub open spec fn spec_parse_class(s: Seq<char>) -> Class {
    if s == "user"@ {
        Class::User
    } else if s == "greeter"@ {
        Class::Greeter
    } else if s == "lock-screen"@ {
        Class::LockScreen
    } else if s == "background"@ {
        Class::Background
    } else {
        Class::Unknown
    }
}

impl From<&str> for Class {
    fn from(s: &str) -> (r: Class) {
        if str_eq(s, "user") {
            Class::User
        } else if str_eq(s, "greeter") {
            Class::Greeter
        } else if str_eq(s, "lock-screen") {
            Class::LockScreen
        } else if str_eq(s, "background") {
            Class::Background
        } else {
            Class::Unknown
        }
    }
}

impl vstd::std_specs::convert::FromSpecImpl<&str> for Class {
    open spec fn obeys_from_spec() -> bool {
        true
    }

    open spec fn from_spec(s: &str) -> Class {
        spec_parse_class(s@)
    }
}

/// One logged-in session: its string identifier and the id of the user it
/// belongs to.
#[derive(Debug)]
pub struct Session {
    pub identifier: String,
    pub uid: u32,
}

impl Session {
    /// A session record from its identifier and user id.
    pub fn new(identifier: String, uid: u32) -> (s: Session)
        ensures
            s.identifier == identifier,
            s.uid == uid,
    {
        Session { identifier, uid }
    }
}

impl PartialEq for Session {
    /// Two records name the same session exactly when their identifiers
    /// agree; the user id does not distinguish sessions.
    fn eq(&self, other: &Self) -> (r: bool) {
        self.identifier == other.identifier
    }
}

impl vstd::std_specs::cmp::PartialEqSpecImpl for Session {
    open spec fn obeys_eq_spec() -> bool {
        true
    }

    open spec fn eq_spec(&self, other: &Session) -> bool {
        self.identifier@ == other.identifier@
    }
}

/// The session records of one directory listing, given per entry the
/// identifier and the user id where its lookup succeeded: one record per
/// entry, in the reported order, skipping an entry without a user id.
pub open spec fn spec_collect_sessions(entries: Seq<(String, Option<u32>)>) -> Seq<Session>
    decreases entries.len(),
{
    if entries.len() == 0 {
        Seq::empty()
    } else {
        let rest = spec_collect_sessions(entries.drop_first());
        match entries[0].1 {
            Some(uid) => seq![(Session { identifier: entries[0].0, uid: uid })] + rest,
            None => rest,
        }
    }
}

/// Assembles the session records of a directory listing from plain values.
/// Each entry carries a session identifier and, where the lookup succeeded,
/// the owning user id; an entry whose user id lookup failed is skipped, and
/// the reported order is kept.
pub fn collect_sessions(entries: &Vec<(String, Option<u32>)>) -> (sessions: Vec<Session>)
    ensures
        sessions@ == spec_collect_sessions(entries@),
{
    let mut sessions: Vec<Session> = Vec::new();
    let mut i: usize = 0;
    proof {
        assert(entries@.skip(0) =~= entries@);
        assert(Seq::<Session>::empty() + spec_collect_sessions(entries@)
            =~= spec_collect_sessions(entries@));
    }
    while i < entries.len()
        invariant
            i <= entries@.len(),
            spec_collect_sessions(entries@) == sessions@ + spec_collect_sessions(
                entries@.skip(i as int),
            ),
        decreases entries@.len() - i,
    {
        proof {
            assert(entries@.skip(i as int)[0] == entries@[i as int]);
            assert(entries@.skip(i as int).drop_first() =~= entries@.skip(i as int + 1));
        }
        if let Some(uid) = entries[i].1 {
            sessions.push(Session { identifier: entries[i].0.clone(), uid });
            proof {
                assert(sessions@ + spec_collect_sessions(entries@.skip(i as int + 1))
                    =~= sessions@.subrange(0, sessions@.len() - 1) + (seq![
                    (Session { identifier: entries@[i as int].0, uid: uid }),
                ] + spec_collect_sessions(entries@.skip(i as int + 1))));
            }
        }
        i = i + 1;
    }
    proof {
        assert(entries@.skip(entries@.len() as int) =~= Seq::<(String, Option<u32>)>::empty());
        assert(sessions@ + Seq::<Session>::empty() =~= sessions@);
    }
    sessions
}

/// The first session of `sessions` whose identifier is `id`, if any.
pub open spec fn spec_find_session(sessions: Seq<Session>, id: Seq<char>) -> Option<Session>
    decreases sessions.len(),
{
    if sessions.len() == 0 {
        None
    } else if sessions[0].identifier@ == id {
        Some(sessions[0])
    } else {
        spec_find_session(sessions.drop_first(), id)
    }
}

/// Picks the session with the given identifier out of a directory listing:
/// the first one whose identifier matches, or `None` when none does.
pub fn get_session(sessions: Vec<Session>, identifier: &str) -> (r: Option<Session>)
    ensures
        r == spec_find_session(sessions@, identifier@),
{
    let ghost all = sessions@;
    let mut remaining = sessions;
    let mut i: usize = 0;
    proof {
        assert(all.skip(0) =~= all);
    }
    while i < remaining.len()
        invariant
            i <= all.len(),
            remaining@ == all,
            all == sessions@,
            spec_find_session(all, identifier@) == spec_find_session(
                all.skip(i as int),
                identifier@,
            ),
        decreases all.len() - i,
    {
        proof {
            assert(all.skip(i as int)[0] == all[i as int]);
            assert(all.skip(i as int).drop_first() =~= all.skip(i as int + 1));
        }
        if str_eq(remaining[i].identifier.as_str(), identifier) {
            proof {
                assert(spec_find_session(all.skip(i as int), identifier@) == Some(
                    all[i as int],
                ));
            }
            let found = remaining.remove(i);
            return Some(found);
        }
        i = i + 1;
    }
    proof {
        assert(all.skip(all.len() as int) =~= Seq::<Session>::empty());
    }
    None
}

} // verus!
