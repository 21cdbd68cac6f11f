//! Who may read and who may write an entity.
use crate::digits::{parse_signed, signed_number};
use crate::text::{cut, same_text, split_once};
use vstd::prelude::*;

verus! {

/// What a connection is in its room.
#[derive(Clone, Copy, Debug, PartialEq, Eq, Structural)]
pub enum Role {
    Host,
    Player,
    Audience,
    Moderator,
}

impl Role {
    /// The name that stands for the role in a query.
    pub open spec fn name(self) -> Seq<char> {
        match self {
            Role::Host => "host"@,
            Role::Player => "player"@,
            Role::Audience => "audience"@,
            Role::Moderator => "moderator"@,
        }
    }

    /// The name that stands for the role in a query.
    pub fn as_str(&self) -> (r: &'static str)
        ensures
            r@ == self.name(),
    {
        match self {
            Role::Host => "host",
            Role::Player => "player",
            Role::Audience => "audience",
            Role::Moderator => "moderator",
        }
    }

    /// The role with a name.
    pub open spec fn named(name: Seq<char>) -> Option<Role> {
        if name == "host"@ {
            Some(Role::Host)
        } else if name == "player"@ {
            Some(Role::Player)
        } else if name == "audience"@ {
            Some(Role::Audience)
        } else if name == "moderator"@ {
            Some(Role::Moderator)
        } else {
            None
        }
    }

    /// The role with a name.
    pub fn from_str(name: &str) -> (r: Option<Role>)
        ensures
            r == Role::named(name@),
    {
        if same_text(name, "host") {
            Some(Role::Host)
        } else if same_text(name, "player") {
            Some(Role::Player)
        } else if same_text(name, "audience") {
            Some(Role::Audience)
        } else if same_text(name, "moderator") {
            Some(Role::Moderator)
        } else {
            None
        }
    }
}

/// What may be done with an entity.
#[derive(Clone, Copy, Debug, PartialEq, Eq, Structural)]
pub struct Interest {
    pub readable: bool,
    pub writable: bool,
}

impl Interest {
    /// Reading alone.
    pub open spec fn read() -> Interest {
        Interest { readable: true, writable: false }
    }

    /// Reading and writing.
    pub open spec fn read_write() -> Interest {
        Interest { readable: true, writable: true }
    }

    /// What either of the two allows.
    pub open spec fn either(self, other: Interest) -> Interest {
        Interest {
            readable: self.readable || other.readable,
            writable: self.writable || other.writable,
        }
    }

    /// Whether it allows reading.
    pub fn is_readable(self) -> (r: bool)
        ensures
            r == self.readable,
    {
        self.readable
    }

    /// Whether it allows writing.
    pub fn is_writable(self) -> (r: bool)
        ensures
            r == self.writable,
    {
        self.writable
    }

    /// What either of the two allows.
    pub fn union(self, other: Interest) -> (r: Interest)
        ensures
            r == self.either(other),
    {
        Interest {
            readable: self.readable || other.readable,
            writable: self.writable || other.writable,
        }
    }
}

/// Whom an entry of an access list speaks of.
#[derive(Clone, Copy, Debug, PartialEq, Eq, Structural)]
pub enum Principle {
    /// Everyone.
    All,
    /// Everyone with the role.
    Role(Role),
    /// The connection with the id.
    Id(i64),
}

impl Principle {
    /// Whether the entry speaks of a connection with this role and id.
    pub open spec fn covers(self, role: Role, id: i64) -> bool {
        match self {
            Principle::All => true,
            Principle::Role(r) => r == role,
            Principle::Id(i) => i == id,
        }
    }

    /// Whether the entry speaks of a connection with this role and id.
    pub fn matches(&self, role: Role, id: i64) -> (r: bool)
        ensures
            r == self.covers(role, id),
    {
        match self {
            Principle::All => true,
            Principle::Role(r) => *r == role,
            Principle::Id(i) => *i == id,
        }
    }
}

/// One entry of an access list.
#[derive(Clone, Copy, Debug, PartialEq, Eq, Structural)]
pub struct Acl {
    pub interest: Interest,
    pub principle: Principle,
}

/// What an entry of an access list allows, by the letters that say so.
pub open spec fn written_interest(text: Seq<char>) -> Option<Interest> {
    if text == "r"@ {
        Some(Interest { readable: true, writable: false })
    } else if text == "w"@ {
        Some(Interest { readable: false, writable: true })
    } else if text == "rw"@ {
        Some(Interest { readable: true, writable: true })
    } else {
        None
    }
}

/// Whom an entry of an access list speaks of, by the words that say so.
pub open spec fn written_principle(text: Seq<char>) -> Option<Principle> {
    if text == "*"@ {
        Some(Principle::All)
    } else {
        match split_once(text, ":"@) {
            Some((kind, value)) => if kind == "id"@ {
                match signed_number(value) {
                    Some(id) => Some(Principle::Id(id)),
                    None => None,
                }
            } else if kind == "role"@ {
                match Role::named(value) {
                    Some(role) => Some(Principle::Role(role)),
                    None => None,
                }
            } else {
                None
            },
            None => None,
        }
    }
}

/// The entry of an access list that a text writes: what it allows, a space, and whom it speaks of.
pub open spec fn written_entry(text: Seq<char>) -> Option<Acl> {
    match split_once(text, " "@) {
        Some((interest, principle)) => match (
            written_interest(interest),
            written_principle(principle),
        ) {
            (Some(interest), Some(principle)) => Some(Acl { interest, principle }),
            _ => None,
        },
        None => None,
    }
}

impl Acl {
    /// Reads an entry.
    pub fn from_str(text: &str) -> (r: Option<Acl>)
        ensures
            r == written_entry(text@),
    {
        let (interest, principle) = match cut(text, " ") {
            Some(parts) => parts,
            None => {
                return None;
            },
        };
        let interest = if same_text(interest.as_str(), "r") {
            Interest { readable: true, writable: false }
        } else if same_text(interest.as_str(), "w") {
            Interest { readable: false, writable: true }
        } else if same_text(interest.as_str(), "rw") {
            Interest { readable: true, writable: true }
        } else {
            return None;
        };
        if same_text(principle.as_str(), "*") {
            return Some(Acl { interest, principle: Principle::All });
        }
        match cut(principle.as_str(), ":") {
            Some((kind, value)) => if same_text(kind.as_str(), "id") {
                match parse_signed(value.as_str()) {
                    Some(id) => Some(Acl { interest, principle: Principle::Id(id) }),
                    None => None,
                }
            } else if same_text(kind.as_str(), "role") {
                match Role::from_str(value.as_str()) {
                    Some(role) => Some(Acl { interest, principle: Principle::Role(role) }),
                    None => None,
                }
            } else {
                None
            },
            None => None,
        }
    }

    /// The list of an entity for which none was given: everyone reads.
    pub open spec fn default_seq() -> Seq<Acl> {
        seq![Acl { interest: Interest::read(), principle: Principle::All }]
    }

    /// The list of an entity for which none was given: everyone reads.
    pub fn default_vec() -> (r: Vec<Acl>)
        ensures
            r@ == Acl::default_seq(),
    {
        let mut r: Vec<Acl> = Vec::new();
        r.push(
            Acl {
                interest: Interest { readable: true, writable: false },
                principle: Principle::All,
            },
        );
        r
    }
}

/// Whether entry `i` of the list speaks of the connection.
pub open spec fn entry_covers(acl: Seq<Acl>, i: int, role: Role, id: i64) -> bool {
    0 <= i < acl.len() && acl[i].principle.covers(role, id)
}

/// What a list allows a connection: a host everything; any other what the entries that speak
/// of it allow together, and nothing at all where no entry does.
pub open spec fn granted(acl: Seq<Acl>, role: Role, id: i64) -> Option<Interest> {
    if role == Role::Host {
        Some(Interest::read_write())
    } else if exists|i: int| entry_covers(acl, i, role, id) {
        Some(
            Interest {
                readable: exists|i: int|
                    #[trigger] entry_covers(acl, i, role, id) && acl[i].interest.readable,
                writable: exists|i: int|
                    #[trigger] entry_covers(acl, i, role, id) && acl[i].interest.writable,
            },
        )
    } else {
        None
    }
}

/// Whether a list lets a connection read.
pub open spec fn may_read(acl: Seq<Acl>, role: Role, id: i64) -> bool {
    granted(acl, role, id) matches Some(interest) && interest.readable
}

/// Whether a list lets a connection write.
pub open spec fn may_write(acl: Seq<Acl>, role: Role, id: i64) -> bool {
    granted(acl, role, id) matches Some(interest) && interest.writable
}

/// A host may read and write whatever the list says.
pub proof fn host_is_granted_everything(acl: Seq<Acl>, id: i64)
    ensures
        may_read(acl, Role::Host, id),
        may_write(acl, Role::Host, id),
{
}

/// An entry added to a list takes no right away.
pub proof fn more_entries_grant_no_less(acl: Seq<Acl>, entry: Acl, role: Role, id: i64)
    ensures
        may_read(acl, role, id) ==> may_read(acl.push(entry), role, id),
        may_write(acl, role, id) ==> may_write(acl.push(entry), role, id),
{
    let more = acl.push(entry);
    if role != Role::Host {
        if may_read(acl, role, id) {
            let i = choose|i: int|
                #[trigger] entry_covers(acl, i, role, id) && acl[i].interest.readable;
            assert(entry_covers(more, i, role, id) && more[i].interest.readable);
        }
        if may_write(acl, role, id) {
            let i = choose|i: int|
                #[trigger] entry_covers(acl, i, role, id) && acl[i].interest.writable;
            assert(entry_covers(more, i, role, id) && more[i].interest.writable);
        }
    }
}

/// What a list grants does not depend on the order of its entries.
pub proof fn order_of_entries_is_immaterial(a: Seq<Acl>, b: Seq<Acl>, role: Role, id: i64)
    requires
        a.to_set() == b.to_set(),
    ensures
        granted(a, role, id) == granted(b, role, id),
{
    assert forall|i: int| #[trigger] entry_covers(a, i, role, id) implies exists|j: int| #[trigger]
        entry_covers(b, j, role, id) && b[j] == a[i] by {
        assert(a.to_set().contains(a[i]));
        assert(b.contains(a[i]));
        let j = choose|j: int| 0 <= j < b.len() && b[j] == a[i];
        assert(entry_covers(b, j, role, id));
    }
    assert forall|i: int| #[trigger] entry_covers(b, i, role, id) implies exists|j: int| #[trigger]
        entry_covers(a, j, role, id) && a[j] == b[i] by {
        assert(b.to_set().contains(b[i]));
        assert(a.contains(b[i]));
        let j = choose|j: int| 0 <= j < a.len() && a[j] == b[i];
        assert(entry_covers(a, j, role, id));
    }
}

/// The default list lets everyone read, and only a host write.
pub proof fn default_list_is_read_only(role: Role, id: i64)
    ensures
        may_read(Acl::default_seq(), role, id),
        may_write(Acl::default_seq(), role, id) <==> role == Role::Host,
{
    assert(entry_covers(Acl::default_seq(), 0, role, id));
}

/// The name of a role is read back as the role.
pub proof fn role_names_read_back(role: Role)
    ensures
        Role::named(role.name()) == Some(role),
{
    reveal_strlit("host");
    reveal_strlit("player");
    reveal_strlit("audience");
    reveal_strlit("moderator");
    assert("host"@[0] == 'h');
    assert("player"@[0] == 'p');
    assert("audience"@[0] == 'a');
    assert("moderator"@[0] == 'm');
}

} // verus!
