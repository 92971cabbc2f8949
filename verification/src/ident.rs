//! Resolving numeric user and group ids to display names.
//!
//! The operating-system identity database itself is a collaborator
//! behind the [`IdentityResolver`] capability; what is verified here is
//! the policy around it: the buffer truncation at the first null byte,
//! and the graceful fallback to the numeric id as text whenever the
//! database has no name for an id.

use vstd::prelude::*;

verus! {

use crate::digits::dec_digits;
use crate::digits::u64_to_dec;

/// The index of the first zero byte, or the length when there is none.
pub open spec fn first_nul(s: Seq<u8>) -> nat
    decreases s.len(),
{
    if s.len() == 0 {
        0
    } else if s[0] == 0 {
        0
    } else {
        1 + first_nul(s.drop_first())
    }
}

proof fn lemma_first_nul_at(s: Seq<u8>, i: int)
    requires
        0 <= i <= s.len(),
        forall|j: int| 0 <= j < i ==> s[j] != 0,
        i < s.len() ==> s[i] == 0,
        i == s.len() ==> (forall|j: int| 0 <= j < s.len() ==> s[j] != 0),
    ensures
        first_nul(s) == i,
    decreases s.len(),
{
    if s.len() == 0 {
    } else if s[0] == 0 {
    } else {
        lemma_first_nul_at(s.drop_first(), i - 1);
    }
}

/// The name bytes of a fixed-size lookup buffer: everything before the
/// first null terminator (the whole buffer when none is found).
pub fn truncate_at_nul(buf: Vec<u8>) -> (r: Vec<u8>)
    ensures
        r@ == buf@.subrange(0, first_nul(buf@) as int),
{
    let mut i: usize = 0;
    while i < buf.len() && buf[i] != 0
        invariant
            i <= buf@.len(),
            forall|j: int| 0 <= j < i ==> buf@[j] != 0,
        decreases buf@.len() - i,
    {
        i = i + 1;
    }
    proof {
        lemma_first_nul_at(buf@, i as int);
    }
    let mut out = buf;
    out.truncate(i);
    out
}

/// A source of display names for numeric ids. The directory lister
/// queries the operating system's identity database through it; tests
/// use an in-memory table instead. `user_name_of` and `group_name_of`
/// are the resolver's own view of its database; the exec methods must
/// answer exactly according to it.
pub trait IdentityResolver {
    /// The user name this resolver's database records for `uid`.
    /// Resolvers that live outside the verified library keep the
    /// default view; verified resolvers override it.
    open spec fn user_name_of(&self, uid: u32) -> Option<Seq<char>> {
        Option::None
    }

    /// The group name this resolver's database records for `gid`.
    open spec fn group_name_of(&self, gid: u32) -> Option<Seq<char>> {
        Option::None
    }

    /// The user name recorded for `uid`, or `None` when the database
    /// has no entry for it (or the lookup failed).
    fn resolve_user(&self, uid: u32) -> (r: Option<String>)
        ensures
            match r {
                Option::Some(name) => self.user_name_of(uid) == Option::Some(name@),
                Option::None => self.user_name_of(uid) is None,
            },
    ;

    /// The group name recorded for `gid`, or `None` when the database
    /// has no entry for it (or the lookup failed).
    fn resolve_group(&self, gid: u32) -> (r: Option<String>)
        ensures
            match r {
                Option::Some(name) => self.group_name_of(gid) == Option::Some(name@),
                Option::None => self.group_name_of(gid) is None,
            },
    ;
}

/// The displayed name for an id whose lookup answer is `lookup`: the
/// resolved name when there is one, the id in decimal otherwise.
pub open spec fn display_of(id: u32, lookup: Option<Seq<char>>) -> Seq<char> {
    match lookup {
        Option::Some(name) => name,
        Option::None => dec_digits(id as nat),
    }
}

/// Renders the lookup answer for display: the resolved name when there
/// is one, the id in decimal otherwise. A missing database entry
/// therefore never fails a listing.
pub fn display_name(id: u32, lookup: Option<String>) -> (r: String)
    ensures
        match lookup {
            Option::Some(name) => r@ == name@,
            Option::None => r@ == dec_digits(id as nat),
        },
{
    match lookup {
        Option::Some(name) => name,
        Option::None => u64_to_dec(id as u64),
    }
}

/// The name carried by the first entry of `entries` for `id`, if any.
pub open spec fn lookup_spec(entries: Seq<(u32, String)>, id: u32) -> Option<Seq<char>>
    decreases entries.len(),
{
    if entries.len() == 0 {
        Option::None
    } else if entries[0].0 == id {
        Option::Some(entries[0].1@)
    } else {
        lookup_spec(entries.drop_first(), id)
    }
}

proof fn lemma_lookup_spec_step(entries: Seq<(u32, String)>, id: u32, i: int)
    requires
        0 <= i < entries.len(),
        entries[i].0 != id,
        lookup_spec(entries, id) == lookup_spec(entries.skip(i), id),
    ensures
        lookup_spec(entries, id) == lookup_spec(entries.skip(i + 1), id),
{
    assert(entries.skip(i).drop_first() =~= entries.skip(i + 1));
}

/// The first entry of `entries` that carries `id`, if any.
pub fn lookup(entries: &Vec<(u32, String)>, id: u32) -> (r: Option<String>)
    ensures
        match r {
            Option::Some(name) => lookup_spec(entries@, id) == Option::Some(name@),
            Option::None => lookup_spec(entries@, id) is None,
        },
{
    proof {
        assert(entries@.skip(0) =~= entries@);
    }
    let mut i: usize = 0;
    while i < entries.len()
        invariant
            i <= entries@.len(),
            lookup_spec(entries@, id) == lookup_spec(entries@.skip(i as int), id),
        decreases entries@.len() - i,
    {
        if entries[i].0 == id {
            let name = entries[i].1.clone();
            proof {
                assert(entries@.skip(i as int)[0] == entries@[i as int]);
            }
            return Option::Some(name);
        }
        proof {
            lemma_lookup_spec_step(entries@, id, i as int);
        }
        i = i + 1;
    }
    Option::None
}

/// An in-memory identity database, for running the rendering pipeline
/// without the operating system's user and group files.
pub struct FakeResolver {
    pub users: Vec<(u32, String)>,
    pub groups: Vec<(u32, String)>,
}

impl IdentityResolver for FakeResolver {
    open spec fn user_name_of(&self, uid: u32) -> Option<Seq<char>> {
        lookup_spec(self.users@, uid)
    }

    open spec fn group_name_of(&self, gid: u32) -> Option<Seq<char>> {
        lookup_spec(self.groups@, gid)
    }

    fn resolve_user(&self, uid: u32) -> (r: Option<String>) {
        lookup(&self.users, uid)
    }

    fn resolve_group(&self, gid: u32) -> (r: Option<String>) {
        lookup(&self.groups, gid)
    }
}

/// Resolves `uid` to a display name, falling back to the decimal id
/// when the resolver's database has no name for it.
pub fn resolve_user_name<R: IdentityResolver>(resolver: &R, uid: u32) -> (r: String)
    ensures
        r@ == display_of(uid, resolver.user_name_of(uid)),
{
    let looked_up = resolver.resolve_user(uid);
    display_name(uid, looked_up)
}

/// Resolves `gid` to a display name, falling back to the decimal id
/// when the resolver's database has no name for it.
pub fn resolve_group_name<R: IdentityResolver>(resolver: &R, gid: u32) -> (r: String)
    ensures
        r@ == display_of(gid, resolver.group_name_of(gid)),
{
    let looked_up = resolver.resolve_group(gid);
    display_name(gid, looked_up)
}

} // verus!
