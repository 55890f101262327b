//! Identity enumeration and merging.
//!
//! The native services are consulted page by page and record by record;
//! everything they hand back arrives here as plain values: a page of
//! account references with the per-account detail and name-lookup
//! outcomes, the session records with their logon type and raw name, and
//! the group-membership answer.  This module owns every decision made on
//! those values: which entries are skipped, how display names fall back,
//! which sessions are excluded, and how the two sources merge into one
//! deduplicated, ordered identity list.
use vstd::prelude::*;

use crate::sid::{Sid, SidV, sid_parse};
use crate::utf16::{utf16_well_formed, utf16_decode, decode_utf16_strict};

verus! {

/// Plain success from the account services.
pub const NERR_SUCCESS: u32 = 0;

/// More pages (or a larger buffer) are available.
pub const ERROR_MORE_DATA: u32 = 234;

/// The caller may not read the account database.
pub const ERROR_ACCESS_DENIED: u32 = 5;

/// The requested information level is not supported.
pub const ERROR_INVALID_LEVEL: u32 = 124;

/// The logon type of a session established only for an incoming network
/// authentication.
pub const LOGON_TYPE_NETWORK: u32 = 3;

/// One lightweight account reference from the paged listing, together
/// with what the follow-up native lookups answered for it: the raw
/// identifier from the account-detail record, and the account name that
/// the identifier translation returned, if any.
pub struct AccountEntry {
    /// The account name words; None models a null name in the listing.
    pub name: Option<Vec<u16>>,
    /// The raw identifier bytes of the extended account record; None
    /// models a failed detail lookup.
    pub detail_sid: Option<Vec<u8>>,
    /// The name the identifier translation produced, if it succeeded.
    pub resolved_name: Option<String>,
}

/// One result of the paged account-listing call.
pub struct AccountPage {
    pub status: u32,
    pub entries: Vec<AccountEntry>,
}

/// The detail record of one login session.
pub struct SessionData {
    pub logon_type: u32,
    /// The raw identifier bytes embedded in the record.
    pub sid_bytes: Vec<u8>,
    /// The name the identifier translation produced, if it succeeded.
    pub resolved_name: Option<String>,
    /// The raw name field embedded in the record.
    pub raw_name: Vec<u16>,
}

/// One session as the per-session detail lookup answered: None models a
/// failed lookup.
pub struct SessionRecord {
    pub data: Option<SessionData>,
}

/// The outcome of the one-shot session enumeration: whether the call
/// succeeded, and the per-session records gathered for its identifiers.
pub struct SessionList {
    pub ok: bool,
    pub sessions: Vec<SessionRecord>,
}

/// One group record from the local group-membership lookup.
pub struct GroupEntry {
    pub name: Vec<u16>,
}

/// The outcome of the local group-membership lookup for one account.
pub struct GroupLookup {
    pub status: u32,
    pub entries: Vec<GroupEntry>,
}

/// A local group: the name is authoritative, the identifier is a
/// placeholder when the native record carries none.
pub struct Group {
    pub name: String,
    pub id: u32,
}

/// The mathematical value of a [`Group`].
#[verifier::ext_equal]
pub ghost struct GroupV {
    pub name: Seq<char>,
    pub id: u32,
}

impl View for Group {
    type V = GroupV;

    open spec fn view(&self) -> GroupV {
        GroupV { name: self.name@, id: self.id }
    }
}

/// One resolved identity of the machine.
pub struct User {
    uid: Sid,
    gid: u32,
    name: String,
    c_user_name: Vec<u16>,
    is_local: bool,
}

/// The mathematical value of a [`User`].
#[verifier::ext_equal]
pub ghost struct UserV {
    pub sid: SidV,
    pub gid: u32,
    pub name: Seq<char>,
    pub c_name: Seq<u16>,
    pub is_local: bool,
}

impl View for User {
    type V = UserV;

    closed spec fn view(&self) -> UserV {
        UserV {
            sid: self.uid@,
            gid: self.gid,
            name: self.name@,
            c_name: self.c_user_name@,
            is_local: self.is_local,
        }
    }
}

/// The views of a sequence of users.
pub open spec fn user_views(us: Seq<User>) -> Seq<UserV> {
    us.map_values(|u: User| u@)
}

/// The identity that one listed account yields, if any: entries with a
/// null name, a failed detail lookup, an unparsable identifier, or (when
/// the name translation failed) an ill-formed fallback name are skipped.
/// The translated account name is preferred over the listed one.
pub open spec fn entry_user(e: AccountEntry) -> Option<UserV> {
    if e.name is None {
        None
    } else if e.detail_sid is None {
        None
    } else {
        match sid_parse(e.detail_sid->0@) {
            None => None,
            Some(sv) => match e.resolved_name {
                Some(n) => Some(
                    (UserV {
                        sid: sv,
                        gid: 0,
                        name: n@,
                        c_name: e.name->0@,
                        is_local: true,
                    }),
                ),
                None => if utf16_well_formed(e.name->0@) {
                    Some(
                        (UserV {
                            sid: sv,
                            gid: 0,
                            name: utf16_decode(e.name->0@),
                            c_name: e.name->0@,
                            is_local: true,
                        }),
                    )
                } else {
                    None
                },
            },
        }
    }
}

/// The would-be identity of each account entry of a page, in listing
/// order.
pub open spec fn entry_images(es: Seq<AccountEntry>) -> Seq<Option<UserV>> {
    es.map_values(|e: AccountEntry| entry_user(e))
}

/// The would-be identity of each session record, in enumeration order.
pub open spec fn session_images(ss: Seq<SessionRecord>) -> Seq<Option<UserV>> {
    ss.map_values(|r: SessionRecord| session_user(r))
}

/// The identities the paged listing adds after `acc`: pages are consumed
/// in order; a page reporting success or more-data contributes its
/// entries — first-seen identifiers only — and the enumeration continues
/// only on more-data.  Any other status ends the enumeration with what
/// was gathered so far.
pub open spec fn local_users_from(acc: Seq<UserV>, pages: Seq<AccountPage>) -> Seq<UserV>
    decreases pages.len(),
{
    if pages.len() == 0 {
        Seq::empty()
    } else if pages[0].status == NERR_SUCCESS {
        dedup_append(acc, entry_images(pages[0].entries@))
    } else if pages[0].status == ERROR_MORE_DATA {
        let e = dedup_append(acc, entry_images(pages[0].entries@));
        e + local_users_from(acc + e, pages.skip(1))
    } else {
        Seq::empty()
    }
}

/// The identities the paged listing yields.
pub open spec fn local_users(pages: Seq<AccountPage>) -> Seq<UserV> {
    local_users_from(Seq::empty(), pages)
}

/// The identity one session yields, if any: failed detail lookups,
/// network-logon sessions and unparsable identifiers are skipped; the
/// translated account name is preferred, falling back to the raw name
/// field decoded as text, and to an empty name when that decoding fails.
pub open spec fn session_user(r: SessionRecord) -> Option<UserV> {
    match r.data {
        None => None,
        Some(d) => if d.logon_type == LOGON_TYPE_NETWORK {
            None
        } else {
            match sid_parse(d.sid_bytes@) {
                None => None,
                Some(sv) => Some(
                    (UserV {
                        sid: sv,
                        gid: 0,
                        name: match d.resolved_name {
                            Some(n) => n@,
                            None => if utf16_well_formed(d.raw_name@) {
                                utf16_decode(d.raw_name@)
                            } else {
                                Seq::empty()
                            },
                        },
                        c_name: Seq::empty(),
                        is_local: false,
                    }),
                ),
            }
        },
    }
}

/// Whether some listed identity already carries this canonical
/// identifier.
pub open spec fn has_sid(us: Seq<UserV>, s: SidV) -> bool {
    exists|i: int| 0 <= i < us.len() && us[i].sid == s
}

/// The identities a stream of would-be identities appends after `acc`:
/// each is kept only when it exists and no identity listed so far —
/// one of `acc` or an earlier kept one — carries its identifier.
pub open spec fn dedup_append(acc: Seq<UserV>, items: Seq<Option<UserV>>) -> Seq<UserV>
    decreases items.len(),
{
    if items.len() == 0 {
        Seq::empty()
    } else {
        match items[0] {
            Some(u) => if !has_sid(acc, u.sid) {
                seq![u] + dedup_append(acc.push(u), items.skip(1))
            } else {
                dedup_append(acc, items.skip(1))
            },
            None => dedup_append(acc, items.skip(1)),
        }
    }
}

/// The merged identity list: the local identities in listing order, then
/// the non-duplicate session identities in enumeration order, every
/// canonical identifier listed at its first appearance only.  A failed
/// session enumeration contributes nothing.
pub open spec fn merged_users(pages: Seq<AccountPage>, list: SessionList) -> Seq<UserV> {
    if list.ok {
        local_users(pages) + dedup_append(local_users(pages), session_images(list.sessions@))
    } else {
        local_users(pages)
    }
}

/// The groups reported for one identity: empty for a non-local identity
/// or a failed lookup; otherwise one group per record whose name decodes
/// as text, with a placeholder identifier.
pub open spec fn groups_spec(u: UserV, lk: GroupLookup) -> Seq<GroupV> {
    if !u.is_local {
        Seq::empty()
    } else if lk.status != NERR_SUCCESS {
        Seq::empty()
    } else {
        group_entry_views(lk.entries@)
    }
}

/// The groups a record list yields, in order, skipping records whose
/// name is not well-formed text.
pub open spec fn group_entry_views(es: Seq<GroupEntry>) -> Seq<GroupV>
    decreases es.len(),
{
    if es.len() == 0 {
        Seq::empty()
    } else {
        (if utf16_well_formed(es[0].name@) {
            seq![(GroupV { name: utf16_decode(es[0].name@), id: 0 })]
        } else {
            Seq::empty()
        }) + group_entry_views(es.skip(1))
    }
}

/// No two identities of the list carry the same canonical identifier.
pub open spec fn distinct_sids(us: Seq<UserV>) -> bool {
    forall|i: int, j: int| 0 <= i < j < us.len() ==> us[i].sid != us[j].sid
}

/// A session identity is never marked local.
pub proof fn lemma_session_user_nonlocal(r: SessionRecord)
    ensures
        (session_user(r) matches Some(u) ==> !u.is_local),
{
}

/// The identities the first-seen filter appends after `acc` all carry
/// identifiers that no identity of `acc` carries, each is one of the
/// stream's yielded identities, and appending them to a duplicate-free
/// list keeps it duplicate-free.
proof fn lemma_dedup_append_shape(acc: Seq<UserV>, items: Seq<Option<UserV>>)
    ensures
        forall|k: int| 0 <= k < dedup_append(acc, items).len()
            ==> !has_sid(acc, #[trigger] dedup_append(acc, items)[k].sid),
        forall|k: int| 0 <= k < dedup_append(acc, items).len()
            ==> exists|j: int| 0 <= j < items.len()
                && items[j] == Some(#[trigger] dedup_append(acc, items)[k]),
        distinct_sids(acc) ==> distinct_sids(acc + dedup_append(acc, items)),
    decreases items.len(),
{
    let e = dedup_append(acc, items);
    if items.len() == 0 {
        assert(acc + e =~= acc);
    } else {
        let tail = items.skip(1);
        let taken = match items[0] {
            Some(u) => !has_sid(acc, u.sid),
            None => false,
        };
        if taken {
            let u = items[0]->0;
            let acc2 = acc.push(u);
            lemma_dedup_append_shape(acc2, tail);
            let e2 = dedup_append(acc2, tail);
            assert(e =~= seq![u] + e2);
            assert forall|k: int| 0 <= k < e.len() implies !has_sid(acc, e[k].sid) by {
                if k > 0 {
                    assert(e[k] == e2[k - 1]);
                    assert(!has_sid(acc2, e2[k - 1].sid));
                    if has_sid(acc, e[k].sid) {
                        let w = choose|i: int| 0 <= i < acc.len() && acc[i].sid == e[k].sid;
                        assert(acc2[w].sid == e[k].sid);
                        assert(has_sid(acc2, e[k].sid));
                    }
                }
            };
            assert forall|k: int| 0 <= k < e.len() implies exists|j: int| 0 <= j < items.len()
                && items[j] == Some(#[trigger] e[k]) by {
                if k == 0 {
                    assert(items[0] == Some(e[0]));
                } else {
                    assert(e[k] == e2[k - 1]);
                    let j2 = choose|j: int| 0 <= j < tail.len() && tail[j] == Some(e2[k - 1]);
                    assert(items[j2 + 1] == Some(e[k]));
                }
            };
            if distinct_sids(acc) {
                assert forall|i: int, j: int| 0 <= i < j < acc2.len() implies acc2[i].sid
                    != acc2[j].sid by {
                    if j == acc.len() {
                        if acc2[i].sid == u.sid {
                            assert(has_sid(acc, u.sid));
                        }
                    }
                };
                assert(acc + e =~= acc2 + e2);
            }
        } else {
            lemma_dedup_append_shape(acc, tail);
            assert(e == dedup_append(acc, tail));
            assert forall|k: int| 0 <= k < e.len() implies exists|j: int| 0 <= j < items.len()
                && items[j] == Some(#[trigger] e[k]) by {
                let j2 = choose|j: int| 0 <= j < tail.len() && tail[j] == Some(
                    dedup_append(acc, tail)[k],
                );
                assert(items[j2 + 1] == Some(e[k]));
            };
        }
    }
}

/// The identities the paged listing adds after `acc` all carry
/// identifiers that no identity of `acc` carries, and appending them to a
/// duplicate-free list keeps it duplicate-free.
proof fn lemma_local_users_shape(acc: Seq<UserV>, pages: Seq<AccountPage>)
    ensures
        forall|k: int| 0 <= k < local_users_from(acc, pages).len()
            ==> !has_sid(acc, #[trigger] local_users_from(acc, pages)[k].sid),
        distinct_sids(acc) ==> distinct_sids(acc + local_users_from(acc, pages)),
    decreases pages.len(),
{
    let out = local_users_from(acc, pages);
    if pages.len() == 0 {
        assert(acc + out =~= acc);
    } else if pages[0].status == NERR_SUCCESS {
        lemma_dedup_append_shape(acc, entry_images(pages[0].entries@));
    } else if pages[0].status == ERROR_MORE_DATA {
        let e = dedup_append(acc, entry_images(pages[0].entries@));
        lemma_dedup_append_shape(acc, entry_images(pages[0].entries@));
        lemma_local_users_shape(acc + e, pages.skip(1));
        let t = local_users_from(acc + e, pages.skip(1));
        assert(out =~= e + t);
        assert forall|k: int| 0 <= k < out.len() implies !has_sid(acc, #[trigger] out[k].sid) by {
            if k < e.len() {
                assert(out[k] == e[k]);
            } else {
                assert(out[k] == t[k - e.len()]);
                assert(!has_sid(acc + e, t[k - e.len()].sid));
                if has_sid(acc, out[k].sid) {
                    let w = choose|i: int| 0 <= i < acc.len() && acc[i].sid == out[k].sid;
                    assert((acc + e)[w].sid == out[k].sid);
                    assert(has_sid(acc + e, out[k].sid));
                }
            }
        };
        if distinct_sids(acc) {
            assert(acc + out =~= (acc + e) + t);
        }
    } else {
        assert(acc + out =~= acc);
    }
}

/// Law: the local listing itself never yields one canonical identifier
/// twice — a repeated identifier is listed at its first appearance only.
pub proof fn lemma_local_users_distinct(pages: Seq<AccountPage>)
    ensures
        distinct_sids(local_users(pages)),
{
    lemma_local_users_shape(Seq::empty(), pages);
    assert(Seq::<UserV>::empty() + local_users_from(Seq::empty(), pages) =~= local_users(pages));
}

/// Law: the merged list never lists one canonical identifier twice, for
/// every input.
pub proof fn lemma_merged_users_distinct(pages: Seq<AccountPage>, list: SessionList)
    ensures
        distinct_sids(merged_users(pages, list)),
{
    let locals = local_users(pages);
    lemma_local_users_distinct(pages);
    if list.ok {
        lemma_dedup_append_shape(locals, session_images(list.sessions@));
    }
}

/// Law: the merged list opens with exactly the local identities, in
/// listing order, and everything after them is a non-local session
/// identity, in enumeration order.
pub proof fn lemma_locals_first(pages: Seq<AccountPage>, list: SessionList)
    ensures
        merged_users(pages, list).len() >= local_users(pages).len(),
        merged_users(pages, list).take(local_users(pages).len() as int) == local_users(pages),
        forall|k: int| local_users(pages).len() <= k < merged_users(pages, list).len()
            ==> !(#[trigger] merged_users(pages, list)[k]).is_local,
{
    let locals = local_users(pages);
    let merged = merged_users(pages, list);
    if list.ok {
        let images = session_images(list.sessions@);
        lemma_dedup_append_shape(locals, images);
        assert(merged.take(locals.len() as int) =~= locals);
        let e = dedup_append(locals, images);
        assert forall|k: int| locals.len() <= k < merged.len() implies !(
        #[trigger] merged[k]).is_local by {
            assert(merged[k] == e[k - locals.len()]);
            let j = choose|j: int| 0 <= j < images.len() && images[j] == Some(
                e[k - locals.len()],
            );
            assert(images[j] == session_user(list.sessions@[j]));
            lemma_session_user_nonlocal(list.sessions@[j]);
        };
    } else {
        assert(merged.take(locals.len() as int) =~= locals);
    }
}

/// Law: a session identity whose identifier an already-listed local
/// identity carries never appears — every identity after the local ones
/// carries an identifier that no local identity carries.
pub proof fn lemma_sessions_not_shadowing(pages: Seq<AccountPage>, list: SessionList)
    ensures
        forall|k: int| local_users(pages).len() <= k < merged_users(pages, list).len()
            ==> !has_sid(local_users(pages), (#[trigger] merged_users(pages, list)[k]).sid),
{
    let locals = local_users(pages);
    let merged = merged_users(pages, list);
    if list.ok {
        lemma_dedup_append_shape(locals, session_images(list.sessions@));
        let e = dedup_append(locals, session_images(list.sessions@));
        assert forall|k: int| locals.len() <= k < merged.len() implies !has_sid(
            locals,
            (#[trigger] merged[k]).sid,
        ) by {
            assert(merged[k] == e[k - locals.len()]);
        };
    }
}

/// Law: a session whose logon type is the network one yields no
/// identity, whatever its identifier, so it never reaches the merged
/// list.
pub proof fn lemma_network_sessions_excluded(r: SessionRecord)
    requires
        (r.data matches Some(d) && d.logon_type == LOGON_TYPE_NETWORK),
    ensures
        session_user(r) is None,
{
}

/// Law: every identity after the local ones is the image of some session
/// record — one the per-session lookup answered, whose logon type is not
/// the network one.
pub proof fn lemma_merged_tail_from_sessions(pages: Seq<AccountPage>, list: SessionList)
    ensures
        forall|k: int| local_users(pages).len() <= k < merged_users(pages, list).len()
            ==> exists|j: int| 0 <= j < list.sessions@.len()
                && session_user(list.sessions@[j]) == Some(
                #[trigger] merged_users(pages, list)[k]),
{
    let locals = local_users(pages);
    let merged = merged_users(pages, list);
    if list.ok {
        let images = session_images(list.sessions@);
        lemma_dedup_append_shape(locals, images);
        let e = dedup_append(locals, images);
        assert forall|k: int| locals.len() <= k < merged.len() implies exists|j: int| 0 <= j
            < list.sessions@.len() && session_user(list.sessions@[j]) == Some(
        #[trigger] merged[k]) by {
            assert(merged[k] == e[k - locals.len()]);
            let j = choose|j: int| 0 <= j < images.len() && images[j] == Some(
                e[k - locals.len()],
            );
            assert(images[j] == session_user(list.sessions@[j]));
            assert(session_user(list.sessions@[j]) == Some(merged[k]));
        };
    }
}

/// Law: a non-local identity reports an empty group list for every
/// possible lookup answer — no group query is ever issued for it.
pub proof fn lemma_nonlocal_groups_empty(u: UserV, lookup: GroupLookup)
    requires
        !u.is_local,
    ensures
        groups_spec(u, lookup) == Seq::<GroupV>::empty(),
{
}

fn copy_words(v: &Vec<u16>) -> (r: Vec<u16>)
    ensures
        r@ == v@,
{
    let mut out: Vec<u16> = Vec::new();
    let n = v.len();
    let mut i: usize = 0;
    while i < n
        invariant
            0 <= i <= n,
            n == v@.len(),
            out@ == v@.take(i as int),
        decreases n - i,
    {
        out.push(v[i]);
        proof {
            assert(out@ =~= v@.take(i as int + 1));
        }
        i = i + 1;
    }
    proof {
        assert(v@.take(n as int) =~= v@);
    }
    out
}

impl User {
    /// Builds one identity; a local identity keeps a copy of the raw name
    /// words for the later group-membership query, a session identity
    /// keeps none.
    fn new(uid: Sid, name: String, c_name: &Vec<u16>, is_local: bool) -> (r: User)
        ensures
            r@ == (UserV {
                sid: uid@,
                gid: 0,
                name: name@,
                c_name: if is_local { c_name@ } else { Seq::empty() },
                is_local: is_local,
            }),
    {
        let c_user_name: Vec<u16> = if is_local {
            copy_words(c_name)
        } else {
            Vec::new()
        };
        User { uid, gid: 0, name, c_user_name, is_local }
    }

    /// The canonical identifier of this identity.
    pub fn id(&self) -> (r: &Sid)
        ensures
            r@ == self@.sid,
    {
        &self.uid
    }

    /// The secondary group identifier; zero when not resolved.
    pub fn group_id(&self) -> (r: u32)
        ensures
            r == self@.gid,
    {
        self.gid
    }

    /// The best-effort human-readable name.
    pub fn name(&self) -> (r: &str)
        ensures
            r@ == self@.name,
    {
        self.name.as_str()
    }

    /// The stored copy of the raw name words, kept for a local identity
    /// so that its group membership can be queried later; empty for a
    /// session identity.
    pub fn native_name(&self) -> (r: &Vec<u16>)
        ensures
            r@ == self@.c_name,
    {
        &self.c_user_name
    }

    /// Whether this identity came from the local account database.
    pub fn is_local(&self) -> (r: bool)
        ensures
            r == self@.is_local,
    {
        self.is_local
    }

    /// The local groups of this identity, given what the membership
    /// lookup answered for its stored name.  A non-local identity always
    /// reports an empty list, whatever the lookup says, because no lookup
    /// is ever issued for it; a failed lookup also yields an empty list.
    pub fn groups(&self, lookup: &GroupLookup) -> (r: Vec<Group>)
        ensures
            r@.map_values(|g: Group| g@) == groups_spec(self@, *lookup),
            !self@.is_local ==> r@.len() == 0,
    {
        let mut out: Vec<Group> = Vec::new();
        if !self.is_local {
            proof {
                assert(out@.map_values(|g: Group| g@) =~= groups_spec(self@, *lookup));
            }
            return out;
        }
        if lookup.status != NERR_SUCCESS {
            proof {
                assert(out@.map_values(|g: Group| g@) =~= groups_spec(self@, *lookup));
            }
            return out;
        }
        let n = lookup.entries.len();
        let mut i: usize = 0;
        proof {
            assert(lookup.entries@.skip(0) =~= lookup.entries@);
        }
        while i < n
            invariant
                0 <= i <= n,
                n == lookup.entries@.len(),
                group_entry_views(lookup.entries@) == out@.map_values(|g: Group| g@)
                    + group_entry_views(lookup.entries@.skip(i as int)),
            decreases n - i,
        {
            let ghost rest = lookup.entries@.skip(i as int);
            let e = &lookup.entries[i];
            proof {
                assert(rest[0] == lookup.entries@[i as int]);
                assert(rest.skip(1) =~= lookup.entries@.skip(i as int + 1));
            }
            match decode_utf16_strict(e.name.as_slice()) {
                Some(nm) => {
                    let ghost before = out@;
                    out.push(Group { name: nm, id: 0 });
                    proof {
                        assert(out@ =~= before.push(
                            (Group { name: nm, id: 0 }),
                        ));
                        assert(out@.map_values(|g: Group| g@) =~= before.map_values(|g: Group| g@)
                            .push((GroupV { name: utf16_decode(e.name@), id: 0 })));
                        assert(out@.map_values(|g: Group| g@)
                            + group_entry_views(lookup.entries@.skip(i as int + 1))
                            =~= group_entry_views(lookup.entries@));
                    }
                },
                None => {
                    proof {
                        assert(out@.map_values(|g: Group| g@)
                            + group_entry_views(lookup.entries@.skip(i as int + 1))
                            =~= group_entry_views(lookup.entries@));
                    }
                },
            }
            i = i + 1;
        }
        proof {
            assert(lookup.entries@.skip(n as int) =~= Seq::<GroupEntry>::empty());
            assert(out@.map_values(|g: Group| g@) =~= groups_spec(self@, *lookup));
        }
        out
    }
}

/// Whether the paged listing should be asked for a further page after
/// this status.
pub fn more_pages(status: u32) -> (r: bool)
    ensures
        r == (status == ERROR_MORE_DATA),
{
    status == ERROR_MORE_DATA
}

/// The identity one account entry yields, if any.
fn process_entry(e: &AccountEntry) -> (r: Option<User>)
    ensures
        r is Some <==> entry_user(*e) is Some,
        r matches Some(u) ==> Some(u@) == entry_user(*e),
{
    let nm = match &e.name {
        Some(nm) => nm,
        None => {
            return None;
        },
    };
    let sb = match &e.detail_sid {
        Some(sb) => sb,
        None => {
            return None;
        },
    };
    let sid = match Sid::from_bytes(sb.as_slice()) {
        Some(sid) => sid,
        None => {
            return None;
        },
    };
    match &e.resolved_name {
        Some(rn) => Some(User::new(sid, rn.clone(), nm, true)),
        None => match decode_utf16_strict(nm.as_slice()) {
            Some(s) => Some(User::new(sid, s, nm, true)),
            None => None,
        },
    }
}

/// The identity one session record yields, if any.
fn process_session(r: &SessionRecord) -> (res: Option<User>)
    ensures
        res is Some <==> session_user(*r) is Some,
        res matches Some(u) ==> Some(u@) == session_user(*r),
{
    let d = match &r.data {
        Some(d) => d,
        None => {
            return None;
        },
    };
    if d.logon_type == LOGON_TYPE_NETWORK {
        return None;
    }
    let sid = match Sid::from_bytes(d.sid_bytes.as_slice()) {
        Some(sid) => sid,
        None => {
            return None;
        },
    };
    let empty_words: Vec<u16> = Vec::new();
    let name: String = match &d.resolved_name {
        Some(n) => n.clone(),
        None => match decode_utf16_strict(d.raw_name.as_slice()) {
            Some(s) => s,
            None => String::new(),
        },
    };
    Some(User::new(sid, name, &empty_words, false))
}

/// Whether some already-listed identity carries this identifier.
fn contains_sid(users: &Vec<User>, sid: &Sid) -> (r: bool)
    ensures
        r == has_sid(user_views(users@), sid@),
{
    let n = users.len();
    let mut i: usize = 0;
    while i < n
        invariant
            0 <= i <= n,
            n == users@.len(),
            forall|j: int| 0 <= j < i ==> user_views(users@)[j].sid != sid@,
        decreases n - i,
    {
        if users[i].uid.same_as(sid) {
            proof {
                assert(user_views(users@)[i as int].sid == sid@);
            }
            return true;
        }
        i = i + 1;
    }
    false
}

/// Resolves every identity of the machine: pages through the local
/// account database, then walks the active login sessions, and merges the
/// two into one list in which no canonical identifier repeats, for every
/// input — each identifier is listed at its first appearance only: all
/// local identities first, in listing order, then the non-duplicate
/// session identities in enumeration order.
pub fn get_users(pages: &Vec<AccountPage>, list: &SessionList) -> (r: Vec<User>)
    ensures
        user_views(r@) == merged_users(pages@, *list),
{
    let mut users: Vec<User> = Vec::new();
    let np = pages.len();
    let mut i: usize = 0;
    let mut stopped = false;
    proof {
        assert(pages@.skip(0) =~= pages@);
        assert(user_views(users@) =~= Seq::<UserV>::empty());
        assert(Seq::<UserV>::empty() + local_users_from(Seq::empty(), pages@)
            =~= local_users(pages@));
    }
    while i < np && !stopped
        invariant
            0 <= i <= np,
            np == pages@.len(),
            stopped ==> user_views(users@) == local_users(pages@),
            !stopped ==> local_users(pages@) == user_views(users@)
                + local_users_from(user_views(users@), pages@.skip(i as int)),
        decreases np - i, (if stopped { 0int } else { 1int }),
    {
        let ghost rest = pages@.skip(i as int);
        let p = &pages[i];
        proof {
            assert(rest[0] == pages@[i as int]);
            assert(rest.skip(1) =~= pages@.skip(i as int + 1));
        }
        if p.status == NERR_SUCCESS || p.status == ERROR_MORE_DATA {
            let ne = p.entries.len();
            let mut j: usize = 0;
            let ghost base = user_views(users@);
            let ghost images = entry_images(p.entries@);
            proof {
                assert(images.skip(0) =~= images);
            }
            while j < ne
                invariant
                    0 <= j <= ne,
                    ne == p.entries@.len(),
                    images == entry_images(p.entries@),
                    base + dedup_append(base, images) == user_views(users@)
                        + dedup_append(user_views(users@), images.skip(j as int)),
                decreases ne - j,
            {
                let ghost irest = images.skip(j as int);
                proof {
                    assert(irest[0] == images[j as int]);
                    assert(images[j as int] == entry_user(p.entries@[j as int]));
                    assert(irest.skip(1) =~= images.skip(j as int + 1));
                }
                match process_entry(&p.entries[j]) {
                    Some(u) => {
                        if !contains_sid(&users, &u.uid) {
                            let ghost before = users@;
                            proof {
                                assert(u.uid@ == u@.sid);
                            }
                            users.push(u);
                            proof {
                                assert(users@ =~= before.push(u));
                                assert(user_views(users@) =~= user_views(before).push(u@));
                                assert(base + dedup_append(base, images) =~= user_views(users@)
                                    + dedup_append(user_views(users@), images.skip(
                                    j as int + 1)));
                            }
                        } else {
                            proof {
                                assert(u.uid@ == u@.sid);
                                assert(dedup_append(user_views(users@), irest)
                                    == dedup_append(user_views(users@), images.skip(
                                    j as int + 1)));
                            }
                        }
                    },
                    None => {
                        proof {
                            assert(dedup_append(user_views(users@), irest)
                                == dedup_append(user_views(users@), images.skip(j as int + 1)));
                        }
                    },
                }
                j = j + 1;
            }
            proof {
                assert(images.skip(ne as int) =~= Seq::<Option<UserV>>::empty());
                assert(user_views(users@) =~= base + dedup_append(base, images));
            }
            if p.status == ERROR_MORE_DATA {
                proof {
                    assert(local_users(pages@) =~= user_views(users@)
                        + local_users_from(user_views(users@), pages@.skip(i as int + 1)));
                }
                i = i + 1;
            } else {
                stopped = true;
                proof {
                    assert(user_views(users@) =~= local_users(pages@));
                }
            }
        } else {
            // Access denied, an unsupported level, or any other failure
            // ends the paged enumeration with what was gathered so far.
            stopped = true;
            proof {
                assert(local_users_from(user_views(users@), rest) =~= Seq::<UserV>::empty());
                assert(user_views(users@) =~= local_users(pages@));
            }
        }
    }
    proof {
        if !stopped {
            assert(pages@.skip(np as int) =~= Seq::<AccountPage>::empty());
        }
        assert(user_views(users@) == local_users(pages@));
    }
    let ghost locals = local_users(pages@);
    if list.ok {
        let ns = list.sessions.len();
        let mut k: usize = 0;
        let ghost images = session_images(list.sessions@);
        proof {
            assert(images.skip(0) =~= images);
        }
        while k < ns
            invariant
                0 <= k <= ns,
                ns == list.sessions@.len(),
                locals == local_users(pages@),
                images == session_images(list.sessions@),
                locals + dedup_append(locals, images) == user_views(users@)
                    + dedup_append(user_views(users@), images.skip(k as int)),
            decreases ns - k,
        {
            let ghost irest = images.skip(k as int);
            proof {
                assert(irest[0] == images[k as int]);
                assert(images[k as int] == session_user(list.sessions@[k as int]));
                assert(irest.skip(1) =~= images.skip(k as int + 1));
            }
            match process_session(&list.sessions[k]) {
                Some(u) => {
                    if !contains_sid(&users, &u.uid) {
                        let ghost before = users@;
                        proof {
                            assert(u.uid@ == u@.sid);
                        }
                        users.push(u);
                        proof {
                            assert(users@ =~= before.push(u));
                            assert(user_views(users@) =~= user_views(before).push(u@));
                            assert(locals + dedup_append(locals, images)
                                =~= user_views(users@)
                                + dedup_append(user_views(users@), images.skip(k as int + 1)));
                        }
                    } else {
                        proof {
                            assert(u.uid@ == u@.sid);
                            assert(dedup_append(user_views(users@), irest)
                                == dedup_append(user_views(users@), images.skip(k as int + 1)));
                        }
                    }
                },
                None => {
                    proof {
                        assert(dedup_append(user_views(users@), irest)
                            == dedup_append(user_views(users@), images.skip(k as int + 1)));
                    }
                },
            }
            k = k + 1;
        }
        proof {
            assert(images.skip(ns as int) =~= Seq::<Option<UserV>>::empty());
            assert(user_views(users@) =~= locals + dedup_append(locals, images));
        }
    }
    users
}

} // verus!

