//! The membership store: which users have joined which chats, with the
//! reverse index from a user to the chats they belong to.

use crate::entities::{opt_chars, Chat};
use std::collections::hash_map::Entry;
use std::collections::{HashMap, HashSet};
use vstd::prelude::*;
use vstd::std_specs::iter::IteratorSpec;

verus! {

broadcast use vstd::std_specs::hash::group_hash_axioms;

/// One persisted chat: its id, its title where it has one, and the users
/// that joined it.
#[derive(Debug, PartialEq, Eq)]
pub struct ChatInfo {
    pub id: i64,
    pub title: Option<String>,
    pub members: HashSet<i64>,
}

/// A chat as a plain value: its title by its characters, its members as a
/// set.
#[verifier::ext_equal]
pub struct ChatInfoView {
    pub id: i64,
    pub title: Option<Seq<char>>,
    pub members: Set<i64>,
}

impl View for ChatInfo {
    type V = ChatInfoView;

    open spec fn view(&self) -> ChatInfoView {
        ChatInfoView { id: self.id, title: opt_chars(self.title), members: self.members@ }
    }
}

/// The views of a sequence of records, in order.
pub open spec fn records_view(records: Seq<ChatInfo>) -> Seq<ChatInfoView> {
    records.map_values(|c: ChatInfo| c@)
}

/// `user` has joined `chat`.
pub open spec fn is_member(m: Map<i64, ChatInfoView>, user: i64, chat: i64) -> bool {
    m.contains_key(chat) && m[chat].members.contains(user)
}

/// The reverse index: the chats that `user` has joined.
pub open spec fn chats_of(m: Map<i64, ChatInfoView>, user: i64) -> Set<i64> {
    Set::new(|chat: i64| is_member(m, user, chat))
}

/// Every record is filed under its own id.
pub open spec fn well_keyed(m: Map<i64, ChatInfoView>) -> bool {
    forall|id: i64| #[trigger] m.contains_key(id) ==> m[id].id == id
}

/// The store after `user` joins the chat `chat`: a chat that was not known is
/// created with the given title and no members, then `user` is added to it.
pub open spec fn with_member(
    m: Map<i64, ChatInfoView>,
    user: i64,
    chat: i64,
    title: Option<Seq<char>>,
) -> Map<i64, ChatInfoView> {
    let prior = if m.contains_key(chat) {
        m[chat]
    } else {
        ChatInfoView { id: chat, title, members: Set::empty() }
    };
    m.insert(
        chat,
        ChatInfoView { id: prior.id, title: prior.title, members: prior.members.insert(user) },
    )
}

/// The store that a list of records stands for: each record is filed under
/// its id, and of two records with one id the later one stays.
pub open spec fn loaded(records: Seq<ChatInfoView>) -> Map<i64, ChatInfoView>
    decreases records.len(),
{
    if records.len() == 0 {
        Map::empty()
    } else {
        loaded(records.drop_last()).insert(records.last().id, records.last())
    }
}

/// `listing` holds the records of exactly the chats in `ids`, each once, in
/// some order.
pub open spec fn lists(m: Map<i64, ChatInfoView>, ids: Set<i64>, listing: Seq<ChatInfoView>) -> bool {
    &&& forall|i: int|
        0 <= i < listing.len() ==> {
            &&& ids.contains(#[trigger] listing[i].id)
            &&& m.contains_key(listing[i].id)
            &&& m[listing[i].id] == listing[i]
        }
    &&& forall|i: int, j: int|
        0 <= i < j < listing.len() ==> #[trigger] listing[i].id != #[trigger] listing[j].id
    &&& forall|id: i64|
        ids.contains(id) ==> exists|i: int| 0 <= i < listing.len() && #[trigger] listing[i].id == id
}

fn clone_title(title: &Option<String>) -> (r: Option<String>)
    ensures
        opt_chars(r) == opt_chars(*title),
{
    match title {
        Some(t) => Some(t.clone()),
        None => None,
    }
}

/// What it means that the items of an iterator make up a set.
proof fn lemma_items_of_set(items: Seq<&i64>, set: Set<i64>)
    requires
        items.unref().to_set() == set,
    ensures
        forall|u: i64| set.contains(u) <==> exists|i: int| 0 <= i < items.len() && *items[i] == u,
{
    let plain = items.unref();
    assert forall|u: i64| set.contains(u) implies exists|i: int|
        0 <= i < items.len() && *items[i] == u by {
        let i = choose|i: int| 0 <= i < plain.len() && plain[i] == u;
        assert(*items[i] == u);
    }
    assert forall|u: i64| (exists|i: int| 0 <= i < items.len() && *items[i] == u) implies set.contains(
        u,
    ) by {
        let i = choose|i: int| 0 <= i < items.len() && *items[i] == u;
        assert(plain[i] == u);
        assert(plain.contains(u));
    }
}

fn clone_members(members: &HashSet<i64>) -> (r: HashSet<i64>)
    ensures
        r@ == members@,
{
    let mut r: HashSet<i64> = HashSet::new();
    let ghost items = members.iter().remaining();
    proof {
        lemma_items_of_set(items, members@);
    }
    for user in it: members.iter()
        invariant
            it.seq() == items,
            forall|u: i64|
                r@.contains(u) <==> exists|i: int| 0 <= i < it.index() && *items[i] == u,
    {
        r.insert(*user);
    }
    assert(r@ =~= members@);
    r
}

impl Clone for ChatInfo {
    fn clone(&self) -> (r: Self)
        ensures
            r@ == self@,
    {
        ChatInfo {
            id: self.id,
            title: clone_title(&self.title),
            members: clone_members(&self.members),
        }
    }
}

/// Joining adds one membership and changes no other.
pub proof fn lemma_with_member(
    m: Map<i64, ChatInfoView>,
    user: i64,
    chat: i64,
    title: Option<Seq<char>>,
)
    ensures
        forall|u: i64, c: i64|
            #![trigger is_member(with_member(m, user, chat, title), u, c)]
            is_member(with_member(m, user, chat, title), u, c) <==> is_member(m, u, c) || (u == user
                && c == chat),
        well_keyed(m) ==> well_keyed(with_member(m, user, chat, title)),
        with_member(m, user, chat, title).dom() == m.dom().insert(chat),
{
}

/// Joining twice is joining once: for a user who was not a member, the
/// first join is new and the second is not, the second changes nothing, and
/// the chat has exactly one member more than before.
pub proof fn lemma_join_idempotent(
    m: Map<i64, ChatInfoView>,
    user: i64,
    chat: i64,
    first_title: Option<Seq<char>>,
    second_title: Option<Seq<char>>,
)
    requires
        !is_member(m, user, chat),
        m.contains_key(chat) ==> m[chat].members.finite(),
    ensures
        ({
            let once = with_member(m, user, chat, first_title);
            let twice = with_member(once, user, chat, second_title);
            let before: nat = if m.contains_key(chat) {
                m[chat].members.len()
            } else {
                0
            };
            &&& is_member(once, user, chat)
            &&& twice == once
            &&& once[chat].members.len() == before + 1
            &&& twice[chat].members.len() == before + 1
        }),
{
    let once = with_member(m, user, chat, first_title);
    let twice = with_member(once, user, chat, second_title);
    assert(once[chat].members.insert(user) =~= once[chat].members);
    assert(twice =~= once);
}

/// A join adds the chat to the chats of the user who joined, and leaves the
/// chats of every other user as they were.
pub proof fn lemma_chats_of_joined(
    m: Map<i64, ChatInfoView>,
    user: i64,
    chat: i64,
    title: Option<Seq<char>>,
    other: i64,
)
    ensures
        chats_of(with_member(m, user, chat, title), user) == chats_of(m, user).insert(chat),
        other != user ==> chats_of(with_member(m, user, chat, title), other) == chats_of(m, other),
{
    lemma_with_member(m, user, chat, title);
    let joined = with_member(m, user, chat, title);
    assert forall|c: i64| chats_of(joined, user).contains(c) == chats_of(m, user).insert(
        chat,
    ).contains(c) by {
        assert(is_member(joined, user, c) <==> is_member(m, user, c) || c == chat);
    }
    assert(chats_of(joined, user) =~= chats_of(m, user).insert(chat));
    if other != user {
        assert forall|c: i64| chats_of(joined, other).contains(c) == chats_of(m, other).contains(
            c,
        ) by {
            assert(is_member(joined, other, c) <==> is_member(m, other, c));
        }
        assert(chats_of(joined, other) =~= chats_of(m, other));
    }
}

/// The store after `user` joins each of `chats` in turn, a chat being given
/// by its id and title.
pub open spec fn with_memberships(
    m: Map<i64, ChatInfoView>,
    user: i64,
    chats: Seq<(i64, Option<Seq<char>>)>,
) -> Map<i64, ChatInfoView>
    decreases chats.len(),
{
    if chats.len() == 0 {
        m
    } else {
        with_member(
            with_memberships(m, user, chats.drop_last()),
            user,
            chats.last().0,
            chats.last().1,
        )
    }
}

/// After a user has joined a number of chats, their chats are those they had
/// before and those they joined, and no others.
pub proof fn lemma_chats_of_joined_all(
    m: Map<i64, ChatInfoView>,
    user: i64,
    chats: Seq<(i64, Option<Seq<char>>)>,
)
    ensures
        chats_of(with_memberships(m, user, chats), user) == chats_of(m, user).union(
            chats.map_values(|c: (i64, Option<Seq<char>>)| c.0).to_set(),
        ),
    decreases chats.len(),
{
    let ids = chats.map_values(|c: (i64, Option<Seq<char>>)| c.0);
    if chats.len() == 0 {
        assert(chats_of(m, user).union(ids.to_set()) =~= chats_of(m, user));
    } else {
        let rest = chats.drop_last();
        let rest_ids = rest.map_values(|c: (i64, Option<Seq<char>>)| c.0);
        lemma_chats_of_joined_all(m, user, rest);
        lemma_chats_of_joined(
            with_memberships(m, user, rest),
            user,
            chats.last().0,
            chats.last().1,
            user,
        );
        assert forall|c: i64| ids.to_set().contains(c) == rest_ids.to_set().insert(
            chats.last().0,
        ).contains(c) by {
            if ids.to_set().contains(c) {
                let i = choose|i: int| 0 <= i < ids.len() && ids[i] == c;
                if i < rest.len() {
                    assert(rest_ids[i] == c);
                }
            }
            if rest_ids.to_set().contains(c) {
                let i = choose|i: int| 0 <= i < rest_ids.len() && rest_ids[i] == c;
                assert(ids[i] == c);
            }
            assert(ids[chats.len() - 1] == chats.last().0);
        }
        assert(chats_of(with_memberships(m, user, chats), user) =~= chats_of(m, user).union(
            ids.to_set(),
        ));
    }
}

/// A listing has as many records as there are chats to list.
pub proof fn lemma_listing_len(
    m: Map<i64, ChatInfoView>,
    ids: Set<i64>,
    listing: Seq<ChatInfoView>,
)
    requires
        lists(m, ids, listing),
    ensures
        ids.finite(),
        listing.len() == ids.len(),
        listing.map_values(|c: ChatInfoView| c.id).no_duplicates(),
        listing.map_values(|c: ChatInfoView| c.id).to_set() == ids,
{
    let listed = listing.map_values(|c: ChatInfoView| c.id);
    assert forall|i: int, j: int| 0 <= i < listed.len() && 0 <= j < listed.len() && i != j implies listed[i]
        != listed[j] by {
        if i < j {
            assert(listing[i].id != listing[j].id);
        } else {
            assert(listing[j].id != listing[i].id);
        }
    }
    assert(listed.no_duplicates());
    listed.unique_seq_to_set();
    assert forall|id: i64| listed.to_set().contains(id) == ids.contains(id) by {
        if listed.to_set().contains(id) {
            let i = choose|i: int| 0 <= i < listed.len() && listed[i] == id;
            assert(ids.contains(listing[i].id));
        }
        if ids.contains(id) {
            let i = choose|i: int| 0 <= i < listing.len() && #[trigger] listing[i].id == id;
            assert(listed[i] == id);
        }
    }
    assert(listed.to_set() =~= ids);
    vstd::seq_lib::seq_to_set_is_finite(listed);
}

/// A user without chats who joins a number of distinct chats has exactly
/// those chats afterwards: every listing of their chats holds each of them
/// once and nothing else.
pub proof fn lemma_listing_after_joins(
    m: Map<i64, ChatInfoView>,
    user: i64,
    chats: Seq<(i64, Option<Seq<char>>)>,
    listing: Seq<ChatInfoView>,
)
    requires
        chats_of(m, user) == Set::<i64>::empty(),
        chats.map_values(|c: (i64, Option<Seq<char>>)| c.0).no_duplicates(),
        lists(
            with_memberships(m, user, chats),
            chats_of(with_memberships(m, user, chats), user),
            listing,
        ),
    ensures
        listing.len() == chats.len(),
        listing.map_values(|c: ChatInfoView| c.id).no_duplicates(),
        listing.map_values(|c: ChatInfoView| c.id).to_set() == chats.map_values(
            |c: (i64, Option<Seq<char>>)| c.0,
        ).to_set(),
{
    let joined = with_memberships(m, user, chats);
    let ids = chats.map_values(|c: (i64, Option<Seq<char>>)| c.0);
    lemma_chats_of_joined_all(m, user, chats);
    assert(chats_of(joined, user) =~= ids.to_set());
    lemma_listing_len(joined, chats_of(joined, user), listing);
    ids.unique_seq_to_set();
}

/// Records with distinct ids are all in the store that they stand for.
proof fn lemma_loaded_distinct(records: Seq<ChatInfoView>)
    requires
        forall|i: int, j: int|
            0 <= i < j < records.len() ==> #[trigger] records[i].id != #[trigger] records[j].id,
    ensures
        forall|id: i64|
            loaded(records).contains_key(id) <==> exists|i: int|
                0 <= i < records.len() && #[trigger] records[i].id == id,
        forall|i: int|
            0 <= i < records.len() ==> loaded(records)[#[trigger] records[i].id] == records[i],
    decreases records.len(),
{
    if records.len() > 0 {
        let rest = records.drop_last();
        assert forall|i: int, j: int| 0 <= i < j < rest.len() implies #[trigger] rest[i].id
            != #[trigger] rest[j].id by {
            assert(records[i].id != records[j].id);
        }
        lemma_loaded_distinct(rest);
        let n = records.len() - 1;
        assert forall|id: i64| loaded(records).contains_key(id) <==> exists|i: int|
            0 <= i < records.len() && #[trigger] records[i].id == id by {
            if loaded(records).contains_key(id) {
                if id == records.last().id {
                    assert(records[n].id == id);
                } else {
                    assert(loaded(rest).contains_key(id));
                    let i = choose|i: int| 0 <= i < rest.len() && #[trigger] rest[i].id == id;
                    assert(rest[i] == records[i]);
                    assert(records[i].id == id);
                }
            }
            if exists|i: int| 0 <= i < records.len() && #[trigger] records[i].id == id {
                let i = choose|i: int| 0 <= i < records.len() && #[trigger] records[i].id == id;
                if i < n {
                    assert(rest[i] == records[i]);
                    assert(rest[i].id == id);
                    assert(loaded(rest).contains_key(id));
                } else {
                    assert(id == records.last().id);
                }
            }
        }
        assert forall|i: int| 0 <= i < records.len() implies loaded(records)[#[trigger] records[i].id]
            == records[i] by {
            if i < n {
                assert(rest[i] == records[i]);
                assert(records[i].id != records[n].id);
                assert(loaded(rest)[rest[i].id] == rest[i]);
            }
        }
    }
}

/// A snapshot that is loaded again gives the store that it was taken of: the
/// same chats with the same members, and with them the same chats of every
/// user.
pub proof fn lemma_snapshot_round_trip(m: Map<i64, ChatInfoView>, records: Seq<ChatInfoView>)
    requires
        lists(m, m.dom(), records),
    ensures
        loaded(records) == m,
        forall|user: i64| chats_of(loaded(records), user) == chats_of(m, user),
{
    lemma_loaded_distinct(records);
    assert forall|id: i64| loaded(records).contains_key(id) == m.contains_key(id) by {
        if loaded(records).contains_key(id) {
            let i = choose|i: int| 0 <= i < records.len() && #[trigger] records[i].id == id;
            assert(m.dom().contains(records[i].id));
        }
    }
    assert forall|id: i64| m.contains_key(id) implies loaded(records)[id] == m[id] by {
        let i = choose|i: int| 0 <= i < records.len() && #[trigger] records[i].id == id;
        assert(loaded(records)[records[i].id] == records[i]);
    }
    assert(loaded(records) =~= m);
}

/// The reverse index files `chat` under `user`.
spec fn linked(index: Map<i64, HashSet<i64>>, user: i64, chat: i64) -> bool {
    index.contains_key(user) && index[user]@.contains(chat)
}

/// Files `chat` under `user` in the reverse index, and leaves every other
/// pair as it was. Says whether the pair is new.
fn link(index: &mut HashMap<i64, HashSet<i64>>, user: i64, chat: i64) -> (added: bool)
    ensures
        added == !linked(old(index)@, user, chat),
        forall|u: i64, c: i64|
            #![trigger linked(final(index)@, u, c)]
            linked(final(index)@, u, c) <==> linked(old(index)@, u, c) || (u == user && c == chat),
{
    let user_chats = match index.entry(user) {
        Entry::Occupied(entry) => entry.into_mut(),
        Entry::Vacant(entry) => entry.insert(HashSet::new()),
    };
    user_chats.insert(chat)
}

/// The membership store. Both tables live in one value, so that one lock
/// around it guards them together.
pub struct Chats {
    users_to_chats: HashMap<i64, HashSet<i64>>,
    chats: HashMap<i64, ChatInfo>,
}

impl View for Chats {
    type V = Map<i64, ChatInfoView>;

    closed spec fn view(&self) -> Map<i64, ChatInfoView> {
        self.chats@.map_values(|c: ChatInfo| c@)
    }
}

/// The reverse index of a chat table, built from the member sets.
fn build_index(chats: &HashMap<i64, ChatInfo>) -> (index: HashMap<i64, HashSet<i64>>)
    ensures
        forall|u: i64, c: i64|
            #![trigger linked(index@, u, c)]
            linked(index@, u, c) <==> chats@.contains_key(c) && chats@[c].members@.contains(u),
{
    let mut index: HashMap<i64, HashSet<i64>> = HashMap::new();
    let ghost ids = chats.keys().remaining();
    proof {
        lemma_items_of_set(ids, chats@.dom());
    }
    for chat_id in it: chats.keys()
        invariant
            it.seq() == ids,
            forall|c: i64|
                chats@.contains_key(c) <==> exists|i: int| 0 <= i < ids.len() && *ids[i] == c,
            forall|u: i64, c: i64|
                #![trigger linked(index@, u, c)]
                linked(index@, u, c) <==> chats@[c].members@.contains(u) && exists|i: int|
                    0 <= i < it.index() && *ids[i] == c,
    {
        let ghost done = it.index();
        assert(*ids[done] == *chat_id);
        match chats.get(chat_id) {
            Some(chat) => {
                let ghost users = chat.members.iter().remaining();
                proof {
                    lemma_items_of_set(users, chat.members@);
                }
                for user in members: chat.members.iter()
                    invariant
                        members.seq() == users,
                        0 <= done < ids.len(),
                        *ids[done] == *chat_id,
                        chats@.contains_key(*chat_id),
                        chats@[*chat_id] == *chat,
                        forall|u: i64|
                            chat.members@.contains(u) <==> exists|j: int|
                                0 <= j < users.len() && *users[j] == u,
                        forall|u: i64, c: i64|
                            #![trigger linked(index@, u, c)]
                            linked(index@, u, c) <==> (chats@[c].members@.contains(u) && exists|
                                i: int,
                            |
                                0 <= i < done && *ids[i] == c) || (c == *chat_id && exists|j: int|
                                0 <= j < members.index() && *users[j] == u),
                {
                    link(&mut index, *user, *chat_id);
                }
            },
            None => {},
        }
    }
    index
}

impl Chats {
    /// The store that a list of records stands for. Of two records with one
    /// id the later one stays; the reverse index is built from the records
    /// that stay.
    pub fn open(chats_array: Vec<ChatInfo>) -> (r: Chats)
        ensures
            r.wf(),
            r@ == loaded(records_view(chats_array@)),
    {
        let ghost records = records_view(chats_array@);
        let mut chats: HashMap<i64, ChatInfo> = HashMap::new();
        for chat in it: chats_array
            invariant
                it.seq() == chats_array@,
                records == records_view(chats_array@),
                chats@.map_values(|c: ChatInfo| c@) == loaded(records.take(it.index())),
                forall|id: i64| #[trigger] chats@.contains_key(id) ==> chats@[id].id == id,
        {
            proof {
                let n = it.index();
                assert(records.take(n + 1).drop_last() == records.take(n));
                assert(records.take(n + 1).last() == chat@);
            }
            chats.insert(chat.id, chat);
        }
        assert(records.take(records.len() as int) == records);
        let users_to_chats = build_index(&chats);
        Chats { users_to_chats, chats }
    }

    /// The chats that `user_id` has joined, each once, in no particular
    /// order.
    pub fn get_user_chats(&self, user_id: i64) -> (r: Vec<ChatInfo>)
        requires
            self.wf(),
        ensures
            lists(self@, chats_of(self@, user_id), records_view(r@)),
    {
        let user_chats = match self.users_to_chats.get(&user_id) {
            Some(user_chats) => user_chats,
            None => {
                return Vec::new();
            },
        };
        let mut r: Vec<ChatInfo> = Vec::new();
        let ghost ids = user_chats.iter().remaining();
        proof {
            lemma_items_of_set(ids, user_chats@);
        }
        for chat_id in it: user_chats.iter()
            invariant
                self.wf(),
                it.seq() == ids,
                ids.no_duplicates(),
                self.users_to_chats@.contains_key(user_id),
                self.users_to_chats@[user_id] == *user_chats,
                forall|c: i64|
                    user_chats@.contains(c) <==> exists|i: int| 0 <= i < ids.len() && *ids[i] == c,
                r@.len() == it.index(),
                forall|i: int|
                    0 <= i < r@.len() ==> {
                        &&& (#[trigger] r@[i]).id == *ids[i]
                        &&& self@.contains_key(*ids[i])
                        &&& self@[*ids[i]] == r@[i]@
                    },
        {
            assert(*ids[it.index()] == *chat_id);
            assert(linked(self.users_to_chats@, user_id, *chat_id));
            assert(is_member(self@, user_id, *chat_id));
            match self.chats.get(chat_id) {
                Some(chat) => {
                    r.push(chat.clone());
                },
                None => {},
            }
        }
        proof {
            let listing = records_view(r@);
            assert forall|id: i64| chats_of(self@, user_id).contains(id) implies exists|i: int|
                0 <= i < listing.len() && #[trigger] listing[i].id == id by {
                assert(linked(self.users_to_chats@, user_id, id));
                let i = choose|i: int| 0 <= i < ids.len() && *ids[i] == id;
                assert(listing[i].id == id);
            }
            assert forall|i: int| 0 <= i < listing.len() implies {
                &&& chats_of(self@, user_id).contains(#[trigger] listing[i].id)
                &&& self@.contains_key(listing[i].id)
                &&& self@[listing[i].id] == listing[i]
            } by {
                assert(r@[i].id == *ids[i]);
                assert(linked(self.users_to_chats@, user_id, *ids[i]));
            }
        }
        r
    }

    /// Every record of the store, each once, in no particular order: what a
    /// snapshot file holds.
    pub fn save(&self) -> (r: Vec<ChatInfo>)
        requires
            self.wf(),
        ensures
            lists(self@, self@.dom(), records_view(r@)),
    {
        let mut r: Vec<ChatInfo> = Vec::new();
        let ghost ids = self.chats.keys().remaining();
        proof {
            lemma_items_of_set(ids, self.chats@.dom());
        }
        for chat_id in it: self.chats.keys()
            invariant
                self.wf(),
                it.seq() == ids,
                ids.no_duplicates(),
                forall|c: i64|
                    self.chats@.contains_key(c) <==> exists|i: int|
                        0 <= i < ids.len() && *ids[i] == c,
                r@.len() == it.index(),
                forall|i: int|
                    0 <= i < r@.len() ==> {
                        &&& (#[trigger] r@[i]).id == *ids[i]
                        &&& self@.contains_key(*ids[i])
                        &&& self@[*ids[i]] == r@[i]@
                    },
        {
            assert(*ids[it.index()] == *chat_id);
            match self.chats.get(chat_id) {
                Some(chat) => {
                    r.push(chat.clone());
                },
                None => {},
            }
        }
        proof {
            let listing = records_view(r@);
            assert forall|id: i64| self@.dom().contains(id) implies exists|i: int|
                0 <= i < listing.len() && #[trigger] listing[i].id == id by {
                let i = choose|i: int| 0 <= i < ids.len() && *ids[i] == id;
                assert(listing[i].id == id);
            }
            assert forall|i: int| 0 <= i < listing.len() implies {
                &&& self@.dom().contains(#[trigger] listing[i].id)
                &&& self@.contains_key(listing[i].id)
                &&& self@[listing[i].id] == listing[i]
            } by {
                assert(r@[i].id == *ids[i]);
            }
        }
        r
    }

    /// The reverse index agrees with the member sets, and every record is
    /// filed under its own id.
    pub closed spec fn wf(&self) -> bool {
        &&& forall|id: i64| #[trigger] self.chats@.contains_key(id) ==> self.chats@[id].id == id
        &&& forall|u: i64, c: i64|
            #![trigger linked(self.users_to_chats@, u, c)]
            #![trigger is_member(self@, u, c)]
            linked(self.users_to_chats@, u, c) <==> is_member(self@, u, c)
    }

    /// A well-formed store files every record under its own id.
    pub proof fn lemma_well_keyed(&self)
        requires
            self.wf(),
        ensures
            well_keyed(self@),
    {
    }

    /// The record of the chat `chat_id`, where the store has one.
    pub fn get_chat(&self, chat_id: i64) -> (r: Option<&ChatInfo>)
        ensures
            r is Some <==> self@.contains_key(chat_id),
            r matches Some(chat) ==> chat@ == self@[chat_id],
    {
        self.chats.get(&chat_id)
    }

    /// Records that `user_id` joined `chat`. A chat that the store does not
    /// know is created with the title of `chat`. Returns `true` exactly when
    /// the user was not a member before.
    pub fn add_user_chat(&mut self, user_id: i64, chat: &Chat) -> (added: bool)
        requires
            old(self).wf(),
        ensures
            final(self).wf(),
            added == !is_member(old(self)@, user_id, chat.id),
            final(self)@ == with_member(old(self)@, user_id, chat.id, opt_chars(chat.title)),
    {
        let saved_chat = match self.chats.entry(chat.id) {
            Entry::Occupied(entry) => entry.into_mut(),
            Entry::Vacant(entry) => entry.insert(
                ChatInfo { id: chat.id, title: clone_title(&chat.title), members: HashSet::new() },
            ),
        };
        let added = saved_chat.members.insert(user_id);
        proof {
            assert(self@ =~= with_member(old(self)@, user_id, chat.id, opt_chars(chat.title)));
            lemma_with_member(old(self)@, user_id, chat.id, opt_chars(chat.title));
            assert forall|id: i64| #[trigger] self.chats@.contains_key(id) implies self.chats@[id].id
                == id by {
                if id != chat.id {
                    assert(old(self).chats@.contains_key(id));
                }
            }
        }
        if !added {
            return false;
        }
        link(&mut self.users_to_chats, user_id, chat.id)
    }
}

} // verus!
