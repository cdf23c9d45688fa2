//! The state that the router works on: the membership store and the
//! relay-target registry.

use crate::chats::Chats;
use crate::config::AuthConfig;
use std::collections::HashMap;
use vstd::prelude::*;

verus! {

broadcast use vstd::std_specs::hash::group_hash_axioms;

/// The relay-target registry: for each user the chat that their private
/// messages are relayed to.
pub struct RelayTargets {
    targets: HashMap<i64, i64>,
}

impl View for RelayTargets {
    type V = Map<i64, i64>;

    closed spec fn view(&self) -> Map<i64, i64> {
        self.targets@
    }
}

impl RelayTargets {
    /// A registry in which no user has a target.
    pub fn new() -> (r: RelayTargets)
        ensures
            r@ == Map::<i64, i64>::empty(),
    {
        RelayTargets { targets: HashMap::new() }
    }

    /// The registry that holds the given targets.
    pub fn open(user_chats: HashMap<i64, i64>) -> (r: RelayTargets)
        ensures
            r@ == user_chats@,
    {
        RelayTargets { targets: user_chats }
    }

    /// The target of `user_id`, where one is set.
    pub fn get(&self, user_id: i64) -> (target: Option<i64>)
        ensures
            target == (if self@.contains_key(user_id) {
                Some(self@[user_id])
            } else {
                None
            }),
    {
        match self.targets.get(&user_id) {
            Some(chat_id) => Some(*chat_id),
            None => None,
        }
    }

    /// Sets the target of `user_id`, in place of an earlier one if there is
    /// one. The targets of other users stay.
    pub fn set(&mut self, user_id: i64, chat_id: i64)
        ensures
            final(self)@ == old(self)@.insert(user_id, chat_id),
    {
        self.targets.insert(user_id, chat_id);
    }

    /// A copy of the targets, to be persisted.
    pub fn save(&self) -> (user_chats: HashMap<i64, i64>)
        ensures
            user_chats@ == self@,
    {
        self.targets.clone()
    }
}

/// A target that was set is the target that is read, the latest where one
/// was set twice, and setting it leaves the targets of other users alone.
pub proof fn lemma_set_then_get(targets: Map<i64, i64>, user: i64, first: i64, second: i64, other: i64)
    ensures
        targets.insert(user, first).contains_key(user),
        targets.insert(user, first)[user] == first,
        targets.insert(user, first).insert(user, second) == targets.insert(user, second),
        targets.insert(user, first).insert(user, second)[user] == second,
        other != user ==> (targets.insert(user, first).contains_key(other) == targets.contains_key(
            other,
        )),
        other != user && targets.contains_key(other) ==> targets.insert(user, first)[other]
            == targets[other],
{
    assert(targets.insert(user, first).insert(user, second) =~= targets.insert(user, second));
}

/// Everything that handling an update reads or changes.
pub struct AppState {
    pub config: AuthConfig,
    pub chats: Chats,
    pub user_chats: RelayTargets,
}

impl AppState {
    /// The membership store is well-formed.
    pub open spec fn wf(&self) -> bool {
        self.chats.wf()
    }

    /// The state made of the given parts.
    pub fn new(config: AuthConfig, chats: Chats, user_chats: RelayTargets) -> (state: AppState)
        requires
            chats.wf(),
        ensures
            state.wf(),
            state.config == config,
            state.chats == chats,
            state.user_chats == user_chats,
    {
        AppState { config, chats, user_chats }
    }

    /// The credentials.
    pub fn config(&self) -> (config: &AuthConfig)
        ensures
            *config == self.config,
    {
        &self.config
    }

    /// The membership store.
    pub fn chats(&self) -> (chats: &Chats)
        ensures
            *chats == self.chats,
    {
        &self.chats
    }

    /// The relay-target registry.
    pub fn user_chats(&self) -> (user_chats: &RelayTargets)
        ensures
            *user_chats == self.user_chats,
    {
        &self.user_chats
    }
}

} // verus!
