//! The registry of live sessions: which games exist, which invite code leads
//! to which game, and which socket belongs to which game in which role.

use vstd::prelude::*;
use dashmap::DashMap;
use crate::invite::is_invite_code;

verus! {

/// `dashmap::DashMap`, a concurrent hash map, as a type whose inside is
/// not looked into.
#[verifier::external_type_specification]
#[verifier::external_body]
#[verifier::reject_recursive_types(K)]
#[verifier::reject_recursive_types(V)]
#[verifier::reject_recursive_types(S)]
pub struct ExDashMap<K, V, S>(dashmap::DashMap<K, V, S>);

/// The entries of an index, as a map from key to value.
pub uninterp spec fn index_entries(m: DashMap<String, String>) -> Map<Seq<char>, Seq<char>>;

/// `DashMap::new`: a fresh map holds no entry.
#[verifier::external_body]
fn index_new() -> (created: DashMap<String, String>)
    ensures
        index_entries(created) == empty_index(),
{
    DashMap::new()
}

/// `DashMap::insert`: afterwards the key leads to the value, whether or not
/// it was present before; all other entries stay.
#[verifier::external_body]
fn index_insert(m: &mut DashMap<String, String>, key: String, value: String)
    ensures
        index_entries(*final(m)) == index_entries(*old(m)).insert(key@, value@),
{
    m.insert(key, value);
}

/// `DashMap::remove`: the key's entry, if there was one, is gone; all
/// other entries stay.
#[verifier::external_body]
fn index_remove(m: &mut DashMap<String, String>, key: &String)
    ensures
        index_entries(*final(m)) == index_entries(*old(m)).remove(key@),
{
    m.remove(key);
}

/// `DashMap::get`: a copy of the value the key leads to, if any. The maps
/// of a registry are private and change only through `&mut`, so a shared
/// borrow sees one fixed set of entries.
#[verifier::external_body]
fn index_get(m: &DashMap<String, String>, key: &String) -> (r: Option<String>)
    ensures
        r.deep_view() == entry_of(index_entries(*m), key@),
{
    m.get(key).map(|entry| entry.value().clone())
}

/// `DashMap::retain`, keeping the entries whose value differs from `value`.
#[verifier::external_body]
fn index_drop_value(m: &mut DashMap<String, String>, value: &String)
    ensures
        index_entries(*final(m)) == without_value(index_entries(*old(m)), value@),
{
    m.retain(|_, held| differs(held, value));
}

/// Whether two strings differ.
pub fn differs(a: &String, b: &String) -> (r: bool)
    ensures
        r == (a@ != b@),
{
    !(*a == *b)
}

/// The index without entries.
pub open spec fn empty_index() -> Map<Seq<char>, Seq<char>> {
    Map::empty()
}

/// What `key` leads to in `m`, if anything.
pub open spec fn entry_of(m: Map<Seq<char>, Seq<char>>, key: Seq<char>) -> Option<Seq<char>> {
    if m.contains_key(key) {
        Some(m[key])
    } else {
        None
    }
}

/// `m` without the entries that lead to `value`.
pub open spec fn without_value(m: Map<Seq<char>, Seq<char>>, value: Seq<char>) -> Map<
    Seq<char>,
    Seq<char>,
> {
    Map::new(|k: Seq<char>| m.contains_key(k) && m[k] != value, |k: Seq<char>| m[k])
}

/// What the connection layer knows of a live session.
#[derive(Debug, PartialEq, Eq)]
pub struct GameHandle {
    pub game_id: String,
    pub invite_code: String,
}

pub struct GameHandleView {
    pub game_id: Seq<char>,
    pub invite_code: Seq<char>,
}

impl View for GameHandle {
    type V = GameHandleView;

    open spec fn view(&self) -> GameHandleView {
        GameHandleView { game_id: self.game_id@, invite_code: self.invite_code@ }
    }
}

impl DeepView for GameHandle {
    type V = GameHandleView;

    open spec fn deep_view(&self) -> GameHandleView {
        self@
    }
}

impl Clone for GameHandle {
    fn clone(&self) -> (r: Self)
        ensures
            r == *self,
    {
        GameHandle { game_id: self.game_id.clone(), invite_code: self.invite_code.clone() }
    }
}

/// The part a socket plays in a game.
#[derive(Debug, Clone, Copy, PartialEq, Eq, Structural)]
pub enum Role {
    Player,
    Manager,
}

/// The four indices of the registry.
pub struct RegistryView {
    /// Game id to invite code, one entry per live session.
    pub games: Map<Seq<char>, Seq<char>>,
    /// Invite code to game id.
    pub invite_codes: Map<Seq<char>, Seq<char>>,
    /// Socket id to game id, for the sockets of players.
    pub player_sockets: Map<Seq<char>, Seq<char>>,
    /// Socket id to game id, for the sockets of managers.
    pub manager_sockets: Map<Seq<char>, Seq<char>>,
}

impl RegistryView {
    pub open spec fn empty() -> RegistryView {
        RegistryView {
            games: Map::empty(),
            invite_codes: Map::empty(),
            player_sockets: Map::empty(),
            manager_sockets: Map::empty(),
        }
    }

    /// Whether a session with this id is live.
    pub open spec fn is_live(self, game_id: Seq<char>) -> bool {
        self.games.contains_key(game_id)
    }

    /// Whether a session can be entered under this id and this invite code:
    /// no live session has the id and the code is not in use.
    pub open spec fn is_free(self, handle: GameHandleView) -> bool {
        !self.games.contains_key(handle.game_id) && !self.invite_codes.contains_key(
            handle.invite_code,
        )
    }

    /// The handle of the live session `game_id`, if there is one.
    pub open spec fn handle_of(self, game_id: Seq<char>) -> Option<GameHandleView> {
        if self.games.contains_key(game_id) {
            Some(GameHandleView { game_id, invite_code: self.games[game_id] })
        } else {
            None
        }
    }

    /// The handle of the live session that `code` invites to, if any.
    pub open spec fn handle_of_invite(self, code: Seq<char>) -> Option<GameHandleView> {
        if self.invite_codes.contains_key(code) {
            self.handle_of(self.invite_codes[code])
        } else {
            None
        }
    }

    /// The index of sockets in the given role.
    pub open spec fn sockets(self, role: Role) -> Map<Seq<char>, Seq<char>> {
        match role {
            Role::Player => self.player_sockets,
            Role::Manager => self.manager_sockets,
        }
    }

    /// The registry after `handle` has been registered.
    pub open spec fn registered(self, handle: GameHandleView) -> RegistryView {
        RegistryView {
            games: self.games.insert(handle.game_id, handle.invite_code),
            invite_codes: self.invite_codes.insert(handle.invite_code, handle.game_id),
            ..self
        }
    }

    /// The registry after `socket_id` has been bound to `game_id`.
    pub open spec fn bound(self, role: Role, socket_id: Seq<char>, game_id: Seq<char>) -> RegistryView {
        match role {
            Role::Player => RegistryView {
                player_sockets: self.player_sockets.insert(socket_id, game_id),
                ..self
            },
            Role::Manager => RegistryView {
                manager_sockets: self.manager_sockets.insert(socket_id, game_id),
                ..self
            },
        }
    }

    /// The registry after `socket_id` has been unbound.
    pub open spec fn unbound(self, role: Role, socket_id: Seq<char>) -> RegistryView {
        match role {
            Role::Player => RegistryView {
                player_sockets: self.player_sockets.remove(socket_id),
                ..self
            },
            Role::Manager => RegistryView {
                manager_sockets: self.manager_sockets.remove(socket_id),
                ..self
            },
        }
    }

    /// The registry after the session `game_id` has been removed: its own
    /// entry, every invite code that led to it, and every socket bound to
    /// it are gone.
    pub open spec fn removed(self, game_id: Seq<char>) -> RegistryView {
        RegistryView {
            games: self.games.remove(game_id),
            invite_codes: without_value(self.invite_codes, game_id),
            player_sockets: without_value(self.player_sockets, game_id),
            manager_sockets: without_value(self.manager_sockets, game_id),
        }
    }

    /// Nothing in the registry points to the session `game_id`: it is not
    /// live, no invite code leads to it and no socket is bound to it.
    pub open spec fn forgets(self, game_id: Seq<char>) -> bool {
        &&& !self.is_live(game_id)
        &&& forall|c: Seq<char>| #[trigger]
            self.invite_codes.contains_key(c) ==> self.invite_codes[c] != game_id
        &&& forall|s: Seq<char>| #[trigger]
            self.player_sockets.contains_key(s) ==> self.player_sockets[s] != game_id
        &&& forall|s: Seq<char>| #[trigger]
            self.manager_sockets.contains_key(s) ==> self.manager_sockets[s] != game_id
    }

    /// The indices agree with each other: every live session has a
    /// well-formed invite code that leads back to it, every invite code
    /// belongs to a live session, and every bound socket belongs to a live
    /// session.
    pub open spec fn wf(self) -> bool {
        &&& forall|g: Seq<char>| #[trigger]
            self.games.contains_key(g) ==> {
                &&& is_invite_code(self.games[g])
                &&& self.invite_codes.contains_key(self.games[g])
                &&& self.invite_codes[self.games[g]] == g
            }
        &&& forall|c: Seq<char>| #[trigger]
            self.invite_codes.contains_key(c) ==> {
                &&& self.games.contains_key(self.invite_codes[c])
                &&& self.games[self.invite_codes[c]] == c
            }
        &&& forall|s: Seq<char>| #[trigger]
            self.player_sockets.contains_key(s) ==> self.games.contains_key(self.player_sockets[s])
        &&& forall|s: Seq<char>| #[trigger]
            self.manager_sockets.contains_key(s) ==> self.games.contains_key(
                self.manager_sockets[s],
            )
    }

    /// The invite codes that lead to the session `game_id`.
    pub open spec fn invite_codes_of(self, game_id: Seq<char>) -> Set<Seq<char>> {
        Set::new(|c: Seq<char>| self.invite_codes.contains_key(c) && self.invite_codes[c] == game_id)
    }
}

/// The registry of live sessions. Its indices are private: they change
/// only through the operations below.
pub struct Registry {
    games: DashMap<String, String>,
    invite_codes: DashMap<String, String>,
    player_sockets: DashMap<String, String>,
    manager_sockets: DashMap<String, String>,
}

impl View for Registry {
    type V = RegistryView;

    closed spec fn view(&self) -> RegistryView {
        RegistryView {
            games: index_entries(self.games),
            invite_codes: index_entries(self.invite_codes),
            player_sockets: index_entries(self.player_sockets),
            manager_sockets: index_entries(self.manager_sockets),
        }
    }
}

impl Registry {
    /// A registry without sessions.
    pub fn new() -> (r: Registry)
        ensures
            r@ == RegistryView::empty(),
    {
        Registry {
            games: index_new(),
            invite_codes: index_new(),
            player_sockets: index_new(),
            manager_sockets: index_new(),
        }
    }

    /// Enters a session: its id leads to its invite code and its invite
    /// code to its id.
    pub fn register(&mut self, handle: &GameHandle)
        ensures
            final(self)@ == old(self)@.registered(handle@),
    {
        index_insert(&mut self.games, handle.game_id.clone(), handle.invite_code.clone());
        index_insert(&mut self.invite_codes, handle.invite_code.clone(), handle.game_id.clone());
    }

    /// Finds a live session by its id.
    pub fn lookup_by_game_id(&self, game_id: &String) -> (r: Option<GameHandle>)
        ensures
            r.deep_view() == self@.handle_of(game_id@),
    {
        match index_get(&self.games, game_id) {
            Some(invite_code) => Some(GameHandle { game_id: game_id.clone(), invite_code }),
            None => None,
        }
    }

    /// Finds the live session an invite code leads to.
    pub fn lookup_by_invite(&self, invite_code: &String) -> (r: Option<GameHandle>)
        ensures
            r.deep_view() == self@.handle_of_invite(invite_code@),
    {
        match index_get(&self.invite_codes, invite_code) {
            Some(game_id) => self.lookup_by_game_id(&game_id),
            None => None,
        }
    }

    /// Whether a session with this id is live.
    pub fn is_live(&self, game_id: &String) -> (r: bool)
        ensures
            r == self@.is_live(game_id@),
    {
        index_get(&self.games, game_id).is_some()
    }

    /// Whether an invite code is in use.
    pub fn invite_in_use(&self, invite_code: &String) -> (r: bool)
        ensures
            r == self@.invite_codes.contains_key(invite_code@),
    {
        index_get(&self.invite_codes, invite_code).is_some()
    }

    /// Binds a socket to a game in the given role.
    pub fn bind_socket(&mut self, role: Role, socket_id: String, game_id: String)
        ensures
            final(self)@ == old(self)@.bound(role, socket_id@, game_id@),
    {
        match role {
            Role::Player => index_insert(&mut self.player_sockets, socket_id, game_id),
            Role::Manager => index_insert(&mut self.manager_sockets, socket_id, game_id),
        }
    }

    /// Releases a socket from whatever game it was bound to in the role.
    pub fn unbind_socket(&mut self, role: Role, socket_id: &String)
        ensures
            final(self)@ == old(self)@.unbound(role, socket_id@),
    {
        match role {
            Role::Player => index_remove(&mut self.player_sockets, socket_id),
            Role::Manager => index_remove(&mut self.manager_sockets, socket_id),
        }
    }

    /// The game a socket is bound to in the given role, if any.
    pub fn socket_game(&self, role: Role, socket_id: &String) -> (r: Option<String>)
        ensures
            r.deep_view() == entry_of(self@.sockets(role), socket_id@),
    {
        match role {
            Role::Player => index_get(&self.player_sockets, socket_id),
            Role::Manager => index_get(&self.manager_sockets, socket_id),
        }
    }

    /// Removes a session together with every invite code that leads to it
    /// and every socket bound to it. Afterwards nothing points to it.
    pub fn remove_game(&mut self, game_id: &String)
        ensures
            final(self)@ == old(self)@.removed(game_id@),
            final(self)@.forgets(game_id@),
            old(self)@.wf() ==> final(self)@.wf(),
    {
        proof {
            lemma_removed_forgets(self@, game_id@);
            if self@.wf() {
                lemma_remove_keeps_agreement(self@, game_id@);
            }
        }
        index_remove(&mut self.games, game_id);
        index_drop_value(&mut self.invite_codes, game_id);
        index_drop_value(&mut self.player_sockets, game_id);
        index_drop_value(&mut self.manager_sockets, game_id);
    }
}

/// Exactly one invite code leads to a live session, and it is six decimal
/// digits.
pub proof fn lemma_one_invite_code_per_session(r: RegistryView, game_id: Seq<char>)
    requires
        r.wf(),
        r.is_live(game_id),
    ensures
        r.invite_codes_of(game_id) == set![r.games[game_id]],
        r.invite_codes_of(game_id).len() == 1,
        is_invite_code(r.games[game_id]),
{
    assert(r.games.contains_key(game_id));
    assert(r.invite_codes_of(game_id) =~= set![r.games[game_id]]);
}

/// Registering a session under an id and an invite code that are not in
/// use keeps the indices in agreement.
pub proof fn lemma_register_keeps_agreement(r: RegistryView, handle: GameHandleView)
    requires
        r.wf(),
        is_invite_code(handle.invite_code),
        !r.games.contains_key(handle.game_id),
        !r.invite_codes.contains_key(handle.invite_code),
    ensures
        r.registered(handle).wf(),
        r.registered(handle).is_live(handle.game_id),
{
    let n = r.registered(handle);
    assert forall|g: Seq<char>| #[trigger] n.games.contains_key(g) implies {
        &&& is_invite_code(n.games[g])
        &&& n.invite_codes.contains_key(n.games[g])
        &&& n.invite_codes[n.games[g]] == g
    } by {
        if g != handle.game_id {
            assert(r.games.contains_key(g));
        }
    }
    assert forall|c: Seq<char>| #[trigger] n.invite_codes.contains_key(c) implies {
        &&& n.games.contains_key(n.invite_codes[c])
        &&& n.games[n.invite_codes[c]] == c
    } by {
        if c != handle.invite_code {
            assert(r.invite_codes.contains_key(c));
        }
    }
    assert forall|s: Seq<char>| #[trigger] n.player_sockets.contains_key(s) implies n.games.contains_key(
        n.player_sockets[s],
    ) by {
        assert(r.player_sockets.contains_key(s));
    }
    assert forall|s: Seq<char>| #[trigger] n.manager_sockets.contains_key(s) implies n.games.contains_key(
        n.manager_sockets[s],
    ) by {
        assert(r.manager_sockets.contains_key(s));
    }
}

/// Binding a socket to a live session keeps the indices in agreement.
pub proof fn lemma_bind_keeps_agreement(
    r: RegistryView,
    role: Role,
    socket_id: Seq<char>,
    game_id: Seq<char>,
)
    requires
        r.wf(),
        r.is_live(game_id),
    ensures
        r.bound(role, socket_id, game_id).wf(),
        r.bound(role, socket_id, game_id).games == r.games,
{
    let n = r.bound(role, socket_id, game_id);
    assert forall|s: Seq<char>| #[trigger] n.player_sockets.contains_key(s) implies n.games.contains_key(
        n.player_sockets[s],
    ) by {
        if s != socket_id || role != Role::Player {
            assert(r.player_sockets.contains_key(s));
        }
    }
    assert forall|s: Seq<char>| #[trigger] n.manager_sockets.contains_key(s) implies n.games.contains_key(
        n.manager_sockets[s],
    ) by {
        if s != socket_id || role != Role::Manager {
            assert(r.manager_sockets.contains_key(s));
        }
    }
}

/// Unbinding a socket keeps the indices in agreement.
pub proof fn lemma_unbind_keeps_agreement(r: RegistryView, role: Role, socket_id: Seq<char>)
    requires
        r.wf(),
    ensures
        r.unbound(role, socket_id).wf(),
        r.unbound(role, socket_id).games == r.games,
{
    let n = r.unbound(role, socket_id);
    assert forall|s: Seq<char>| #[trigger] n.player_sockets.contains_key(s) implies n.games.contains_key(
        n.player_sockets[s],
    ) by {
        assert(r.player_sockets.contains_key(s));
    }
    assert forall|s: Seq<char>| #[trigger] n.manager_sockets.contains_key(s) implies n.games.contains_key(
        n.manager_sockets[s],
    ) by {
        assert(r.manager_sockets.contains_key(s));
    }
}

/// Removing a session leaves nothing that points to it, whatever the
/// registry held.
pub proof fn lemma_removed_forgets(r: RegistryView, game_id: Seq<char>)
    ensures
        r.removed(game_id).forgets(game_id),
        r.removed(game_id).invite_codes_of(game_id) == Set::<Seq<char>>::empty(),
{
    let n = r.removed(game_id);
    assert(n.invite_codes_of(game_id) =~= Set::<Seq<char>>::empty());
}

/// Removing a session keeps the indices in agreement, and every other
/// live session stays live with the invite code it had.
pub proof fn lemma_remove_keeps_agreement(r: RegistryView, game_id: Seq<char>)
    requires
        r.wf(),
    ensures
        r.removed(game_id).wf(),
        forall|g: Seq<char>| #[trigger]
            r.is_live(g) && g != game_id ==> r.removed(game_id).is_live(g) && r.removed(
                game_id,
            ).games[g] == r.games[g],
{
    let n = r.removed(game_id);
    assert forall|g: Seq<char>| #[trigger] n.games.contains_key(g) implies {
        &&& is_invite_code(n.games[g])
        &&& n.invite_codes.contains_key(n.games[g])
        &&& n.invite_codes[n.games[g]] == g
    } by {
        assert(r.games.contains_key(g));
        assert(r.invite_codes.contains_key(r.games[g]));
    }
    assert forall|c: Seq<char>| #[trigger] n.invite_codes.contains_key(c) implies {
        &&& n.games.contains_key(n.invite_codes[c])
        &&& n.games[n.invite_codes[c]] == c
    } by {
        assert(r.invite_codes.contains_key(c));
    }
    assert forall|s: Seq<char>| #[trigger] n.player_sockets.contains_key(s) implies n.games.contains_key(
        n.player_sockets[s],
    ) by {
        assert(r.player_sockets.contains_key(s));
    }
    assert forall|s: Seq<char>| #[trigger] n.manager_sockets.contains_key(s) implies n.games.contains_key(
        n.manager_sockets[s],
    ) by {
        assert(r.manager_sockets.contains_key(s));
    }
    assert forall|g: Seq<char>| #[trigger] r.is_live(g) && g != game_id implies n.is_live(g)
        && n.games[g] == r.games[g] by {
        assert(r.games.contains_key(g));
    }
}

} // verus!
