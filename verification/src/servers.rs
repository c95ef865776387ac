//! What the bot keeps per Discord server: its characters, roles and
//! configuration, and the rules for changing them.
use vstd::prelude::*;
use std::collections::HashMap;
use crate::error::BotError;

verus! {

broadcast use {vstd::std_specs::hash::group_hash_axioms, vstd::string::group_string_axioms};

/// A character that users can make speak.
#[derive(Clone)]
pub struct ServerCharacter {
    pub display_name: String,
    pub avatar_url: String,
    /// The webhook URL to speak through, per channel ID.
    pub hooks: HashMap<u64, String>,
}

/// The mathematical model of a [`ServerCharacter`].
pub struct CharacterView {
    pub display_name: Seq<char>,
    pub avatar_url: Seq<char>,
    pub hooks: Map<u64, Seq<char>>,
}

impl View for ServerCharacter {
    type V = CharacterView;

    open spec fn view(&self) -> CharacterView {
        CharacterView {
            display_name: self.display_name@,
            avatar_url: self.avatar_url@,
            hooks: self.hooks@.map_values(|s: String| s@),
        }
    }
}

impl Default for ServerCharacter {
    fn default() -> (r: Self)
        ensures
            r@.display_name == Seq::<char>::empty(),
            r@.avatar_url == Seq::<char>::empty(),
            r@.hooks == Map::<u64, Seq<char>>::empty(),
    {
        let r = ServerCharacter {
            display_name: String::new(),
            avatar_url: String::new(),
            hooks: HashMap::new(),
        };
        assert(r@.hooks =~= Map::<u64, Seq<char>>::empty());
        r
    }
}

impl ServerCharacter {
    /// A character with no webhooks yet.
    pub fn new(display_name: String, avatar_url: String) -> (r: Self)
        ensures
            r@.display_name == display_name@,
            r@.avatar_url == avatar_url@,
            r@.hooks == Map::<u64, Seq<char>>::empty(),
    {
        let r = ServerCharacter { display_name, avatar_url, hooks: HashMap::new() };
        assert(r@.hooks =~= Map::<u64, Seq<char>>::empty());
        r
    }

    /// A copy with the same model.
    pub fn snapshot(&self) -> (r: Self)
        ensures
            r@ == self@,
    {
        let r = ServerCharacter {
            display_name: self.display_name.clone(),
            avatar_url: self.avatar_url.clone(),
            hooks: self.hooks.clone(),
        };
        assert(r@.hooks =~= self@.hooks);
        r
    }

    /// The webhook stored for `channel`, if any.
    pub fn hook_for(&self, channel: u64) -> (r: Option<String>)
        ensures
            match r {
                Some(url) => self@.hooks.contains_key(channel) && url@ == self@.hooks[channel],
                None => !self@.hooks.contains_key(channel),
            },
    {
        match self.hooks.get(&channel) {
            Some(url) => Some(url.clone()),
            None => None,
        }
    }

    /// Stores `url` as the webhook for `channel`.
    pub fn store_hook(&mut self, channel: u64, url: String)
        ensures
            final(self)@.display_name == old(self)@.display_name,
            final(self)@.avatar_url == old(self)@.avatar_url,
            final(self)@.hooks == old(self)@.hooks.insert(channel, url@),
    {
        self.hooks.insert(channel, url);
        assert(self@.hooks =~= old(self)@.hooks.insert(channel, url@));
    }

    /// Forgets the webhook for `channel`.
    pub fn remove_hook(&mut self, channel: u64)
        ensures
            final(self)@.display_name == old(self)@.display_name,
            final(self)@.avatar_url == old(self)@.avatar_url,
            final(self)@.hooks == old(self)@.hooks.remove(channel),
    {
        self.hooks.remove(&channel);
        assert(self@.hooks =~= old(self)@.hooks.remove(channel));
    }
}

// ---------------------------------------------------------------------
// The characters of a server, by ID
// ---------------------------------------------------------------------

/// No two entries have the same key.
pub open spec fn keys_unique(s: Seq<(String, ServerCharacter)>) -> bool {
    forall|i: int, j: int|
        0 <= i < s.len() && 0 <= j < s.len() && i != j ==> #[trigger] s[i].0@ != #[trigger] s[j].0@
}

/// Some entry has the key `k`.
pub open spec fn has_key(s: Seq<(String, ServerCharacter)>, k: Seq<char>) -> bool {
    exists|i: int| 0 <= i < s.len() && #[trigger] s[i].0@ == k
}

/// The position of the entry with key `k`.
pub open spec fn index_of(s: Seq<(String, ServerCharacter)>, k: Seq<char>) -> int {
    choose|i: int| 0 <= i < s.len() && #[trigger] s[i].0@ == k
}

/// The map that a list of entries with unique keys stands for.
pub open spec fn entries_map(s: Seq<(String, ServerCharacter)>) -> Map<Seq<char>, CharacterView> {
    Map::new(|k: Seq<char>| has_key(s, k), |k: Seq<char>| s[index_of(s, k)].1@)
}

/// With unique keys, the entry at `i` is the one found for its key.
pub proof fn lemma_index_of(s: Seq<(String, ServerCharacter)>, i: int)
    requires
        keys_unique(s),
        0 <= i < s.len(),
    ensures
        has_key(s, s[i].0@),
        index_of(s, s[i].0@) == i,
        entries_map(s).contains_key(s[i].0@),
        entries_map(s)[s[i].0@] == s[i].1@,
{
    assert(has_key(s, s[i].0@));
}

/// The characters of a server, by ID. Iteration goes by insertion order.
pub struct CharacterMap {
    entries: Vec<(String, ServerCharacter)>,
}

impl CharacterMap {
    #[verifier::type_invariant]
    spec fn inv(self) -> bool {
        keys_unique(self.entries@)
    }

    /// The IDs, in iteration order.
    pub closed spec fn key_seq(&self) -> Seq<Seq<char>> {
        self.entries@.map_values(|e: (String, ServerCharacter)| e.0@)
    }

    /// An empty map.
    pub fn new() -> (r: Self)
        ensures
            r@ == Map::<Seq<char>, CharacterView>::empty(),
            r.key_seq() == Seq::<Seq<char>>::empty(),
    {
        let r = CharacterMap { entries: Vec::new() };
        assert(r@ =~= Map::<Seq<char>, CharacterView>::empty());
        assert(r.key_seq() =~= Seq::<Seq<char>>::empty());
        r
    }

    /// Finds the position of `id`.
    fn find(&self, id: &str) -> (r: Option<usize>)
        ensures
            match r {
                Some(i) => i < self.entries@.len() && self.entries@[i as int].0@ == id@,
                None => !has_key(self.entries@, id@),
            },
    {
        let key = crate::text::chars_of(id);
        let n = self.entries.len();
        for i in 0..n
            invariant
                n == self.entries@.len(),
                key@ == id@,
                forall|j: int| 0 <= j < i ==> self.entries@[j].0@ != id@,
        {
            let k = crate::text::chars_of(self.entries[i].0.as_str());
            if crate::text::chars_equal(&k, &key) {
                return Some(i);
            }
        }
        None
    }

    /// Number of characters.
    pub fn len(&self) -> (r: usize)
        ensures
            r == self.key_seq().len(),
    {
        self.entries.len()
    }

    /// Whether there are no characters.
    pub fn is_empty(&self) -> (r: bool)
        ensures
            r <==> self@ == Map::<Seq<char>, CharacterView>::empty(),
            r <==> self.key_seq().len() == 0,
    {
        proof {
            use_type_invariant(self);
        }
        if self.entries.len() == 0 {
            assert(self@ =~= Map::<Seq<char>, CharacterView>::empty());
            true
        } else {
            proof {
                lemma_index_of(self.entries@, 0);
            }
            assert(self@.contains_key(self.entries@[0].0@));
            false
        }
    }

    /// Whether a character has the ID `id`.
    pub fn contains_key(&self, id: &str) -> (r: bool)
        ensures
            r == self@.contains_key(id@),
    {
        proof {
            use_type_invariant(self);
        }
        match self.find(id) {
            Some(i) => {
                proof {
                    lemma_index_of(self.entries@, i as int);
                }
                true
            },
            None => false,
        }
    }

    /// The character with the ID `id`.
    pub fn get(&self, id: &str) -> (r: Option<&ServerCharacter>)
        ensures
            match r {
                Some(c) => self@.contains_key(id@) && c@ == self@[id@],
                None => !self@.contains_key(id@),
            },
    {
        proof {
            use_type_invariant(self);
        }
        match self.find(id) {
            Some(i) => {
                proof {
                    lemma_index_of(self.entries@, i as int);
                }
                Some(&self.entries[i].1)
            },
            None => None,
        }
    }

    /// The ID and character at position `i` of the iteration order.
    pub fn entry(&self, i: usize) -> (r: (&String, &ServerCharacter))
        requires
            i < self.key_seq().len(),
        ensures
            r.0@ == self.key_seq()[i as int],
            self@.contains_key(r.0@),
            r.1@ == self@[r.0@],
    {
        proof {
            use_type_invariant(self);
            lemma_index_of(self.entries@, i as int);
        }
        (&self.entries[i].0, &self.entries[i].1)
    }

    /// The IDs in iteration order: each ID of the map exactly once.
    pub fn keys(&self) -> (r: Vec<String>)
        ensures
            r@.map_values(|s: String| s@) == self.key_seq(),
            self.key_seq().no_duplicates(),
            forall|k: Seq<char>| self@.contains_key(k) <==> self.key_seq().contains(k),
    {
        proof {
            use_type_invariant(self);
        }
        let n = self.entries.len();
        let mut r: Vec<String> = Vec::new();
        for i in 0..n
            invariant
                n == self.entries@.len(),
                r@.len() == i,
                forall|j: int| 0 <= j < i ==> #[trigger] r@[j]@ == self.entries@[j].0@,
        {
            r.push(self.entries[i].0.clone());
        }
        assert(r@.map_values(|s: String| s@) =~= self.key_seq());
        assert forall|k: Seq<char>| self@.contains_key(k) <==> self.key_seq().contains(k) by {
            if self@.contains_key(k) {
                let i = index_of(self.entries@, k);
                assert(self.key_seq()[i] == k);
            }
            if self.key_seq().contains(k) {
                let i = choose|i: int| 0 <= i < self.key_seq().len() && self.key_seq()[i] == k;
                assert(self.entries@[i].0@ == k);
            }
        }
        r
    }

    /// Stores `character` under `id`, replacing any character with that ID.
    pub fn insert(&mut self, id: String, character: ServerCharacter)
        ensures
            final(self)@ == old(self)@.insert(id@, character@),
    {
        proof {
            use_type_invariant(&*self);
        }
        let ghost old_entries = self.entries@;
        let found = self.find(id.as_str());
        let mut entries: Vec<(String, ServerCharacter)> = Vec::new();
        std::mem::swap(&mut entries, &mut self.entries);
        match found {
            Some(i) => {
                entries.set(i, (id, character));
                proof {
                    let s = entries@;
                    assert(s == old_entries.update(i as int, s[i as int]));
                    assert(keys_unique(s)) by {
                        assert forall|a: int, b: int|
                            0 <= a < s.len() && 0 <= b < s.len() && a != b implies #[trigger] s[a].0@
                            != #[trigger] s[b].0@ by {
                            if a != i && b != i {
                                assert(old_entries[a] == s[a] && old_entries[b] == s[b]);
                            } else if a == i {
                                assert(old_entries[b] == s[b]);
                            } else {
                                assert(old_entries[a] == s[a]);
                            }
                        }
                    }
                    lemma_update_map(old_entries, i as int, s);
                }
            },
            None => {
                entries.push((id, character));
                proof {
                    let s = entries@;
                    assert(s == old_entries.push(s[s.len() - 1]));
                    assert(keys_unique(s)) by {
                        assert forall|a: int, b: int|
                            0 <= a < s.len() && 0 <= b < s.len() && a != b implies #[trigger] s[a].0@
                            != #[trigger] s[b].0@ by {
                            if a < old_entries.len() && b < old_entries.len() {
                                assert(old_entries[a] == s[a] && old_entries[b] == s[b]);
                            } else if a < old_entries.len() {
                                assert(old_entries[a] == s[a]);
                            } else {
                                assert(old_entries[b] == s[b]);
                            }
                        }
                    }
                    lemma_push_map(old_entries, s);
                }
            },
        }
        self.entries = entries;
    }

    /// Removes the character with the ID `id` and returns it.
    pub fn remove(&mut self, id: &str) -> (r: Option<ServerCharacter>)
        ensures
            final(self)@ == old(self)@.remove(id@),
            match r {
                Some(c) => old(self)@.contains_key(id@) && c@ == old(self)@[id@],
                None => !old(self)@.contains_key(id@),
            },
    {
        proof {
            use_type_invariant(&*self);
        }
        let ghost old_entries = self.entries@;
        match self.find(id) {
            Some(i) => {
                proof {
                    lemma_index_of(old_entries, i as int);
                }
                let mut entries: Vec<(String, ServerCharacter)> = Vec::new();
                std::mem::swap(&mut entries, &mut self.entries);
                let e = entries.remove(i);
                proof {
                    let s = entries@;
                    assert(s == old_entries.remove(i as int));
                    assert(keys_unique(s)) by {
                        assert forall|a: int, b: int|
                            0 <= a < s.len() && 0 <= b < s.len() && a != b implies #[trigger] s[a].0@
                            != #[trigger] s[b].0@ by {
                            let oa = if a < i { a } else { a + 1 };
                            let ob = if b < i { b } else { b + 1 };
                            assert(old_entries[oa] == s[a] && old_entries[ob] == s[b]);
                        }
                    }
                    lemma_remove_map(old_entries, i as int, s);
                }
                self.entries = entries;
                Some(e.1)
            },
            None => {
                assert(self@ =~= old(self)@.remove(id@));
                None
            },
        }
    }
}

impl View for CharacterMap {
    type V = Map<Seq<char>, CharacterView>;

    closed spec fn view(&self) -> Map<Seq<char>, CharacterView> {
        entries_map(self.entries@)
    }
}

/// Replacing the entry at `i` by one with the same key updates the map at
/// that key.
proof fn lemma_update_map(
    old_s: Seq<(String, ServerCharacter)>,
    i: int,
    s: Seq<(String, ServerCharacter)>,
)
    requires
        keys_unique(old_s),
        keys_unique(s),
        0 <= i < old_s.len(),
        s == old_s.update(i, s[i]),
        s[i].0@ == old_s[i].0@,
    ensures
        entries_map(s) == entries_map(old_s).insert(s[i].0@, s[i].1@),
{
    let k = s[i].0@;
    lemma_index_of(s, i);
    assert forall|q: Seq<char>| has_key(s, q) <==> (has_key(old_s, q) || q == k) by {
        if has_key(s, q) {
            let j = index_of(s, q);
            assert(old_s[j].0@ == q);
        }
        if has_key(old_s, q) {
            let j = index_of(old_s, q);
            assert(s[j].0@ == q);
        }
    }
    assert forall|q: Seq<char>| has_key(s, q) && q != k implies s[index_of(s, q)].1@ == old_s[index_of(old_s, q)].1@ by {
        let j = index_of(s, q);
        let jo = index_of(old_s, q);
        assert(j != i);
        assert(old_s[j].0@ == q);
        assert(jo == j);
    }
    assert(entries_map(s) =~= entries_map(old_s).insert(k, s[i].1@));
}

/// Appending an entry with a new key inserts it into the map.
proof fn lemma_push_map(old_s: Seq<(String, ServerCharacter)>, s: Seq<(String, ServerCharacter)>)
    requires
        keys_unique(old_s),
        keys_unique(s),
        s.len() == old_s.len() + 1,
        s == old_s.push(s[s.len() - 1]),
    ensures
        entries_map(s) == entries_map(old_s).insert(s[s.len() - 1].0@, s[s.len() - 1].1@),
{
    let n = old_s.len() as int;
    let k = s[n].0@;
    lemma_index_of(s, n);
    assert forall|q: Seq<char>| has_key(s, q) <==> (has_key(old_s, q) || q == k) by {
        if has_key(s, q) {
            let j = index_of(s, q);
            if j < n {
                assert(old_s[j].0@ == q);
            }
        }
        if has_key(old_s, q) {
            let j = index_of(old_s, q);
            assert(s[j].0@ == q);
        }
    }
    assert forall|q: Seq<char>| has_key(s, q) && q != k implies s[index_of(s, q)].1@ == old_s[index_of(old_s, q)].1@ by {
        let j = index_of(s, q);
        assert(j != n);
        assert(old_s[j].0@ == q);
        let jo = index_of(old_s, q);
        assert(s[jo].0@ == q);
        assert(jo == j);
    }
    assert(entries_map(s) =~= entries_map(old_s).insert(k, s[n].1@));
}

/// Removing the entry at `i` removes its key from the map.
proof fn lemma_remove_map(
    old_s: Seq<(String, ServerCharacter)>,
    i: int,
    s: Seq<(String, ServerCharacter)>,
)
    requires
        keys_unique(old_s),
        keys_unique(s),
        0 <= i < old_s.len(),
        s == old_s.remove(i),
    ensures
        entries_map(s) == entries_map(old_s).remove(old_s[i].0@),
{
    let k = old_s[i].0@;
    assert forall|q: Seq<char>| has_key(s, q) <==> (has_key(old_s, q) && q != k) by {
        if has_key(s, q) {
            let j = index_of(s, q);
            let oj = if j < i { j } else { j + 1 };
            assert(old_s[oj].0@ == q);
        }
        if has_key(old_s, q) && q != k {
            let j = index_of(old_s, q);
            assert(j != i);
            let sj = if j < i { j } else { j - 1 };
            assert(s[sj].0@ == q);
        }
    }
    assert forall|q: Seq<char>| has_key(s, q) implies s[index_of(s, q)].1@ == old_s[index_of(old_s, q)].1@ by {
        let j = index_of(s, q);
        let oj = if j < i { j } else { j + 1 };
        assert(old_s[oj] == s[j]);
        let jo = index_of(old_s, q);
        assert(jo == oj);
    }
    assert(entries_map(s) =~= entries_map(old_s).remove(k));
}

// ---------------------------------------------------------------------
// Roles, configuration and the server itself
// ---------------------------------------------------------------------

/// Roles the bot cares about in a server.
pub struct ServerRoles {
    pub moderator: Option<u64>,
}

impl Default for ServerRoles {
    fn default() -> (r: Self)
        ensures
            r.moderator.is_none(),
    {
        ServerRoles { moderator: None }
    }
}

/// Per-server settings.
pub struct ServerConfig {
    pub silly_messages: bool,
}

impl Default for ServerConfig {
    fn default() -> (r: Self)
        ensures
            !r.silly_messages,
    {
        ServerConfig { silly_messages: false }
    }
}

/// Everything the bot keeps for one Discord server.
pub struct Server {
    pub characters: CharacterMap,
    pub roles: ServerRoles,
    pub config: ServerConfig,
}

impl Default for Server {
    fn default() -> (r: Self)
        ensures
            r.characters@ == Map::<Seq<char>, CharacterView>::empty(),
            r.roles.moderator.is_none(),
            !r.config.silly_messages,
    {
        Server {
            characters: CharacterMap::new(),
            roles: ServerRoles::default(),
            config: ServerConfig::default(),
        }
    }
}

/// The message of the error for an ID that is already taken.
pub const CHARACTER_EXISTS: &'static str = "Character already exists!";

/// The message of the error for an ID that no character has, on removal.
pub const CHARACTER_MISSING: &'static str = "Character does not exist!";

/// The message of the error for an ID that no character has, on use.
pub const CHARACTER_NOT_FOUND: &'static str = "Unable to find character";

impl Server {
    /// Adds a new character; an ID that is already taken is refused and the
    /// server is left as it was.
    pub fn add_character(&mut self, id: String, character: ServerCharacter) -> (r: Result<
        (),
        BotError,
    >)
        ensures
            old(self).characters@.contains_key(id@) ==> {
                &&& r matches Err(BotError::Str(m)) && m@ == CHARACTER_EXISTS@
                &&& final(self).characters@ == old(self).characters@
            },
            !old(self).characters@.contains_key(id@) ==> {
                &&& r is Ok
                &&& final(self).characters@ == old(self).characters@.insert(id@, character@)
            },
            final(self).roles == old(self).roles,
            final(self).config == old(self).config,
    {
        if self.characters.contains_key(id.as_str()) {
            return Err(BotError::Str(CHARACTER_EXISTS));
        }
        self.characters.insert(id, character);
        Ok(())
    }

    /// Removes a character and returns it; an unknown ID is an error.
    pub fn remove_character(&mut self, id: &str) -> (r: Result<ServerCharacter, BotError>)
        ensures
            final(self).characters@ == old(self).characters@.remove(id@),
            match r {
                Ok(c) => old(self).characters@.contains_key(id@) && c@ == old(self).characters@[id@],
                Err(e) => e matches BotError::String(m) && m@ == CHARACTER_MISSING@
                    && !old(self).characters@.contains_key(id@),
            },
            final(self).roles == old(self).roles,
            final(self).config == old(self).config,
    {
        match self.characters.remove(id) {
            Some(c) => Ok(c),
            None => Err(BotError::String(CHARACTER_MISSING.to_string())),
        }
    }

    /// A copy of the character with the ID `id`; an unknown ID is an error.
    pub fn find_character(&self, id: &str) -> (r: Result<ServerCharacter, BotError>)
        ensures
            match r {
                Ok(c) => self.characters@.contains_key(id@) && c@ == self.characters@[id@],
                Err(e) => e matches BotError::String(m) && m@ == CHARACTER_NOT_FOUND@
                    && !self.characters@.contains_key(id@),
            },
    {
        match self.characters.get(id) {
            Some(c) => Ok(c.snapshot()),
            None => Err(BotError::String(CHARACTER_NOT_FOUND.to_string())),
        }
    }

    /// Records `url` as the character's webhook in `channel`; an unknown ID
    /// is an error and changes nothing.
    pub fn store_character_hook(&mut self, id: &str, channel: u64, url: String) -> (r: Result<
        (),
        BotError,
    >)
        ensures
            old(self).characters@.contains_key(id@) ==> {
                &&& r is Ok
                &&& final(self).characters@ == old(self).characters@.insert(
                    id@,
                    CharacterView {
                        hooks: old(self).characters@[id@].hooks.insert(channel, url@),
                        ..old(self).characters@[id@]
                    },
                )
            },
            !old(self).characters@.contains_key(id@) ==> {
                &&& r matches Err(BotError::String(m)) && m@ == CHARACTER_NOT_FOUND@
                &&& final(self).characters@ == old(self).characters@
            },
            final(self).roles == old(self).roles,
            final(self).config == old(self).config,
    {
        match self.characters.get(id) {
            Some(c) => {
                let mut c = c.snapshot();
                c.store_hook(channel, url);
                let key = id.to_string();
                self.characters.insert(key, c);
                Ok(())
            },
            None => Err(BotError::String(CHARACTER_NOT_FOUND.to_string())),
        }
    }

    /// Forgets the character's webhook in `channel`.
    pub fn remove_character_hook(&mut self, id: &str, channel: u64)
        requires
            old(self).characters@.contains_key(id@),
        ensures
            final(self).characters@ == old(self).characters@.insert(
                id@,
                CharacterView {
                    hooks: old(self).characters@[id@].hooks.remove(channel),
                    ..old(self).characters@[id@]
                },
            ),
            final(self).roles == old(self).roles,
            final(self).config == old(self).config,
    {
        match self.characters.get(id) {
            Some(c) => {
                let mut c = c.snapshot();
                c.remove_hook(channel);
                let key = id.to_string();
                self.characters.insert(key, c);
            },
            None => {},
        }
    }
}

// ---------------------------------------------------------------------
// Laws over the models that the operations above are specified by
// ---------------------------------------------------------------------

/// Law: a character that was added is found again under its ID, unchanged.
pub proof fn lemma_added_character_is_found(
    characters: Map<Seq<char>, CharacterView>,
    id: Seq<char>,
    character: CharacterView,
)
    requires
        !characters.contains_key(id),
    ensures
        characters.insert(id, character).contains_key(id),
        characters.insert(id, character)[id] == character,
{
}

/// Law: adding a character and then removing it leaves the characters as
/// they were.
pub proof fn lemma_add_then_remove_restores(
    characters: Map<Seq<char>, CharacterView>,
    id: Seq<char>,
    character: CharacterView,
)
    requires
        !characters.contains_key(id),
    ensures
        characters.insert(id, character).remove(id) == characters,
{
    assert(characters.insert(id, character).remove(id) =~= characters);
}

/// Law: adding or removing one character leaves every other character as
/// it was.
pub proof fn lemma_other_characters_untouched(
    characters: Map<Seq<char>, CharacterView>,
    id: Seq<char>,
    other: Seq<char>,
    character: CharacterView,
)
    requires
        other != id,
        characters.contains_key(other),
    ensures
        characters.insert(id, character).contains_key(other),
        characters.insert(id, character)[other] == characters[other],
        characters.remove(id).contains_key(other),
        characters.remove(id)[other] == characters[other],
{
}

/// Law: the webhook stored for a channel is the one looked up there, and
/// forgetting it leaves none.
pub proof fn lemma_stored_hook_is_found(hooks: Map<u64, Seq<char>>, channel: u64, url: Seq<char>)
    ensures
        hooks.insert(channel, url).contains_key(channel),
        hooks.insert(channel, url)[channel] == url,
        !hooks.insert(channel, url).remove(channel).contains_key(channel),
{
}

} // verus!
