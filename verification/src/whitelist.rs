//! The whitelist policy: who may log in, and why not.

use crate::info_messages;
use crate::json::{
    hex_u128, json_parse, json_row_flags, json_row_texts, null_document, parse_document,
    parse_hex_u128, row_count, row_flag, row_text,
};
use vstd::prelude::*;

verus! {

/// The number of seconds after which a loaded whitelist is read again.
pub const EXPIRATION_SECONDS: u64 = 60;

/// A player: a name, a UUID if one is known, and whether the whitelist
/// entry is active.
pub struct Player {
    pub name: String,
    pub player_uuid: Option<u128>,
    pub active: bool,
}

/// A `Player` as contracts see it: texts and byte strings by their
/// contents.
pub struct PlayerView {
    pub name: Seq<char>,
    pub player_uuid: Option<u128>,
    pub active: bool,
}

impl View for Player {
    type V = PlayerView;

    open spec fn view(&self) -> PlayerView {
        PlayerView { name: self.name@, player_uuid: self.player_uuid, active: self.active }
    }
}

/// Whether two players have the same name and the same UUID.
pub open spec fn spec_same_player(a: PlayerView, b: PlayerView) -> bool {
    a.name == b.name && a.player_uuid == b.player_uuid
}

impl Player {
    /// Whether `other` has the same name and the same UUID. The active
    /// flag does not count.
    pub fn same_player(&self, other: &Player) -> (r: bool)
        ensures
            r == spec_same_player(self@, other@),
    {
        self.name == other.name && same_uuid(self.player_uuid, other.player_uuid)
    }
}

impl PartialEq for Player {
    /// Players are equal if they have the same name and the same UUID.
    fn eq(&self, other: &Player) -> (r: bool) {
        self.same_player(other)
    }
}

impl vstd::std_specs::cmp::PartialEqSpecImpl for Player {
    open spec fn obeys_eq_spec() -> bool {
        true
    }

    open spec fn eq_spec(&self, other: &Player) -> bool {
        spec_same_player(self@, other@)
    }
}

fn same_uuid(a: Option<u128>, b: Option<u128>) -> (r: bool)
    ensures
        r == (a == b),
{
    match (a, b) {
        (Some(x), Some(y)) => x == y,
        (None, None) => true,
        _ => false,
    }
}

/// The decision on a player: let in, or turned away with a reason.
pub enum PlayerAllowed {
    True(Player),
    False(String),
}

/// The outcomes of a whitelist decision.
pub enum Verdict {
    Allowed,
    UuidMissing,
    Inactive,
    UsernameInvalid,
    UuidInvalid,
    NotWhitelisted,
}

/// Whether some entry has the player's name and UUID and the given active
/// flag.
pub open spec fn has_match(entries: Seq<PlayerView>, p: PlayerView, active: bool) -> bool {
    exists|i: int|
        0 <= i < entries.len() && spec_same_player(#[trigger] entries[i], p) && entries[i].active
            == active
}

/// Whether some entry has the player's name and another UUID.
pub open spec fn has_name_only(entries: Seq<PlayerView>, p: PlayerView) -> bool {
    exists|i: int|
        0 <= i < entries.len() && (#[trigger] entries[i]).name == p.name && entries[i].player_uuid
            != p.player_uuid
}

/// Whether some entry has the player's UUID and another name.
pub open spec fn has_uuid_only(entries: Seq<PlayerView>, p: PlayerView) -> bool {
    exists|i: int|
        0 <= i < entries.len() && (#[trigger] entries[i]).player_uuid == p.player_uuid
            && entries[i].name != p.name
}

/// The decision of a file-backed whitelist with the given entries. A
/// player without UUID is refused. An active entry with the player's name
/// and UUID lets the player in. Else the reasons rank: an inactive entry
/// of the player, then the UUID under another name, then the name under
/// another UUID, then no entry at all.
pub open spec fn spec_decide(entries: Seq<PlayerView>, p: PlayerView) -> Verdict {
    if p.player_uuid is None {
        Verdict::UuidMissing
    } else if has_match(entries, p, true) {
        Verdict::Allowed
    } else if has_match(entries, p, false) {
        Verdict::Inactive
    } else if has_uuid_only(entries, p) {
        Verdict::UsernameInvalid
    } else if has_name_only(entries, p) {
        Verdict::UuidInvalid
    } else {
        Verdict::NotWhitelisted
    }
}

/// The text sent to a player who is turned away.
pub open spec fn spec_denial_message(verdict: Verdict) -> Seq<char> {
    match verdict {
        Verdict::Allowed => Seq::empty(),
        Verdict::UuidMissing => info_messages::UUID_MISSING_DISCONNECT@,
        Verdict::Inactive => info_messages::WHITELIST_STATUS_INACTIVE_DISCONNECT@,
        Verdict::UsernameInvalid => info_messages::USERNAME_INVALID_DISCONNECT@,
        Verdict::UuidInvalid => info_messages::UUID_INVALID_DISCONNECT@,
        Verdict::NotWhitelisted => info_messages::NOT_WHITELISTED_DISCONNECT@,
    }
}

/// Whether `r` is the answer that `verdict` calls for on `player`.
pub open spec fn spec_answers(r: PlayerAllowed, verdict: Verdict, player: PlayerView) -> bool {
    match r {
        PlayerAllowed::True(p) => verdict == Verdict::Allowed && p@ == player,
        PlayerAllowed::False(msg) => verdict != Verdict::Allowed && msg@ == spec_denial_message(
            verdict,
        ),
    }
}

/// The views of a run of players, in order.
pub open spec fn player_views(players: Seq<Player>) -> Seq<PlayerView> {
    players.map_values(|p: Player| p@)
}

/// Decides on `player` against the entries of a whitelist.
pub fn decide(whitelist: &Vec<Player>, player: Player) -> (r: PlayerAllowed)
    ensures
        spec_answers(r, spec_decide(player_views(whitelist@), player@), player@),
{
    if player.player_uuid.is_none() {
        return PlayerAllowed::False(info_messages::UUID_MISSING_DISCONNECT.to_owned());
    }
    let ghost entries = player_views(whitelist@);
    let ghost p = player@;
    let mut invalid_uuid: bool = false;
    let mut invalid_username: bool = false;
    let mut is_inactive: bool = false;
    let mut i: usize = 0;
    while i < whitelist.len()
        invariant
            i <= whitelist@.len(),
            entries == player_views(whitelist@),
            p == player@,
            p.player_uuid is Some,
            !has_match(entries.take(i as int), p, true),
            is_inactive == has_match(entries.take(i as int), p, false),
            invalid_uuid == has_name_only(entries.take(i as int), p),
            invalid_username == has_uuid_only(entries.take(i as int), p),
        decreases whitelist@.len() - i,
    {
        let wl_player = &whitelist[i];
        let ghost before = entries.take(i as int);
        let ghost after = entries.take(i + 1);
        let ghost e = entries[i as int];
        proof {
            assert(wl_player@ == e);
            assert(after =~= before.push(e));
            assert forall|active: bool| #[trigger]
                has_match(after, p, active) == (has_match(before, p, active) || (spec_same_player(
                    e,
                    p,
                ) && e.active == active)) by {
                if has_match(before, p, active) {
                    let j = choose|j: int|
                        0 <= j < before.len() && spec_same_player(#[trigger] before[j], p)
                            && before[j].active == active;
                    assert(after[j] == before[j]);
                }
                if spec_same_player(e, p) && e.active == active {
                    assert(after[i as int] == e);
                }
                if has_match(after, p, active) {
                    let j = choose|j: int|
                        0 <= j < after.len() && spec_same_player(#[trigger] after[j], p)
                            && after[j].active == active;
                    if j < i {
                        assert(before[j] == after[j]);
                    }
                }
            }
            assert(has_name_only(after, p) == (has_name_only(before, p) || (e.name == p.name
                && e.player_uuid != p.player_uuid))) by {
                if has_name_only(before, p) {
                    let j = choose|j: int|
                        0 <= j < before.len() && (#[trigger] before[j]).name == p.name
                            && before[j].player_uuid != p.player_uuid;
                    assert(after[j] == before[j]);
                }
                if e.name == p.name && e.player_uuid != p.player_uuid {
                    assert(after[i as int] == e);
                }
                if has_name_only(after, p) {
                    let j = choose|j: int|
                        0 <= j < after.len() && (#[trigger] after[j]).name == p.name
                            && after[j].player_uuid != p.player_uuid;
                    if j < i {
                        assert(before[j] == after[j]);
                    }
                }
            }
            assert(has_uuid_only(after, p) == (has_uuid_only(before, p) || (e.player_uuid
                == p.player_uuid && e.name != p.name))) by {
                if has_uuid_only(before, p) {
                    let j = choose|j: int|
                        0 <= j < before.len() && (#[trigger] before[j]).player_uuid
                            == p.player_uuid && before[j].name != p.name;
                    assert(after[j] == before[j]);
                }
                if e.player_uuid == p.player_uuid && e.name != p.name {
                    assert(after[i as int] == e);
                }
                if has_uuid_only(after, p) {
                    let j = choose|j: int|
                        0 <= j < after.len() && (#[trigger] after[j]).player_uuid == p.player_uuid
                            && after[j].name != p.name;
                    if j < i {
                        assert(before[j] == after[j]);
                    }
                }
            }
        }
        let same_name: bool = wl_player.name == player.name;
        let same_id: bool = same_uuid(wl_player.player_uuid, player.player_uuid);
        if same_name && same_id {
            if wl_player.active {
                proof {
                    assert(entries[i as int] == e);
                    assert(has_match(entries, p, true));
                }
                return PlayerAllowed::True(player);
            } else {
                is_inactive = true;
            }
        } else if same_name {
            invalid_uuid = true;
        } else if same_id {
            invalid_username = true;
        }
        i = i + 1;
    }
    proof {
        assert(entries.take(whitelist@.len() as int) =~= entries);
    }
    if is_inactive {
        PlayerAllowed::False(info_messages::WHITELIST_STATUS_INACTIVE_DISCONNECT.to_owned())
    } else if invalid_username {
        PlayerAllowed::False(info_messages::USERNAME_INVALID_DISCONNECT.to_owned())
    } else if invalid_uuid {
        PlayerAllowed::False(info_messages::UUID_INVALID_DISCONNECT.to_owned())
    } else {
        PlayerAllowed::False(info_messages::NOT_WHITELISTED_DISCONNECT.to_owned())
    }
}

/// The whitelist entry that one row of the document gives: the row must
/// hold a text `name` and a text `uuid` that reads as a number in base
/// 16. The entry is active if the row holds a boolean `active` that is
/// true.
pub open spec fn spec_entry(texts: Map<Seq<char>, Seq<char>>, flags: Map<Seq<char>, bool>) -> Option<
    PlayerView,
> {
    if texts.contains_key("name"@) && texts.contains_key("uuid"@) {
        match hex_u128(texts["uuid"@]) {
            Some(uuid) => Some(
                PlayerView {
                    name: texts["name"@],
                    player_uuid: Some(uuid),
                    active: flags.contains_key("active"@) && flags["active"@],
                },
            ),
            None => None,
        }
    } else {
        None
    }
}

/// The entries that the first `n` rows give, in order; a row that gives
/// none is skipped.
pub open spec fn spec_entries(
    texts: Seq<Map<Seq<char>, Seq<char>>>,
    flags: Seq<Map<Seq<char>, bool>>,
    n: int,
) -> Seq<PlayerView>
    decreases n,
{
    if n <= 0 {
        Seq::empty()
    } else {
        let before = spec_entries(texts, flags, n - 1);
        match spec_entry(texts[n - 1], flags[n - 1]) {
            Some(entry) => before.push(entry),
            None => before,
        }
    }
}

/// The whitelist that lets every player in.
#[derive(Clone, Copy)]
pub struct WhitelistOpen {}

impl WhitelistOpen {
    /// Lets the player in.
    pub fn check_player_whitelist(&self, player: Player) -> (r: PlayerAllowed)
        ensures
            r == PlayerAllowed::True(player),
    {
        PlayerAllowed::True(player)
    }
}

/// A whitelist kept in a JSON file: the path of the file, the document
/// last loaded from it, and the second at which it was loaded.
pub struct WhitelistFile {
    file_path: String,
    whitelist_data: serde_json::Value,
    timestamp: Option<u64>,
}

impl WhitelistFile {
    /// The path of the file.
    pub closed spec fn spec_file_path(&self) -> Seq<char> {
        self.file_path@
    }

    /// The document last loaded.
    pub closed spec fn spec_document(&self) -> serde_json::Value {
        self.whitelist_data
    }

    /// The second of the last load, if there was one.
    pub closed spec fn spec_timestamp(&self) -> Option<u64> {
        self.timestamp
    }

    /// The entries of the document last loaded.
    pub open spec fn spec_whitelist(&self) -> Seq<PlayerView> {
        spec_entries(
            json_row_texts(self.spec_document()),
            json_row_flags(self.spec_document()),
            json_row_texts(self.spec_document()).len() as int,
        )
    }

    /// Whether at second `now` the document is due to be loaded again:
    /// it never was loaded, or 60 seconds or more have passed since.
    pub open spec fn spec_is_expired(&self, now: u64) -> bool {
        match self.spec_timestamp() {
            None => true,
            Some(loaded) => now - loaded >= EXPIRATION_SECONDS,
        }
    }

    /// A whitelist for the file at `file_path`, with nothing loaded yet.
    pub fn new(file_path: String) -> (r: Self)
        ensures
            r.spec_file_path() == file_path@,
            r.spec_timestamp() == None::<u64>,
            r.spec_whitelist() == Seq::<PlayerView>::empty(),
            forall|now: u64| r.spec_is_expired(now),
    {
        let r = Self { file_path, whitelist_data: null_document(), timestamp: None };
        proof {
            assert(spec_entries(
                json_row_texts(r.spec_document()),
                json_row_flags(r.spec_document()),
                0,
            ) =~= Seq::<PlayerView>::empty());
        }
        r
    }

    /// The path of the file to load.
    pub fn file_path(&self) -> (r: &String)
        ensures
            r@ == self.spec_file_path(),
    {
        &self.file_path
    }

    /// Whether at second `now` the document is due to be loaded again.
    pub fn is_expired(&self, now: u64) -> (r: bool)
        ensures
            r == self.spec_is_expired(now),
    {
        match self.timestamp {
            None => true,
            Some(loaded) => now >= loaded && now - loaded >= EXPIRATION_SECONDS,
        }
    }

    /// Takes `data`, the text of the file as read at second `now`, as the
    /// new document. A text that is no JSON counts as no data: the
    /// whitelist is then empty.
    pub fn load(&mut self, data: &str, now: u64)
        ensures
            final(self).spec_file_path() == old(self).spec_file_path(),
            final(self).spec_timestamp() == Some(now),
            !final(self).spec_is_expired(now),
            match json_parse(data@) {
                Some(doc) => final(self).spec_document() == doc,
                None => final(self).spec_whitelist() == Seq::<PlayerView>::empty(),
            },
    {
        self.whitelist_data = match parse_document(data) {
            Some(doc) => doc,
            None => null_document(),
        };
        self.timestamp = Some(now);
        proof {
            if json_parse(data@) is None {
                assert(spec_entries(
                    json_row_texts(self.spec_document()),
                    json_row_flags(self.spec_document()),
                    0,
                ) =~= Seq::<PlayerView>::empty());
            }
        }
    }

    /// The entry that the row at `index` gives, if it gives one.
    fn entry_at(&self, index: usize) -> (r: Option<Player>)
        requires
            index < json_row_texts(self.spec_document()).len(),
            json_row_flags(self.spec_document()).len() == json_row_texts(
                self.spec_document(),
            ).len(),
        ensures
            match r {
                Some(p) => spec_entry(
                    json_row_texts(self.spec_document())[index as int],
                    json_row_flags(self.spec_document())[index as int],
                ) == Some(p@),
                None => spec_entry(
                    json_row_texts(self.spec_document())[index as int],
                    json_row_flags(self.spec_document())[index as int],
                ) == None::<PlayerView>,
            },
    {
        let name = match row_text(&self.whitelist_data, index, "name") {
            Some(name) => name,
            None => {
                return None;
            },
        };
        let uuid_text = match row_text(&self.whitelist_data, index, "uuid") {
            Some(text) => text,
            None => {
                return None;
            },
        };
        let player_uuid: u128 = match parse_hex_u128(uuid_text.as_str()) {
            Some(value) => value,
            None => {
                return None;
            },
        };
        let active: bool = match row_flag(&self.whitelist_data, index, "active") {
            Some(flag) => flag,
            None => false,
        };
        Some(Player { name, player_uuid: Some(player_uuid), active })
    }

    /// The entries of the document last loaded, in the order of its rows.
    pub fn get_whitelist(&self) -> (r: Vec<Player>)
        ensures
            player_views(r@) == self.spec_whitelist(),
    {
        let count: usize = row_count(&self.whitelist_data);
        let ghost texts = json_row_texts(self.spec_document());
        let ghost flags = json_row_flags(self.spec_document());
        let mut whitelist: Vec<Player> = Vec::new();
        let mut i: usize = 0;
        proof {
            assert(player_views(whitelist@) =~= spec_entries(texts, flags, 0));
        }
        while i < count
            invariant
                i <= count,
                count == texts.len(),
                count == flags.len(),
                texts == json_row_texts(self.spec_document()),
                flags == json_row_flags(self.spec_document()),
                player_views(whitelist@) == spec_entries(texts, flags, i as int),
            decreases count - i,
        {
            let ghost before = player_views(whitelist@);
            match self.entry_at(i) {
                Some(p) => {
                    whitelist.push(p);
                    proof {
                        assert(player_views(whitelist@) =~= before.push(p@));
                    }
                },
                None => {},
            }
            i = i + 1;
        }
        whitelist
    }

    /// Decides on `player` against the document last loaded.
    pub fn check_player_whitelist(&self, player: Player) -> (r: PlayerAllowed)
        ensures
            spec_answers(r, spec_decide(self.spec_whitelist(), player@), player@),
    {
        if player.player_uuid.is_none() {
            return PlayerAllowed::False(info_messages::UUID_MISSING_DISCONNECT.to_owned());
        }
        let whitelist = self.get_whitelist();
        decide(&whitelist, player)
    }
}

/// The policy of a listener: open to all, or kept in a file.
pub enum Whitelist {
    WhitelistOpen(WhitelistOpen),
    WhitelistFile(WhitelistFile),
}

impl Whitelist {
    /// What `check_player_whitelist` answers.
    pub open spec fn spec_check(&self, player: PlayerView) -> Verdict {
        match self {
            Whitelist::WhitelistOpen(_) => Verdict::Allowed,
            Whitelist::WhitelistFile(wl) => spec_decide(wl.spec_whitelist(), player),
        }
    }

    /// Decides on `player` by the listener's policy.
    pub fn check_player_whitelist(&self, player: Player) -> (r: PlayerAllowed)
        ensures
            spec_answers(r, self.spec_check(player@), player@),
    {
        match self {
            Whitelist::WhitelistOpen(wl) => wl.check_player_whitelist(player),
            Whitelist::WhitelistFile(wl) => wl.check_player_whitelist(player),
        }
    }
}

/// Whether two answers say the same: both let the same player in, or both
/// turn the player away with the same text.
pub open spec fn spec_same_answer(a: PlayerAllowed, b: PlayerAllowed) -> bool {
    match (a, b) {
        (PlayerAllowed::True(p), PlayerAllowed::True(q)) => p@ == q@,
        (PlayerAllowed::False(m), PlayerAllowed::False(n)) => m@ == n@,
        _ => false,
    }
}

/// While the loaded document stays the same, the decision depends on the
/// player alone: any two answers to the same player say the same.
pub proof fn lemma_decision_is_function_of_player(
    first: WhitelistFile,
    second: WhitelistFile,
    player: PlayerView,
    a: PlayerAllowed,
    b: PlayerAllowed,
)
    requires
        first.spec_document() == second.spec_document(),
        spec_answers(a, spec_decide(first.spec_whitelist(), player), player),
        spec_answers(b, spec_decide(second.spec_whitelist(), player), player),
    ensures
        spec_same_answer(a, b),
{
}

/// A document loaded less than 60 seconds ago is not due, so the next
/// decision is made on the same document.
pub proof fn lemma_fresh_within_ttl(whitelist: WhitelistFile, loaded: u64, now: u64)
    requires
        whitelist.spec_timestamp() == Some(loaded),
        loaded <= now < loaded + EXPIRATION_SECONDS,
    ensures
        !whitelist.spec_is_expired(now),
{
}

} // verus!
