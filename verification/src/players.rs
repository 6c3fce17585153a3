//! The list of players on the server: the `PlayerInfo` packet that adds, updates and
//! removes them, and the list it keeps up to date.
use vstd::prelude::*;

use crate::network::decode::{FieldKind, Scalar};
use crate::network::packets::{read_be, read_bool, read_string, read_varint, PacketDecoder};
use crate::network::types::UUID;

verus! {

/// What the list holds of a player: name, game mode, latency in milliseconds, and the
/// chat JSON of the display name when there is one.
pub struct PlayerView {
    pub name: Seq<char>,
    pub gamemode: int,
    pub ping: int,
    pub display_name: Option<Seq<char>>,
}

/// An entry of a `PlayerInfo` packet, or a player of the list. An update carries only
/// the field it updates; the others are empty.
#[derive(Debug)]
pub struct RemotePlayer {
    pub uuid: UUID,
    pub name: String,
    pub gamemode: i32,
    pub ping: i32,
    pub display_name: Option<String>,
}

/// A `PlayerInfo` packet: its action (0 add, 1 game mode, 2 latency, 3 display name,
/// 4 remove) and its entries.
#[derive(Debug)]
pub struct PlayerInfo {
    pub action: i32,
    pub players: Vec<RemotePlayer>,
}

/// A player's UUID as the list's key.
pub open spec fn uuid_key(u: UUID) -> (int, int) {
    (u.0[0] as int, u.0[1] as int)
}

/// The text of an optional string.
pub open spec fn opt_view(s: Option<String>) -> Option<Seq<char>> {
    match s {
        Some(t) => Some(t@),
        None => None,
    }
}

/// What the list holds of `p`.
pub open spec fn player_view(p: RemotePlayer) -> PlayerView {
    PlayerView {
        name: p.name@,
        gamemode: p.gamemode as int,
        ping: p.ping as int,
        display_name: opt_view(p.display_name),
    }
}

/// An entry of a packet, by its key.
pub open spec fn entry_of(p: RemotePlayer) -> ((int, int), PlayerView) {
    (uuid_key(p.uuid), player_view(p))
}

/// An optional string at `pos`: a boolean, then the string when it is true.
pub open spec fn read_opt_string(buf: Seq<u8>, pos: nat) -> Option<(Option<Seq<char>>, nat)> {
    match read_bool(buf, pos) {
        Some((present, p)) => if present {
            match read_string(buf, p) {
                Some((s, q)) => Some((Some(s), q)),
                None => None,
            }
        } else {
            Some((None, p))
        },
        None => None,
    }
}

/// The end of a property of a player at `pos`: its name, its value, and an optional
/// signature.
pub open spec fn read_property(buf: Seq<u8>, pos: nat) -> Option<nat> {
    match read_string(buf, pos) {
        Some((_, p)) => match read_string(buf, p) {
            Some((_, q)) => match read_opt_string(buf, q) {
                Some((_, r)) => Some(r),
                None => None,
            },
            None => None,
        },
        None => None,
    }
}

/// The end of `n` properties one after the other from `pos`.
pub open spec fn read_properties(buf: Seq<u8>, pos: nat, n: nat) -> Option<nat>
    decreases n,
{
    if n == 0 {
        Some(pos)
    } else {
        match read_properties(buf, pos, (n - 1) as nat) {
            Some(p) => read_property(buf, p),
            None => None,
        }
    }
}

/// The UUID at `pos`: two big-endian 64-bit halves.
pub open spec fn read_uuid(buf: Seq<u8>, pos: nat) -> Option<((int, int), nat)> {
    match read_be(buf, pos, 8) {
        Some((hi, p)) => match read_be(buf, p, 8) {
            Some((lo, q)) => Some(((hi as int, lo as int), q)),
            None => None,
        },
        None => None,
    }
}

/// A player with only a name, as an update that carries no name holds it.
pub open spec fn blank_view() -> PlayerView {
    PlayerView { name: Seq::empty(), gamemode: 0, ping: 0, display_name: None }
}

/// The entry at `pos` of a packet with action `action`, and the position after it.
pub open spec fn read_player(buf: Seq<u8>, pos: nat, action: int) -> Option<
    ((int, int), PlayerView, nat),
> {
    match read_uuid(buf, pos) {
        None => None,
        Some((id, p)) => if action == 0 {
            match read_string(buf, p) {
                Some((name, p1)) => match read_varint(buf, p1) {
                    Some((n, p2)) => if n < 0 {
                        None
                    } else {
                        match read_properties(buf, p2, n as nat) {
                            Some(p3) => match read_varint(buf, p3) {
                                Some((gm, p4)) => match read_varint(buf, p4) {
                                    Some((ping, p5)) => match read_opt_string(buf, p5) {
                                        Some((dn, p6)) => Some(
                                            (
                                                id,
                                                PlayerView {
                                                    name,
                                                    gamemode: gm as int,
                                                    ping: ping as int,
                                                    display_name: dn,
                                                },
                                                p6,
                                            ),
                                        ),
                                        None => None,
                                    },
                                    None => None,
                                },
                                None => None,
                            },
                            None => None,
                        }
                    },
                    None => None,
                },
                None => None,
            }
        } else if action == 1 {
            match read_varint(buf, p) {
                Some((gm, q)) => Some((id, PlayerView { gamemode: gm as int, ..blank_view() }, q)),
                None => None,
            }
        } else if action == 2 {
            match read_varint(buf, p) {
                Some((ping, q)) => Some((id, PlayerView { ping: ping as int, ..blank_view() }, q)),
                None => None,
            }
        } else if action == 3 {
            match read_opt_string(buf, p) {
                Some((dn, q)) => Some((id, PlayerView { display_name: dn, ..blank_view() }, q)),
                None => None,
            }
        } else if action == 4 {
            Some((id, blank_view(), p))
        } else {
            None
        },
    }
}

/// The `n` entries one after the other from `pos`, and the position after the last.
pub open spec fn read_players(buf: Seq<u8>, pos: nat, action: int, n: nat) -> Option<
    (Seq<((int, int), PlayerView)>, nat),
>
    decreases n,
{
    if n == 0 {
        Some((Seq::empty(), pos))
    } else {
        match read_players(buf, pos, action, (n - 1) as nat) {
            Some((es, p)) => match read_player(buf, p, action) {
                Some((id, v, q)) => Some((es.push((id, v)), q)),
                None => None,
            },
            None => None,
        }
    }
}

/// The action and the entries of the `PlayerInfo` packet `buf`, ID first: the action and
/// the count are `VarInt`s, and the count must not be negative.
pub open spec fn read_player_info(buf: Seq<u8>) -> Option<(int, Seq<((int, int), PlayerView)>)> {
    match read_varint(buf, 1) {
        Some((action, p)) => match read_varint(buf, p) {
            Some((n, q)) => if n < 0 {
                None
            } else {
                match read_players(buf, q, action as int, n as nat) {
                    Some((es, _)) => Some((action as int, es)),
                    None => None,
                }
            },
            None => None,
        },
        None => None,
    }
}

/// Reads a boolean when one can be read at the index.
fn try_bool(pd: &mut PacketDecoder) -> (r: Option<bool>)
    ensures
        final(pd).buffer() == old(pd).buffer(),
        match r {
            Some(b) => read_bool(old(pd).buffer(), old(pd).index()) == Some((b, final(pd).index())),
            None => read_bool(old(pd).buffer(), old(pd).index()) is None,
        },
{
    if pd.field_end_here(FieldKind::One(Scalar::Bool)).is_none() {
        return None;
    }
    Some(pd.next_bool().0)
}

/// Reads a `VarInt` when one can be read at the index.
fn try_varint(pd: &mut PacketDecoder) -> (r: Option<i32>)
    ensures
        final(pd).buffer() == old(pd).buffer(),
        match r {
            Some(v) => read_varint(old(pd).buffer(), old(pd).index()) == Some(
                (v, final(pd).index()),
            ),
            None => read_varint(old(pd).buffer(), old(pd).index()) is None,
        },
{
    if pd.field_end_here(FieldKind::One(Scalar::VarInt)).is_none() {
        return None;
    }
    Some(pd.next_varint().0)
}

/// Reads a string when one can be read at the index.
fn try_string(pd: &mut PacketDecoder) -> (r: Option<String>)
    ensures
        final(pd).buffer() == old(pd).buffer(),
        match r {
            Some(s) => read_string(old(pd).buffer(), old(pd).index()) == Some(
                (s@, final(pd).index()),
            ),
            None => read_string(old(pd).buffer(), old(pd).index()) is None,
        },
{
    if pd.field_end_here(FieldKind::One(Scalar::Str)).is_none() {
        return None;
    }
    Some(pd.next_string().0)
}

/// Reads an optional string when one can be read at the index.
fn try_opt_string(pd: &mut PacketDecoder) -> (r: Option<Option<String>>)
    ensures
        final(pd).buffer() == old(pd).buffer(),
        match r {
            Some(s) => read_opt_string(old(pd).buffer(), old(pd).index()) == Some(
                (opt_view(s), final(pd).index()),
            ),
            None => read_opt_string(old(pd).buffer(), old(pd).index()) is None,
        },
{
    let present = match try_bool(pd) {
        Some(b) => b,
        None => {
            return None;
        },
    };
    if present {
        match try_string(pd) {
            Some(s) => Some(Some(s)),
            None => None,
        }
    } else {
        Some(None)
    }
}

/// Reads a UUID when sixteen bytes are left at the index.
fn try_uuid(pd: &mut PacketDecoder) -> (r: Option<UUID>)
    ensures
        final(pd).buffer() == old(pd).buffer(),
        match r {
            Some(u) => read_uuid(old(pd).buffer(), old(pd).index()) == Some(
                (uuid_key(u), final(pd).index()),
            ),
            None => read_uuid(old(pd).buffer(), old(pd).index()) is None,
        },
{
    if pd.field_end_here(FieldKind::One(Scalar::Uuid)).is_none() {
        return None;
    }
    Some(pd.next_uuid())
}

/// Moves past `n` properties when they can all be read.
fn skip_properties(pd: &mut PacketDecoder, n: i32) -> (ok: bool)
    requires
        n >= 0,
    ensures
        final(pd).buffer() == old(pd).buffer(),
        ok ==> read_properties(old(pd).buffer(), old(pd).index(), n as nat) == Some(
            final(pd).index(),
        ),
        !ok ==> read_properties(old(pd).buffer(), old(pd).index(), n as nat) is None,
{
    let ghost buf = pd.buffer();
    let ghost start = pd.index();
    let mut i: i32 = 0;
    while i < n
        invariant
            0 <= i <= n,
            buf == old(pd).buffer(),
            start == old(pd).index(),
            pd.buffer() == buf,
            read_properties(buf, start, i as nat) == Some(pd.index()),
        decreases n - i,
    {
        let ghost p0 = pd.index();
        assert(read_properties(buf, start, (i + 1) as nat) == read_property(buf, p0));
        if try_string(pd).is_none() {
            proof {
                lemma_properties_stop(buf, start, (i + 1) as nat, n as nat);
            }
            return false;
        }
        if try_string(pd).is_none() {
            proof {
                lemma_properties_stop(buf, start, (i + 1) as nat, n as nat);
            }
            return false;
        }
        if try_opt_string(pd).is_none() {
            proof {
                lemma_properties_stop(buf, start, (i + 1) as nat, n as nat);
            }
            return false;
        }
        i += 1;
    }
    true
}

/// Properties that stop being readable do not become readable with more of them.
proof fn lemma_properties_stop(buf: Seq<u8>, pos: nat, k: nat, n: nat)
    requires
        k <= n,
        read_properties(buf, pos, k) is None,
    ensures
        read_properties(buf, pos, n) is None,
    decreases n - k,
{
    if k < n {
        lemma_properties_stop(buf, pos, k, (n - 1) as nat);
    }
}

/// Entries that stop being readable do not become readable with more of them.
proof fn lemma_players_stop(buf: Seq<u8>, pos: nat, action: int, k: nat, n: nat)
    requires
        k <= n,
        read_players(buf, pos, action, k) is None,
    ensures
        read_players(buf, pos, action, n) is None,
    decreases n - k,
{
    if k < n {
        lemma_players_stop(buf, pos, action, k, (n - 1) as nat);
    }
}

/// Reads the entry at the index of a packet with action `action`.
fn try_player(pd: &mut PacketDecoder, action: i32) -> (r: Option<RemotePlayer>)
    ensures
        final(pd).buffer() == old(pd).buffer(),
        match r {
            Some(p) => read_player(old(pd).buffer(), old(pd).index(), action as int) == Some(
                (uuid_key(p.uuid), player_view(p), final(pd).index()),
            ),
            None => read_player(old(pd).buffer(), old(pd).index(), action as int) is None,
        },
{
    let uuid = match try_uuid(pd) {
        Some(u) => u,
        None => {
            return None;
        },
    };
    if action == 0 {
        let name = match try_string(pd) {
            Some(s) => s,
            None => {
                return None;
            },
        };
        let n = match try_varint(pd) {
            Some(n) => n,
            None => {
                return None;
            },
        };
        if n < 0 {
            return None;
        }
        if !skip_properties(pd, n) {
            return None;
        }
        let gamemode = match try_varint(pd) {
            Some(v) => v,
            None => {
                return None;
            },
        };
        let ping = match try_varint(pd) {
            Some(v) => v,
            None => {
                return None;
            },
        };
        let display_name = match try_opt_string(pd) {
            Some(d) => d,
            None => {
                return None;
            },
        };
        Some(RemotePlayer { uuid, name, gamemode, ping, display_name })
    } else if action == 1 {
        match try_varint(pd) {
            Some(v) => Some(
                RemotePlayer { uuid, name: String::new(), gamemode: v, ping: 0, display_name: None },
            ),
            None => None,
        }
    } else if action == 2 {
        match try_varint(pd) {
            Some(v) => Some(
                RemotePlayer { uuid, name: String::new(), gamemode: 0, ping: v, display_name: None },
            ),
            None => None,
        }
    } else if action == 3 {
        match try_opt_string(pd) {
            Some(d) => Some(
                RemotePlayer { uuid, name: String::new(), gamemode: 0, ping: 0, display_name: d },
            ),
            None => None,
        }
    } else if action == 4 {
        Some(RemotePlayer { uuid, name: String::new(), gamemode: 0, ping: 0, display_name: None })
    } else {
        None
    }
}

/// Reads a `PlayerInfo` packet, ID first; `None` when it cannot be read to its last
/// entry.
pub fn parse_player_info(packet: &Vec<u8>) -> (r: Option<PlayerInfo>)
    ensures
        match r {
            Some(info) => read_player_info(packet@) == Some(
                (info.action as int, info.players@.map_values(|p: RemotePlayer| entry_of(p))),
            ),
            None => read_player_info(packet@) is None,
        },
{
    if packet.len() == 0 {
        return None;
    }
    let mut pd = PacketDecoder::new(packet);
    let action = match try_varint(&mut pd) {
        Some(a) => a,
        None => {
            return None;
        },
    };
    let n = match try_varint(&mut pd) {
        Some(n) => n,
        None => {
            return None;
        },
    };
    if n < 0 {
        return None;
    }
    let ghost buf = packet@;
    let ghost start = pd.index();
    let mut players: Vec<RemotePlayer> = Vec::new();
    let mut i: i32 = 0;
    while i < n
        invariant
            0 <= i <= n,
            pd.buffer() == buf,
            buf == packet@,
            read_varint(buf, 1) matches Some((a, p)) && a == action && read_varint(buf, p)
                == Some((n, start)),
            read_players(buf, start, action as int, i as nat) == Some(
                (players@.map_values(|p: RemotePlayer| entry_of(p)), pd.index()),
            ),
        decreases n - i,
    {
        match try_player(&mut pd, action) {
            Some(p) => {
                let ghost before = players@;
                players.push(p);
                proof {
                    assert(players@.map_values(|p: RemotePlayer| entry_of(p)) =~= before.map_values(
                        |p: RemotePlayer| entry_of(p),
                    ).push(entry_of(p)));
                }
            },
            None => {
                proof {
                    lemma_players_stop(buf, start, action as int, (i + 1) as nat, n as nat);
                }
                return None;
            },
        }
        i += 1;
    }
    Some(PlayerInfo { action, players })
}

/// What the latest player of `ps` with the key `k` holds, if there is one.
pub open spec fn find_player(ps: Seq<RemotePlayer>, k: (int, int)) -> Option<PlayerView>
    decreases ps.len(),
{
    if ps.len() == 0 {
        None
    } else if uuid_key(ps.last().uuid) == k {
        Some(player_view(ps.last()))
    } else {
        find_player(ps.drop_last(), k)
    }
}

/// The players of a list, by their UUIDs.
pub open spec fn player_map(ps: Seq<RemotePlayer>) -> Map<(int, int), PlayerView> {
    Map::new(|k: (int, int)| find_player(ps, k) is Some, |k: (int, int)| find_player(ps, k).unwrap())
}

/// What the map of a list holds under `k`.
proof fn lemma_player_map(ps: Seq<RemotePlayer>, k: (int, int))
    ensures
        player_map(ps).contains_key(k) == (find_player(ps, k) is Some),
        player_map(ps).contains_key(k) ==> player_map(ps)[k] == find_player(ps, k).unwrap(),
{
}

/// A player added at the end of a list is the one found under its key.
proof fn lemma_find_push(ps: Seq<RemotePlayer>, x: RemotePlayer, k: (int, int))
    ensures
        find_player(ps.push(x), k) == (if uuid_key(x.uuid) == k {
            Some(player_view(x))
        } else {
            find_player(ps, k)
        }),
{
    assert(ps.push(x).drop_last() =~= ps);
}

/// The list after one entry of a packet with action `action`: an added player replaces
/// any player with the same UUID; an update changes its one field of a listed player and
/// leaves the list as it is for a player not listed; a removal drops the player.
pub open spec fn apply_entry(
    m: Map<(int, int), PlayerView>,
    action: int,
    e: ((int, int), PlayerView),
) -> Map<(int, int), PlayerView> {
    let k = e.0;
    let v = e.1;
    if action == 0 {
        m.insert(k, v)
    } else if action == 4 {
        m.remove(k)
    } else if !m.contains_key(k) {
        m
    } else if action == 1 {
        m.insert(k, PlayerView { gamemode: v.gamemode, ..m[k] })
    } else if action == 2 {
        m.insert(k, PlayerView { ping: v.ping, ..m[k] })
    } else if action == 3 {
        m.insert(k, PlayerView { display_name: v.display_name, ..m[k] })
    } else {
        m
    }
}

/// The list after the entries `es`, in order.
pub open spec fn apply_entries(
    m: Map<(int, int), PlayerView>,
    action: int,
    es: Seq<((int, int), PlayerView)>,
) -> Map<(int, int), PlayerView>
    decreases es.len(),
{
    if es.len() == 0 {
        m
    } else {
        apply_entry(apply_entries(m, action, es.drop_last()), action, es.last())
    }
}

/// Whether two UUIDs are the same.
fn same_uuid(a: UUID, b: UUID) -> (r: bool)
    ensures
        r == (uuid_key(a) == uuid_key(b)),
{
    let (a0, a1, b0, b1) = (a.0[0], a.0[1], b.0[0], b.0[1]);
    assert(a0 == a.0[0] && a1 == a.0[1] && b0 == b.0[0] && b1 == b.0[1]);
    a0 == b0 && a1 == b1
}

/// A copy of an optional string.
fn copy_text(s: &Option<String>) -> (r: Option<String>)
    ensures
        opt_view(r) == opt_view(*s),
{
    match s {
        Some(t) => Some(t.clone()),
        None => None,
    }
}

/// A copy of a player.
fn copy_player(p: &RemotePlayer) -> (q: RemotePlayer)
    ensures
        q.uuid == p.uuid,
        player_view(q) == player_view(*p),
{
    RemotePlayer {
        uuid: p.uuid,
        name: p.name.clone(),
        gamemode: p.gamemode,
        ping: p.ping,
        display_name: copy_text(&p.display_name),
    }
}

/// The players on the server.
pub struct PlayerList {
    players: Vec<RemotePlayer>,
}

impl View for PlayerList {
    type V = Map<(int, int), PlayerView>;

    closed spec fn view(&self) -> Map<(int, int), PlayerView> {
        player_map(self.players@)
    }
}

impl PlayerList {
    /// An empty list.
    pub fn new() -> (l: PlayerList)
        ensures
            l@ == Map::<(int, int), PlayerView>::empty(),
    {
        let l = PlayerList { players: Vec::new() };
        assert(l@ =~= Map::<(int, int), PlayerView>::empty());
        l
    }

    /// The player with `uuid`, if there is one.
    pub fn get(&self, uuid: UUID) -> (r: Option<&RemotePlayer>)
        ensures
            match r {
                Some(p) => self@.contains_key(uuid_key(uuid)) && self@[uuid_key(uuid)]
                    == player_view(*p) && uuid_key(p.uuid) == uuid_key(uuid),
                None => !self@.contains_key(uuid_key(uuid)),
            },
    {
        let ghost k = uuid_key(uuid);
        let mut i = self.players.len();
        assert(self.players@.take(i as int) =~= self.players@);
        while i > 0
            invariant
                i <= self.players@.len(),
                k == uuid_key(uuid),
                find_player(self.players@, k) == find_player(self.players@.take(i as int), k),
            decreases i,
        {
            let ghost s = self.players@.take(i as int);
            assert(s.drop_last() =~= self.players@.take(i - 1));
            let here = self.players[i - 1].uuid;
            if same_uuid(here, uuid) {
                return Some(&self.players[i - 1]);
            }
            i -= 1;
        }
        None
    }

    /// Drops the player with `uuid`, if there is one.
    pub fn remove(&mut self, uuid: UUID)
        ensures
            final(self)@ == old(self)@.remove(uuid_key(uuid)),
    {
        let ghost k = uuid_key(uuid);
        let mut kept: Vec<RemotePlayer> = Vec::new();
        let ghost all = self.players@;
        let n = self.players.len();
        for i in 0..n
            invariant
                n == all.len(),
                all == self.players@,
                k == uuid_key(uuid),
                find_player(kept@, k) is None,
                forall|c: (int, int)| c != k ==> find_player(kept@, c) == find_player(
                    all.take(i as int),
                    c,
                ),
        {
            let p = copy_player(&self.players[i]);
            proof {
                assert(all.take(i + 1).drop_last() =~= all.take(i as int));
                lemma_find_push(kept@, p, k);
                assert forall|c: (int, int)| true implies find_player(all.take(i + 1), c) == (if uuid_key(p.uuid) == c {
                    Some(player_view(p))
                } else {
                    find_player(all.take(i as int), c)
                }) by {
                    assert(all.take(i + 1).last() == all[i as int]);
                }
            }
            if !same_uuid(p.uuid, uuid) {
                let ghost before = kept@;
                kept.push(p);
                proof {
                    assert forall|c: (int, int)| c != k implies find_player(kept@, c)
                        == find_player(all.take(i + 1), c) by {
                        lemma_find_push(before, p, c);
                    }
                    lemma_find_push(before, p, k);
                }
            }
        }
        proof {
            assert(all.take(n as int) =~= all);
        }
        self.players = kept;
        assert(self@ =~= old(self)@.remove(k));
    }

    /// Puts `p` in place of any player with its UUID.
    fn put(&mut self, p: RemotePlayer)
        ensures
            final(self)@ == old(self)@.insert(uuid_key(p.uuid), player_view(p)),
    {
        let k = p.uuid;
        self.remove(k);
        let ghost before = self.players@;
        let ghost removed = self@;
        self.players.push(p);
        proof {
            let m = old(self)@.insert(uuid_key(k), player_view(p));
            assert forall|c: (int, int)|
                #![trigger self@.dom().contains(c)]
                #![trigger m.dom().contains(c)]
                self@.dom().contains(c) == m.dom().contains(c) && (self@.dom().contains(c)
                    ==> self@[c] == m[c]) by {
                lemma_find_push(before, p, c);
                lemma_player_map(self.players@, c);
                lemma_player_map(before, c);
                if c != uuid_key(k) {
                    assert(removed.contains_key(c) == old(self)@.contains_key(c));
                }
            }
            assert(self@ =~= m);
        }
    }

    /// Applies a `PlayerInfo` packet to the list, entry by entry.
    pub fn apply(&mut self, info: &PlayerInfo)
        ensures
            final(self)@ == apply_entries(
                old(self)@,
                info.action as int,
                info.players@.map_values(|p: RemotePlayer| entry_of(p)),
            ),
    {
        let ghost es = info.players@.map_values(|p: RemotePlayer| entry_of(p));
        let action = info.action;
        let n = info.players.len();
        for i in 0..n
            invariant
                n == info.players@.len(),
                action == info.action,
                es == info.players@.map_values(|p: RemotePlayer| entry_of(p)),
                self@ == apply_entries(old(self)@, action as int, es.take(i as int)),
        {
            proof {
                assert(es.take(i + 1).drop_last() =~= es.take(i as int));
                assert(es.take(i + 1).last() == entry_of(info.players@[i as int]));
            }
            let e = &info.players[i];
            if action == 0 {
                let q = copy_player(e);
                self.put(q);
            } else if action == 4 {
                self.remove(e.uuid);
            } else if 1 <= action && action <= 3 {
                let found = match self.get(e.uuid) {
                    Some(p) => Some(copy_player(p)),
                    None => None,
                };
                match found {
                    Some(mut q) => {
                        if action == 1 {
                            q.gamemode = e.gamemode;
                        } else if action == 2 {
                            q.ping = e.ping;
                        } else {
                            q.display_name = copy_text(&e.display_name);
                        }
                        q.uuid = e.uuid;
                        self.put(q);
                    },
                    None => {},
                }
            }
        }
        proof {
            assert(es.take(n as int) =~= es);
        }
    }
}

/// What one entry of a `PlayerInfo` packet does to the list. Every other player is left
/// as it was. Adding puts the entry's player, all its fields, under its UUID; removing
/// drops that UUID. An update leaves the list's UUIDs as they were; for a listed player
/// it sets the one field it carries (the game mode, the latency, or the display name,
/// present or absent as the entry has it) and keeps the player's other fields.
pub proof fn law_player_info_entry(
    m: Map<(int, int), PlayerView>,
    action: int,
    k: (int, int),
    v: PlayerView,
    other: (int, int),
)
    requires
        other != k,
    ensures
        ({
            let r = apply_entries(m, action, seq![(k, v)]);
            &&& r.contains_key(other) == m.contains_key(other)
            &&& m.contains_key(other) ==> r[other] == m[other]
            &&& action == 0 ==> r.contains_key(k) && r[k] == v
            &&& action == 4 ==> !r.contains_key(k)
            &&& 1 <= action <= 3 ==> r.contains_key(k) == m.contains_key(k)
            &&& 1 <= action <= 3 && m.contains_key(k) ==> {
                &&& r[k].name == m[k].name
                &&& r[k].gamemode == (if action == 1 {
                    v.gamemode
                } else {
                    m[k].gamemode
                })
                &&& r[k].ping == (if action == 2 {
                    v.ping
                } else {
                    m[k].ping
                })
                &&& r[k].display_name == (if action == 3 {
                    v.display_name
                } else {
                    m[k].display_name
                })
            }
            &&& !(0 <= action <= 4) ==> r == m
        }),
{
    let es = seq![(k, v)];
    assert(es.drop_last() =~= Seq::<((int, int), PlayerView)>::empty());
    assert(es.last() == (k, v));
    assert(apply_entries(m, action, Seq::<((int, int), PlayerView)>::empty()) == m);
    assert(apply_entries(m, action, es) == apply_entry(m, action, (k, v)));
}

/// The entries of a packet take effect in order: applying a packet's entries is applying
/// all but the last, then the last.
pub proof fn law_player_info_in_order(
    m: Map<(int, int), PlayerView>,
    action: int,
    es: Seq<((int, int), PlayerView)>,
    e: ((int, int), PlayerView),
)
    ensures
        apply_entries(m, action, es.push(e)) == apply_entries(
            apply_entries(m, action, es),
            action,
            seq![e],
        ),
{
    assert(es.push(e).drop_last() =~= es);
    assert(es.push(e).last() == e);
    let before = apply_entries(m, action, es);
    let one = seq![e];
    assert(one.drop_last() =~= Seq::<((int, int), PlayerView)>::empty());
    assert(one.last() == e);
    assert(apply_entries(before, action, Seq::<((int, int), PlayerView)>::empty()) == before);
    assert(apply_entries(before, action, one) == apply_entry(before, action, e));
    assert(apply_entries(m, action, es.push(e)) == apply_entry(before, action, e));
}

} // verus!
