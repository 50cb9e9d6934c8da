//! Selecting the lobby snapshots due for notification.
//!
//! A snapshot is eligible when it is the most recent one for its lobby
//! within the recency window, its mod set touches the configured allowlist,
//! and the lobby is not currently marked by an excluded mod. Exclusion is
//! sticky to the most recent sighting of an excluded mod for the lobby: the
//! lobby is barred exactly when that latest sighting is as new as the
//! snapshot itself. Eligible snapshots are handed out oldest first, so
//! older lobbies get their share of the rate-limited call budget before
//! newer ones.

use vstd::prelude::*;

use crate::fields::{clone_opt_string, ModRef};

verus! {

/// Only snapshots captured within this window can be eligible.
pub const RECENCY_WINDOW_SECONDS: u64 = 600;

/// One captured lobby snapshot, as the snapshot store holds it.
#[derive(Debug, Clone, PartialEq)]
pub struct LobbySnapshot {
    pub time: u64,
    pub lobby_id: String,
    pub host_user_id: String,
    pub server_name: String,
    pub region: String,
    pub diff: i64,
    pub classes: String,
    pub start: String,
}

/// One row of the mod-membership table: a mod seen on a lobby at a capture
/// time, with the category the game reported then.
#[derive(Debug, Clone, PartialEq)]
pub struct ModSighting {
    pub time: u64,
    pub lobby_id: String,
    pub mod_id: u64,
    pub category: Option<i32>,
}

/// One row of the mod-metadata table: the display name and link the
/// enrichment job found for a mod id, when it has run.
#[derive(Debug, Clone, PartialEq)]
pub struct ModMeta {
    pub mod_id: u64,
    pub name: Option<String>,
    pub url: Option<String>,
}

/// Whether the snapshot was captured within the recency window ending at
/// `now`.
pub open spec fn within_window(s: LobbySnapshot, now: u64) -> bool {
    s.time + RECENCY_WINDOW_SECONDS > now
}

/// Whether the snapshot is the most recent one for its lobby within the
/// window.
pub open spec fn latest_in_window(s: LobbySnapshot, snaps: Seq<LobbySnapshot>, now: u64) -> bool {
    within_window(s, now) && (forall|j: int|
        0 <= j < snaps.len() && (#[trigger] snaps[j]).lobby_id@ == s.lobby_id@ && within_window(
            snaps[j],
            now,
        ) ==> snaps[j].time <= s.time)
}

/// Whether some mod of the snapshot stands on the allowlist.
pub open spec fn has_allowed_mod(s: LobbySnapshot, mems: Seq<ModSighting>, allow: Seq<u64>) -> bool {
    exists|j: int|
        0 <= j < mems.len() && (#[trigger] mems[j]).time == s.time && mems[j].lobby_id@
            == s.lobby_id@ && allow.contains(mems[j].mod_id)
}

/// A sighting of an excluded mod on the given lobby.
pub open spec fn excluded_sighting(m: ModSighting, lobby: Seq<char>, excl: Seq<u64>) -> bool {
    m.lobby_id@ == lobby && excl.contains(m.mod_id)
}

/// Whether the lobby's most recent sighting of an excluded mod is as new as
/// the snapshot: exclusion sticks to that latest sighting, not to the
/// snapshot's own mod set.
pub open spec fn excluded_now(s: LobbySnapshot, mems: Seq<ModSighting>, excl: Seq<u64>) -> bool {
    exists|j: int|
        0 <= j < mems.len() && excluded_sighting(#[trigger] mems[j], s.lobby_id@, excl)
            && mems[j].time == s.time && (forall|k: int|
            0 <= k < mems.len() && excluded_sighting(#[trigger] mems[k], s.lobby_id@, excl)
                ==> mems[k].time <= s.time)
}

/// Whether the snapshot is due for notification.
pub open spec fn eligible(
    s: LobbySnapshot,
    snaps: Seq<LobbySnapshot>,
    mems: Seq<ModSighting>,
    allow: Seq<u64>,
    excl: Seq<u64>,
    now: u64,
) -> bool {
    latest_in_window(s, snaps, now) && has_allowed_mod(s, mems, allow) && !excluded_now(
        s,
        mems,
        excl,
    )
}

/// The mod ids a lobby must carry one of to be mirrored: the configured
/// "interesting" allowlist.
pub fn default_allowlist() -> (r: Vec<u64>)
    ensures
        r@ == seq![
            1861561u64,
            1897251u64,
            1775635u64,
            1137703u64,
            1137738u64,
            1143817u64,
            1729804u64,
            1703369u64,
            1137776u64,
            1727230u64,
            1981468u64,
            1962912u64,
            2093114u64,
        ],
{
    let mut v: Vec<u64> = Vec::new();
    v.push(1861561);
    v.push(1897251);
    v.push(1775635);
    v.push(1137703);
    v.push(1137738);
    v.push(1143817);
    v.push(1729804);
    v.push(1703369);
    v.push(1137776);
    v.push(1727230);
    v.push(1981468);
    v.push(1962912);
    v.push(2093114);
    proof {
        assert(v@ =~= seq![
            1861561u64,
            1897251u64,
            1775635u64,
            1137703u64,
            1137738u64,
            1143817u64,
            1729804u64,
            1703369u64,
            1137776u64,
            1727230u64,
            1981468u64,
            1962912u64,
            2093114u64,
        ]);
    }
    v
}

/// The mod ids whose presence bars a lobby from being mirrored: the
/// configured exclude set.
pub fn default_excludelist() -> (r: Vec<u64>)
    ensures
        r@ == seq![1034411u64, 1034683u64, 1034060u64, 1176984u64, 1159061u64],
{
    let mut v: Vec<u64> = Vec::new();
    v.push(1034411);
    v.push(1034683);
    v.push(1034060);
    v.push(1176984);
    v.push(1159061);
    proof {
        assert(v@ =~= seq![1034411u64, 1034683u64, 1034060u64, 1176984u64, 1159061u64]);
    }
    v
}

/// Whether `x` stands in `v`.
fn vec_contains(v: &Vec<u64>, x: u64) -> (r: bool)
    ensures
        r == v@.contains(x),
{
    let n = v.len();
    let mut i: usize = 0;
    while i < n
        invariant
            0 <= i <= n,
            n == v@.len(),
            forall|m: int| 0 <= m < i ==> v@[m] != x,
        decreases n - i,
    {
        if v[i] == x {
            return true;
        }
        i = i + 1;
    }
    false
}

/// Whether the snapshot's capture time falls within the window ending at
/// `now`.
fn check_within(time: u64, now: u64) -> (r: bool)
    ensures
        r == (time + RECENCY_WINDOW_SECONDS > now),
{
    if time >= now {
        true
    } else {
        now - time < RECENCY_WINDOW_SECONDS
    }
}

/// Decides eligibility for the snapshot at index `i`.
fn is_eligible_at(
    snaps: &Vec<LobbySnapshot>,
    i: usize,
    mems: &Vec<ModSighting>,
    allow: &Vec<u64>,
    excl: &Vec<u64>,
    now: u64,
) -> (r: bool)
    requires
        i < snaps@.len(),
    ensures
        r == eligible(snaps@[i as int], snaps@, mems@, allow@, excl@, now),
{
    let s = &snaps[i];
    if !check_within(s.time, now) {
        return false;
    }
    // most recent for the lobby within the window
    let n = snaps.len();
    let mut j: usize = 0;
    while j < n
        invariant
            0 <= j <= n,
            n == snaps@.len(),
            i < snaps@.len(),
            s == snaps@[i as int],
            forall|m: int|
                0 <= m < j && (#[trigger] snaps@[m]).lobby_id@ == s.lobby_id@ && within_window(
                    snaps@[m],
                    now,
                ) ==> snaps@[m].time <= s.time,
        decreases n - j,
    {
        if snaps[j].lobby_id.eq(&s.lobby_id) && check_within(snaps[j].time, now) && snaps[j].time
            > s.time {
            return false;
        }
        j = j + 1;
    }
    // some mod on the allowlist at this capture
    let mn = mems.len();
    let mut found_allowed = false;
    let mut k: usize = 0;
    while k < mn
        invariant
            0 <= k <= mn,
            mn == mems@.len(),
            i < snaps@.len(),
            s == snaps@[i as int],
            found_allowed == (exists|m: int|
                0 <= m < k && (#[trigger] mems@[m]).time == s.time && mems@[m].lobby_id@
                    == s.lobby_id@ && allow@.contains(mems@[m].mod_id)),
        decreases mn - k,
    {
        if mems[k].time == s.time && mems[k].lobby_id.eq(&s.lobby_id) && vec_contains(
            allow,
            mems[k].mod_id,
        ) {
            found_allowed = true;
        }
        k = k + 1;
    }
    if !found_allowed {
        return false;
    }
    // sticky exclusion: is the latest excluded-mod sighting as new as this
    // snapshot?
    let mut excl_at_time = false;
    let mut excl_later = false;
    let mut q: usize = 0;
    while q < mn
        invariant
            0 <= q <= mn,
            mn == mems@.len(),
            i < snaps@.len(),
            s == snaps@[i as int],
            excl_at_time == (exists|m: int|
                0 <= m < q && excluded_sighting(#[trigger] mems@[m], s.lobby_id@, excl@)
                    && mems@[m].time == s.time),
            excl_later == (exists|m: int|
                0 <= m < q && excluded_sighting(#[trigger] mems@[m], s.lobby_id@, excl@)
                    && mems@[m].time > s.time),
        decreases mn - q,
    {
        if mems[q].lobby_id.eq(&s.lobby_id) && vec_contains(excl, mems[q].mod_id) {
            if mems[q].time == s.time {
                excl_at_time = true;
            }
            if mems[q].time > s.time {
                excl_later = true;
            }
        }
        q = q + 1;
    }
    proof {
        if excl_at_time && !excl_later {
            let w = choose|m: int|
                0 <= m < mn && excluded_sighting(#[trigger] mems@[m], s.lobby_id@, excl@)
                    && mems@[m].time == s.time;
            assert(excluded_sighting(mems@[w], s.lobby_id@, excl@) && mems@[w].time == s.time);
            assert(forall|m: int|
                0 <= m < mems@.len() && excluded_sighting(#[trigger] mems@[m], s.lobby_id@, excl@)
                    ==> mems@[m].time <= s.time);
            assert(excluded_now(snaps@[i as int], mems@, excl@));
        }
        if excluded_now(snaps@[i as int], mems@, excl@) {
            let w = choose|j2: int|
                0 <= j2 < mems@.len() && excluded_sighting(#[trigger] mems@[j2], s.lobby_id@, excl@)
                    && mems@[j2].time == s.time && (forall|k2: int|
                    0 <= k2 < mems@.len() && excluded_sighting(
                        #[trigger] mems@[k2],
                        s.lobby_id@,
                        excl@,
                    ) ==> mems@[k2].time <= s.time);
            assert(excl_at_time);
            assert(!excl_later);
        }
    }
    !(excl_at_time && !excl_later)
}

/// Puts `v` into a sequence while keeping every earlier element.
proof fn lemma_insert_keeps<T>(s: Seq<T>, p: int, v: T, x: T)
    requires
        0 <= p <= s.len(),
        s.contains(x),
    ensures
        s.insert(p, v).contains(x),
{
    let a = choose|a: int| 0 <= a < s.len() && s[a] == x;
    if a < p {
        assert(s.insert(p, v)[a] == x);
    } else {
        assert(s.insert(p, v)[a + 1] == x);
    }
}

/// Selects the indices of the eligible snapshots, each exactly once,
/// ordered by ascending capture time.
pub fn select_eligible(
    snaps: &Vec<LobbySnapshot>,
    mems: &Vec<ModSighting>,
    allow: &Vec<u64>,
    excl: &Vec<u64>,
    now: u64,
) -> (r: Vec<usize>)
    ensures
        forall|a: int|
            0 <= a < r@.len() ==> (#[trigger] r@[a]) < snaps@.len() && eligible(
                snaps@[r@[a] as int],
                snaps@,
                mems@,
                allow@,
                excl@,
                now,
            ),
        forall|i: int|
            0 <= i < snaps@.len() && eligible(#[trigger] snaps@[i], snaps@, mems@, allow@, excl@, now)
                ==> r@.contains(i as usize),
        forall|a: int, b: int| 0 <= a < b < r@.len() ==> r@[a] != r@[b],
        forall|a: int, b: int|
            0 <= a < b < r@.len() ==> snaps@[r@[a] as int].time <= snaps@[r@[b] as int].time,
{
    let n = snaps.len();
    let mut out: Vec<usize> = Vec::new();
    let mut i: usize = 0;
    while i < n
        invariant
            0 <= i <= n,
            n == snaps@.len(),
            forall|a: int|
                0 <= a < out@.len() ==> (#[trigger] out@[a]) < i && eligible(
                    snaps@[out@[a] as int],
                    snaps@,
                    mems@,
                    allow@,
                    excl@,
                    now,
                ),
            forall|q: int|
                0 <= q < i && eligible(#[trigger] snaps@[q], snaps@, mems@, allow@, excl@, now)
                    ==> out@.contains(q as usize),
            forall|a: int, b: int| 0 <= a < b < out@.len() ==> out@[a] != out@[b],
            forall|a: int, b: int|
                0 <= a < b < out@.len() ==> snaps@[out@[a] as int].time
                    <= snaps@[out@[b] as int].time,
        decreases n - i,
    {
        if is_eligible_at(snaps, i, mems, allow, excl, now) {
            let olen = out.len();
            let mut p: usize = 0;
            while p < olen && snaps[out[p]].time <= snaps[i].time
                invariant
                    0 <= p <= olen,
                    olen == out@.len(),
                    i < snaps@.len(),
                    forall|a: int| 0 <= a < out@.len() ==> (#[trigger] out@[a]) < snaps@.len(),
                    forall|m: int|
                        0 <= m < p ==> snaps@[(#[trigger] out@[m]) as int].time
                            <= snaps@[i as int].time,
                decreases olen - p,
            {
                p = p + 1;
            }
            let ghost pre = out@;
            out.insert(p, i);
            proof {
                assert(out@ == pre.insert(p as int, i as usize));
                assert(out@[p as int] == i as usize);
                // every earlier index stays present
                assert forall|q: int|
                    0 <= q < i + 1 && eligible(
                        #[trigger] snaps@[q],
                        snaps@,
                        mems@,
                        allow@,
                        excl@,
                        now,
                    ) implies out@.contains(q as usize) by {
                    if q == i {
                        assert(out@[p as int] == q as usize);
                    } else {
                        lemma_insert_keeps(pre, p as int, i as usize, q as usize);
                    }
                }
                // order holds across the insertion point
                assert forall|a: int, b: int| 0 <= a < b < out@.len() implies snaps@[(
                #[trigger] out@[a]) as int].time <= snaps@[(#[trigger] out@[b]) as int].time by {
                    if a < p && b == p {
                    } else if a == p && b > p {
                        assert(out@[b] == pre[b - 1]);
                        if p < pre.len() {
                            assert(snaps@[pre[p as int] as int].time > snaps@[i as int].time);
                            assert(snaps@[pre[b - 1] as int].time >= snaps@[pre[p as int] as int].time);
                        }
                    } else if a < p && b > p {
                        assert(out@[a] == pre[a] && out@[b] == pre[b - 1]);
                    } else if a > p && b > p {
                        assert(out@[a] == pre[a - 1] && out@[b] == pre[b - 1]);
                    }
                }
            }
        }
        i = i + 1;
    }
    out
}

/// What an allowed-mod sighting looks up to: the metadata row with the
/// sighting's mod id, the first when several share it.
pub open spec fn lookup_meta(tbl: Seq<ModMeta>, id: u64) -> Option<ModMeta>
    decreases tbl.len(),
{
    if tbl.len() == 0 {
        None
    } else if tbl[0].mod_id == id {
        Some(tbl[0])
    } else {
        lookup_meta(tbl.drop_first(), id)
    }
}

/// The mod references of a snapshot: its sightings in table order, each
/// joined with its metadata row; a sighting with no metadata row is left
/// out.
pub open spec fn joined_mods(
    time: u64,
    lobby: Seq<char>,
    mems: Seq<ModSighting>,
    tbl: Seq<ModMeta>,
) -> Seq<ModRef>
    decreases mems.len(),
{
    if mems.len() == 0 {
        Seq::empty()
    } else {
        let rest = joined_mods(time, lobby, mems.drop_last(), tbl);
        let m = mems.last();
        if m.time == time && m.lobby_id@ == lobby && lookup_meta(tbl, m.mod_id) is Some {
            rest.push(
                ModRef {
                    id: m.mod_id,
                    category: m.category,
                    name: lookup_meta(tbl, m.mod_id)->0.name,
                    url: lookup_meta(tbl, m.mod_id)->0.url,
                },
            )
        } else {
            rest
        }
    }
}

/// A scan that passed `k` rows without finding the id fixes the lookup.
proof fn lemma_lookup_meta_first(tbl: Seq<ModMeta>, id: u64, k: int)
    requires
        0 <= k <= tbl.len(),
        forall|m: int| 0 <= m < k ==> (#[trigger] tbl[m]).mod_id != id,
        k == tbl.len() || tbl[k].mod_id == id,
    ensures
        lookup_meta(tbl, id) == (if k == tbl.len() {
            None
        } else {
            Some(tbl[k])
        }),
    decreases tbl.len(),
{
    if tbl.len() == 0 {
    } else if tbl[0].mod_id == id {
        assert(k == 0);
    } else {
        assert(k >= 1);
        assert(forall|m: int|
            0 <= m < k - 1 ==> (#[trigger] tbl.drop_first()[m]) == tbl[m + 1] && tbl[m
                + 1].mod_id != id);
        if k < tbl.len() {
            assert(tbl.drop_first()[k - 1] == tbl[k]);
        }
        lemma_lookup_meta_first(tbl.drop_first(), id, k - 1);
    }
}

/// The metadata row for a mod id, when the table holds one.
fn find_meta<'a>(tbl: &'a Vec<ModMeta>, id: u64) -> (r: Option<&'a ModMeta>)
    ensures
        (match r {
            Some(m) => lookup_meta(tbl@, id) == Some(*m),
            None => lookup_meta(tbl@, id) is None,
        }),
{
    let n = tbl.len();
    let mut i: usize = 0;
    while i < n
        invariant
            0 <= i <= n,
            n == tbl@.len(),
            forall|m: int| 0 <= m < i ==> (#[trigger] tbl@[m]).mod_id != id,
        decreases n - i,
    {
        if tbl[i].mod_id == id {
            proof {
                lemma_lookup_meta_first(tbl@, id, i as int);
            }
            return Some(&tbl[i]);
        }
        i = i + 1;
    }
    proof {
        lemma_lookup_meta_first(tbl@, id, n as int);
    }
    None
}

/// Collects the mod references of the snapshot `s`: every sighting at the
/// snapshot's capture for its lobby, joined with the metadata table.
pub fn mods_for_snapshot(
    s: &LobbySnapshot,
    mems: &Vec<ModSighting>,
    mod_table: &Vec<ModMeta>,
) -> (r: Vec<ModRef>)
    ensures
        r@ == joined_mods(s.time, s.lobby_id@, mems@, mod_table@),
{
    let n = mems.len();
    let mut out: Vec<ModRef> = Vec::new();
    let mut i: usize = 0;
    proof {
        assert(mems@.take(0) =~= Seq::<ModSighting>::empty());
    }
    while i < n
        invariant
            0 <= i <= n,
            n == mems@.len(),
            out@ == joined_mods(s.time, s.lobby_id@, mems@.take(i as int), mod_table@),
        decreases n - i,
    {
        proof {
            assert(mems@.take(i as int + 1).drop_last() =~= mems@.take(i as int));
            assert(mems@.take(i as int + 1).last() == mems@[i as int]);
        }
        if mems[i].time == s.time && mems[i].lobby_id.eq(&s.lobby_id) {
            if let Some(meta) = find_meta(mod_table, mems[i].mod_id) {
                out.push(
                    ModRef {
                        id: mems[i].mod_id,
                        category: mems[i].category,
                        name: clone_opt_string(&meta.name),
                        url: clone_opt_string(&meta.url),
                    },
                );
            }
        }
        i = i + 1;
    }
    proof {
        assert(mems@.take(n as int) =~= mems@);
    }
    out
}

} // verus!
