//! Picking the day's item: the first candidate whose key is not yet in the
//! history, within a budget of attempts, else a repeat.

use vstd::prelude::*;
use crate::history::{has_key, HistoryRecord, HistoryStore};

verus! {

/// The budget of attempts the daily job uses.
pub const MAX_ATTEMPTS: u32 = 5;

/// An item offered by the catalog.
#[derive(Debug, Clone)]
pub struct CandidateItem {
    pub id: Option<String>,
    pub secondary_id: Option<String>,
    pub label: String,
}

/// `o` holds a text with at least one character.
pub open spec fn filled(o: Option<String>) -> bool {
    o matches Some(s) && s@.len() > 0
}

/// The key an item is remembered by: its identifier, else its secondary
/// identifier, else its label; the first that is not empty wins.
pub open spec fn dedup_key_spec(c: CandidateItem) -> Seq<char> {
    if filled(c.id) {
        c.id->0@
    } else if filled(c.secondary_id) {
        c.secondary_id->0@
    } else {
        c.label@
    }
}

/// The key an item is remembered by.
pub fn dedup_key(item: &CandidateItem) -> (r: String)
    ensures
        r@ == dedup_key_spec(*item),
        item.label@.len() > 0 ==> r@.len() > 0,
{
    match &item.id {
        Some(s) => {
            if s.as_str().unicode_len() > 0 {
                return s.clone();
            }
        },
        None => {},
    }
    match &item.secondary_id {
        Some(s) => {
            if s.as_str().unicode_len() > 0 {
                return s.clone();
            }
        },
        None => {},
    }
    item.label.clone()
}

/// What to do with an examined candidate.
#[derive(Debug, Clone, Copy, PartialEq, Eq, Structural)]
pub enum Step {
    /// Announce it; `repeat` says it was announced before.
    Take { repeat: bool },
    /// Ask the catalog for another.
    Retry,
    /// The catalog gave nothing: this cycle produces no output.
    Stop,
}

/// The decision after `attempts` seen candidates, on what the catalog gave
/// next: `None` for nothing or a failure, else whether the candidate's key is
/// in the history.
pub open spec fn step_spec(attempts: nat, max_attempts: nat, candidate: Option<bool>) -> Step {
    let seen = candidate->0;
    if candidate is None {
        Step::Stop
    } else if !seen {
        Step::Take { repeat: false }
    } else if attempts + 1 >= max_attempts {
        Step::Take { repeat: true }
    } else {
        Step::Retry
    }
}

/// The state of one selection: how many seen candidates were turned down.
#[derive(Debug, Clone, Copy)]
pub struct DedupSelector {
    pub attempts: u32,
    pub max_attempts: u32,
}

impl DedupSelector {
    /// A selection that may examine up to `max_attempts` candidates.
    pub fn new(max_attempts: u32) -> (r: DedupSelector)
        ensures
            r.attempts == 0,
            r.max_attempts == max_attempts,
    {
        DedupSelector { attempts: 0, max_attempts }
    }

    /// Whether another candidate may be examined.
    pub fn wants_candidate(&self) -> (r: bool)
        ensures
            r == (self.attempts < self.max_attempts),
    {
        self.attempts < self.max_attempts
    }

    /// Decides on what the catalog gave: `None` where it gave nothing, else
    /// whether the candidate's key is in the history.
    pub fn offer(&mut self, candidate: Option<bool>) -> (r: Step)
        requires
            old(self).attempts < old(self).max_attempts,
        ensures
            r == step_spec(old(self).attempts as nat, old(self).max_attempts as nat, candidate),
            final(self).max_attempts == old(self).max_attempts,
            final(self).attempts == if candidate == Some(true) {
                old(self).attempts + 1
            } else {
                old(self).attempts as int
            },
    {
        let seen = match candidate {
            Some(s) => s,
            None => return Step::Stop,
        };
        if !seen {
            return Step::Take { repeat: false };
        }
        self.attempts = self.attempts + 1;
        if self.attempts >= self.max_attempts {
            Step::Take { repeat: true }
        } else {
            Step::Retry
        }
    }
}

/// The keys of a sequence of candidates.
pub open spec fn keys_of(cands: Seq<CandidateItem>) -> Seq<Seq<char>> {
    cands.map_values(|c: CandidateItem| dedup_key_spec(c))
}

/// The outcome of a selection over `keys` from position `i` on: the position
/// chosen and whether it is a repeat, or `None` when the candidates run out
/// first.
pub open spec fn pick_from(keys: Seq<Seq<char>>, rows: Seq<HistoryRecord>, max: nat, i: nat) -> Option<
    (nat, bool),
>
    decreases keys.len() - i,
{
    if i >= keys.len() || i >= max {
        None
    } else if !has_key(rows, keys[i as int]) {
        Some((i, false))
    } else if i + 1 >= max {
        Some((i, true))
    } else {
        pick_from(keys, rows, max, i + 1)
    }
}

/// The chosen candidate.
#[derive(Debug, Clone)]
pub struct Selection {
    pub index: usize,
    pub key: String,
    pub is_repeat: bool,
}

/// Runs a selection over the candidates the catalog returned, in order. `None`
/// means the catalog ran out before a decision.
pub fn select_unseen(candidates: &Vec<CandidateItem>, history: &HistoryStore, max_attempts: u32) -> (r:
    Option<Selection>)
    ensures
        match pick_from(keys_of(candidates@), history.rows(), max_attempts as nat, 0) {
            None => r is None,
            Some(p) => r matches Some(s) && s.index == p.0 && s.is_repeat == p.1 && s.key@
                == dedup_key_spec(candidates@[p.0 as int]),
        },
{
    let ghost keys = keys_of(candidates@);
    let mut sel = DedupSelector::new(max_attempts);
    let mut i: usize = 0;
    while sel.wants_candidate() && i < candidates.len()
        invariant
            sel.attempts == i,
            sel.max_attempts == max_attempts,
            i <= candidates@.len(),
            keys.len() == candidates@.len(),
            keys == keys_of(candidates@),
            pick_from(keys, history.rows(), max_attempts as nat, 0) == pick_from(
                keys,
                history.rows(),
                max_attempts as nat,
                i as nat,
            ),
        decreases candidates@.len() - i,
    {
        let key = dedup_key(&candidates[i]);
        assert(keys[i as int] == dedup_key_spec(candidates@[i as int]));
        let seen = history.contains_key(key.as_str());
        match sel.offer(Some(seen)) {
            Step::Take { repeat } => {
                return Some(Selection { index: i, key, is_repeat: repeat });
            },
            Step::Retry => {},
            Step::Stop => {
                return None;
            },
        }
        i = i + 1;
    }
    None
}

/// When some candidate within the budget is new, the first new one is chosen,
/// and not as a repeat.
pub proof fn law_first_unseen_wins(
    keys: Seq<Seq<char>>,
    rows: Seq<HistoryRecord>,
    max: nat,
    j: nat,
)
    requires
        j < keys.len(),
        j < max,
        !has_key(rows, keys[j as int]),
        forall|k: int| 0 <= k < j ==> has_key(rows, #[trigger] keys[k]),
    ensures
        pick_from(keys, rows, max, 0) == Some((j, false)),
{
    lemma_pick_skips(keys, rows, max, 0, j);
}

/// From position `i` to `j`, every candidate seen and the budget not yet spent:
/// the selection goes on to `j`.
proof fn lemma_pick_skips(keys: Seq<Seq<char>>, rows: Seq<HistoryRecord>, max: nat, i: nat, j: nat)
    requires
        i <= j < keys.len(),
        j < max,
        forall|k: int| i <= k < j ==> has_key(rows, #[trigger] keys[k]),
    ensures
        pick_from(keys, rows, max, i) == pick_from(keys, rows, max, j),
    decreases j - i,
{
    if i < j {
        assert(has_key(rows, keys[i as int]));
        lemma_pick_skips(keys, rows, max, i + 1, j);
    }
}

/// When every candidate within the budget is already in the history, the
/// candidate examined last, at position `max - 1`, is chosen as a repeat; and
/// no selection ever goes past the budget.
pub proof fn law_all_seen_repeats_last(keys: Seq<Seq<char>>, rows: Seq<HistoryRecord>, max: nat)
    requires
        1 <= max <= keys.len(),
        forall|k: int| 0 <= k < max ==> has_key(rows, #[trigger] keys[k]),
    ensures
        pick_from(keys, rows, max, 0) == Some(((max - 1) as nat, true)),
{
    lemma_pick_skips(keys, rows, max, 0, (max - 1) as nat);
    assert(has_key(rows, keys[max - 1]));
}

/// A selection never chooses a position beyond the budget.
pub proof fn law_within_budget(keys: Seq<Seq<char>>, rows: Seq<HistoryRecord>, max: nat, i: nat)
    ensures
        pick_from(keys, rows, max, i) matches Some(p) ==> i <= p.0 < max && p.0 < keys.len(),
    decreases keys.len() - i,
{
    if i < keys.len() && i < max && has_key(rows, keys[i as int]) && i + 1 < max {
        law_within_budget(keys, rows, max, i + 1);
    }
}

} // verus!
