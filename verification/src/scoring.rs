//! Scoring building blocks: the per-word penalty, a small accumulator map
//! from player id to signed score, and a descending sort of the final score
//! list.

use vstd::prelude::*;

use crate::strutil::{ascii_upper, char_allowed, spec_ascii_upper, spec_char_allowed};
use crate::types::{PlayerId, PlayerName, Submission};

verus! {

/// The character views of a submitted word list.
pub open spec fn spec_words(sub: Seq<String>) -> Seq<Seq<char>> {
    sub.map_values(|w: String| w@)
}

/// A word draws a penalty when it has no letter of the acronym left to
/// stand for, is empty, does not start with its acronym letter (ASCII
/// case-insensitively), or contains a disallowed character.
pub open spec fn spec_word_flawed(word: Seq<char>, i: int, acronym: Seq<char>) -> bool {
    i >= acronym.len() || word.len() == 0 || spec_ascii_upper(word[0]) != spec_ascii_upper(
        acronym[i],
    ) || exists|j: int| 0 <= j < word.len() && !spec_char_allowed(word[j])
}

/// Number of flawed words among the first `n` of a submission.
pub open spec fn spec_flaw_count(words: Seq<Seq<char>>, acronym: Seq<char>, n: int) -> int
    decreases n,
{
    if n <= 0 {
        0
    } else {
        spec_flaw_count(words, acronym, n - 1) + if spec_word_flawed(words[n - 1], n - 1, acronym) {
            1int
        } else {
            0int
        }
    }
}

/// The (non-positive) penalty a submission draws against an acronym: minus
/// one point per flawed word.
pub open spec fn spec_penalty(words: Seq<Seq<char>>, acronym: Seq<char>) -> int {
    -spec_flaw_count(words, acronym, words.len() as int)
}

proof fn lemma_flaw_count_bounds(words: Seq<Seq<char>>, acronym: Seq<char>, n: int)
    requires
        n >= 0,
    ensures
        0 <= spec_flaw_count(words, acronym, n) <= n,
    decreases n,
{
    if n > 0 {
        lemma_flaw_count_bounds(words, acronym, n - 1);
    }
}

fn word_flawed(word: &String, i: usize, acronym: &str) -> (r: bool)
    ensures
        r == spec_word_flawed(word@, i as int, acronym@),
{
    let alen = acronym.unicode_len();
    if i >= alen {
        return true;
    }
    let w = word.as_str();
    let wlen = w.unicode_len();
    if wlen == 0 {
        return true;
    }
    if ascii_upper(w.get_char(0)) != ascii_upper(acronym.get_char(i)) {
        return true;
    }
    let mut j: usize = 0;
    while j < wlen
        invariant
            wlen == w@.len(),
            w@ == word@,
            j <= wlen,
            forall|t: int| 0 <= t < j ==> spec_char_allowed(#[trigger] w@[t]),
        decreases wlen - j,
    {
        if !char_allowed(w.get_char(j)) {
            return true;
        }
        j += 1;
    }
    false
}

/// Points deducted from a round winner's award: minus one per word that is
/// missing, empty, starts with the wrong letter, or holds a disallowed
/// character.
pub fn submission_penalty(submission: &Submission, acronym: &str) -> (r: i64)
    requires
        submission@.len() <= 0x7fff_ffff_ffff_ffff,
    ensures
        r == spec_penalty(spec_words(submission@), acronym@),
        -(submission@.len() as int) <= r <= 0,
{
    let n = submission.len();
    let mut flaws: i64 = 0;
    let mut i: usize = 0;
    while i < n
        invariant
            n == submission@.len(),
            n <= 0x7fff_ffff_ffff_ffff,
            i <= n,
            flaws == spec_flaw_count(spec_words(submission@), acronym@, i as int),
            0 <= flaws <= i,
        decreases n - i,
    {
        if word_flawed(&submission[i], i, acronym) {
            flaws += 1;
        }
        i += 1;
    }
    proof {
        lemma_flaw_count_bounds(spec_words(submission@), acronym@, n as int);
    }
    -flaws
}


/// A penalty is never positive and never exceeds the word count.
pub proof fn lemma_penalty_range(words: Seq<Seq<char>>, acronym: Seq<char>)
    ensures
        -(words.len() as int) <= spec_penalty(words, acronym) <= 0,
{
    lemma_flaw_count_bounds(words, acronym, words.len() as int);
}

/// Whether an accumulator map holds an entry for a player id.
pub open spec fn spec_has_key(m: Seq<(PlayerId, i64)>, id: Seq<char>) -> bool {
    exists|i: int| 0 <= i < m.len() && m[i].0@ == id
}

/// No player id appears twice in an accumulator map.
pub open spec fn spec_keys_distinct(m: Seq<(PlayerId, i64)>) -> bool {
    forall|i: int, j: int| 0 <= i < j < m.len() ==> m[i].0@ != m[j].0@
}

/// The score an accumulator map holds for a player id; zero when absent.
pub open spec fn spec_lookup(m: Seq<(PlayerId, i64)>, id: Seq<char>) -> int {
    if spec_has_key(m, id) {
        let i = choose|i: int| 0 <= i < m.len() && m[i].0@ == id;
        m[i].1 as int
    } else {
        0
    }
}

/// Adds `amount` to the player's running score, creating the entry at zero
/// first if the player has none yet.  Other players' scores are untouched.
pub fn insert_or_add(map: &mut Vec<(PlayerId, i64)>, key: PlayerId, amount: i64)
    requires
        spec_keys_distinct(old(map)@),
        i64::MIN <= spec_lookup(old(map)@, key@) + amount <= i64::MAX,
    ensures
        spec_keys_distinct(final(map)@),
        spec_lookup(final(map)@, key@) == spec_lookup(old(map)@, key@) + amount,
        forall|id: Seq<char>| id != key@ ==> spec_lookup(final(map)@, id) == spec_lookup(
            old(map)@,
            id,
        ),
        final(map)@.len() <= old(map)@.len() + 1,
    {
    let n = map.len();
    let mut i: usize = 0;
    while i < n
        invariant
            *map == *old(map),
            spec_keys_distinct(map@),
            i64::MIN <= spec_lookup(map@, key@) + amount <= i64::MAX,
            n == map@.len(),
            i <= n,
            forall|k: int| 0 <= k < i ==> map@[k].0@ != key@,
        decreases n - i,
    {
        if map[i].0 == key {
            proof {
                let j = choose|j: int| 0 <= j < map@.len() && map@[j].0@ == key@;
                assert(j == i);
            }
            let updated = map[i].1 + amount;
            let name = map.remove(i);
            map.insert(i, (name.0, updated));
            proof {
                assert(map@ =~= old(map)@.update(i as int, (old(map)@[i as int].0, updated)));
                lemma_lookup_update(old(map)@, map@, i as int, key@, amount);
            }
            return ;
        }
        i += 1;
    }
    map.push((key, amount));
    proof {
        lemma_lookup_push(old(map)@, map@, key@, amount);
    }
}

/// Updating the value at the (unique) index of `key` changes only that
/// key's lookup.
proof fn lemma_lookup_update(
    m0: Seq<(PlayerId, i64)>,
    m1: Seq<(PlayerId, i64)>,
    i: int,
    key: Seq<char>,
    amount: i64,
)
    requires
        spec_keys_distinct(m0),
        0 <= i < m0.len(),
        m0[i].0@ == key,
        m1.len() == m0.len(),
        m1[i].0@ == key,
        m1[i].1 == m0[i].1 + amount,
        forall|k: int| 0 <= k < m0.len() && k != i ==> m1[k] == m0[k],
    ensures
        spec_keys_distinct(m1),
        spec_lookup(m1, key) == spec_lookup(m0, key) + amount,
        forall|id: Seq<char>| id != key ==> spec_lookup(m1, id) == spec_lookup(m0, id),
{
    assert(forall|k: int| 0 <= k < m1.len() ==> m1[k].0@ == #[trigger] m0[k].0@);
    assert(spec_keys_distinct(m1));
    let j0 = choose|j: int| 0 <= j < m0.len() && m0[j].0@ == key;
    assert(j0 == i);
    let j1 = choose|j: int| 0 <= j < m1.len() && m1[j].0@ == key;
    assert(j1 == i);
    assert forall|id: Seq<char>| id != key implies spec_lookup(m1, id) == spec_lookup(m0, id) by {
        if spec_has_key(m0, id) {
            let k0 = choose|k: int| 0 <= k < m0.len() && m0[k].0@ == id;
            assert(k0 != i);
            assert(m1[k0].0@ == id);
            assert(spec_has_key(m1, id));
            let k1 = choose|k: int| 0 <= k < m1.len() && m1[k].0@ == id;
            assert(k1 == k0);
        } else {
            assert(!spec_has_key(m1, id));
        }
    }
}

/// Appending a fresh key gives it the added amount and leaves every other
/// key's lookup unchanged.
proof fn lemma_lookup_push(
    m0: Seq<(PlayerId, i64)>,
    m1: Seq<(PlayerId, i64)>,
    key: Seq<char>,
    amount: i64,
)
    requires
        spec_keys_distinct(m0),
        !spec_has_key(m0, key),
        m1.len() == m0.len() + 1,
        m1.last().0@ == key,
        m1.last().1 == amount,
        forall|k: int| 0 <= k < m0.len() ==> m1[k] == m0[k],
    ensures
        spec_keys_distinct(m1),
        spec_lookup(m1, key) == spec_lookup(m0, key) + amount,
        forall|id: Seq<char>| id != key ==> spec_lookup(m1, id) == spec_lookup(m0, id),
{
    assert(forall|k: int| 0 <= k < m0.len() ==> m1[k].0@ == #[trigger] m0[k].0@);
    assert(spec_keys_distinct(m1));
    assert(m1[m0.len() as int].0@ == key);
    assert(spec_has_key(m1, key));
    let j = choose|j: int| 0 <= j < m1.len() && m1[j].0@ == key;
    assert(j == m0.len());
    assert(spec_lookup(m0, key) == 0);
    assert forall|id: Seq<char>| id != key implies spec_lookup(m1, id) == spec_lookup(m0, id) by {
        if spec_has_key(m0, id) {
            let k0 = choose|k: int| 0 <= k < m0.len() && m0[k].0@ == id;
            assert(m1[k0].0@ == id);
            let k1 = choose|k: int| 0 <= k < m1.len() && m1[k].0@ == id;
            assert(k1 == k0);
        } else {
            assert(!spec_has_key(m1, id));
        }
    }
}


/// Reads a player's accumulated score; zero when the player has no entry.
pub fn lookup_score(map: &Vec<(PlayerId, i64)>, id: &PlayerId) -> (r: i64)
    requires
        spec_keys_distinct(map@),
    ensures
        r as int == spec_lookup(map@, id@),
{
    let n = map.len();
    let mut i: usize = 0;
    while i < n
        invariant
            spec_keys_distinct(map@),
            n == map@.len(),
            i <= n,
            forall|k: int| 0 <= k < i ==> map@[k].0@ != id@,
        decreases n - i,
    {
        if map[i].0 == *id {
            proof {
                let j = choose|j: int| 0 <= j < map@.len() && map@[j].0@ == id@;
                assert(j == i);
            }
            return map[i].1;
        }
        i += 1;
    }
    0
}

/// The pair views of a score list: the name's characters and the score.
pub open spec fn spec_entries(s: Seq<(PlayerName, i64)>) -> Seq<(Seq<char>, int)> {
    s.map_values(|e: (PlayerName, i64)| (e.0@, e.1 as int))
}

/// Scores are in non-increasing order.
pub open spec fn spec_sorted_desc(s: Seq<(PlayerName, i64)>) -> bool {
    forall|a: int, b: int| 0 <= a < b < s.len() ==> s[a].1 >= s[b].1
}

/// Sorts a score list by score, highest first, keeping exactly the same
/// entries.
pub fn sort_scores_desc(v: &mut Vec<(PlayerName, i64)>)
    ensures
        final(v)@.len() == old(v)@.len(),
        spec_sorted_desc(final(v)@),
        spec_entries(final(v)@).to_multiset() == spec_entries(old(v)@).to_multiset(),
{
    let n = v.len();
    if n < 2 {
        return ;
    }
    let mut i: usize = 1;
    while i < n
        invariant
            n == v@.len(),
            1 <= i <= n,
            forall|a: int, b: int| 0 <= a < b < i ==> v@[a].1 >= v@[b].1,
            spec_entries(v@).to_multiset() == spec_entries(old(v)@).to_multiset(),
        decreases n - i,
    {
        let mut j: usize = i;
        while j > 0 && v[j - 1].1 < v[j].1
            invariant
                n == v@.len(),
                0 <= j <= i < n,
                forall|a: int, b: int| 0 <= a < b <= i && b != j ==> v@[a].1 >= v@[b].1,
                spec_entries(v@).to_multiset() == spec_entries(old(v)@).to_multiset(),
            decreases j,
        {
            proof {
                lemma_entries_swap(v@, j - 1, j as int);
            }
            crate::random::vec_swap(v, j - 1, j);
            j -= 1;
        }
        i += 1;
    }
}

/// Exchanging two positions leaves the entry multiset unchanged.
proof fn lemma_entries_swap(s: Seq<(PlayerName, i64)>, i: int, j: int)
    requires
        0 <= i < s.len(),
        0 <= j < s.len(),
    ensures
        spec_entries(s.update(i, s[j]).update(j, s[i])).to_multiset() == spec_entries(
            s,
        ).to_multiset(),
{
    broadcast use vstd::seq_lib::to_multiset_update;
    broadcast use vstd::seq_lib::group_to_multiset_ensures;

    let e = spec_entries(s);
    let e2 = spec_entries(s.update(i, s[j]).update(j, s[i]));
    if i == j {
        assert(e2 =~= e);
    } else {
        assert(e2 =~= e.update(i, e[j]).update(j, e[i]));
        assert(e.update(i, e[j])[j] == e[j]);
        assert(e.update(i, e[j]).to_multiset() == e.to_multiset().insert(e[j]).remove(e[i]));
        assert(e.update(i, e[j]).update(j, e[i]).to_multiset() == e.update(i, e[j]).to_multiset().insert(
            e[i],
        ).remove(e[j]));
        assert(e2.to_multiset() =~= e.to_multiset());
    }
}

} // verus!
