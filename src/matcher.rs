use vstd::prelude::*;
use crate::snippet::Snippet;
use crate::text::chars_of;

verus! {

/// `t` is a suffix of `buf`.
pub open spec fn ends_with(buf: Seq<char>, t: Seq<char>) -> bool {
    t.len() <= buf.len() && buf.subrange(buf.len() - t.len(), buf.len() as int) == t
}

/// Some trigger is a suffix of a non-empty buffer.
pub open spec fn has_match(buf: Seq<char>, triggers: Seq<Seq<char>>) -> bool {
    buf.len() > 0 && exists|i: int| 0 <= i < triggers.len() && ends_with(buf, #[trigger] triggers[i])
}

/// Trigger `i` is the one that fires for `buf`: a suffix of it, no shorter than
/// any other suffix trigger, and the first in store order among the longest.
pub open spec fn is_best_match(buf: Seq<char>, triggers: Seq<Seq<char>>, i: int) -> bool {
    &&& buf.len() > 0
    &&& 0 <= i < triggers.len()
    &&& ends_with(buf, triggers[i])
    &&& forall|j: int|
        0 <= j < triggers.len() && ends_with(buf, #[trigger] triggers[j]) ==> triggers[j].len()
            <= triggers[i].len()
    &&& forall|j: int|
        0 <= j < i && ends_with(buf, #[trigger] triggers[j]) ==> triggers[j].len()
            < triggers[i].len()
}

/// The index of the trigger that fires for `buf`, if any.
pub open spec fn best_match(buf: Seq<char>, triggers: Seq<Seq<char>>) -> Option<int> {
    if exists|i: int| is_best_match(buf, triggers, i) {
        Some(choose|i: int| is_best_match(buf, triggers, i))
    } else {
        None
    }
}

/// At most one index is the best match.
pub proof fn lemma_best_match_unique(buf: Seq<char>, triggers: Seq<Seq<char>>, i: int, k: int)
    requires
        is_best_match(buf, triggers, i),
        is_best_match(buf, triggers, k),
    ensures
        i == k,
{
    if i < k {
        assert(triggers[i].len() < triggers[k].len());
        assert(triggers[k].len() <= triggers[i].len());
    } else if k < i {
        assert(triggers[k].len() < triggers[i].len());
        assert(triggers[i].len() <= triggers[k].len());
    }
}

/// An optional position, as a mathematical integer.
pub open spec fn as_index(r: Option<usize>) -> Option<int> {
    match r {
        Some(i) => Some(i as int),
        None => None,
    }
}

/// A best match exists exactly when some trigger matches.
pub proof fn lemma_best_match_exists(buf: Seq<char>, triggers: Seq<Seq<char>>)
    ensures
        (best_match(buf, triggers) is Some) == has_match(buf, triggers),
        best_match(buf, triggers) is Some ==> is_best_match(
            buf,
            triggers,
            best_match(buf, triggers)->0,
        ),
{
    if has_match(buf, triggers) {
        let w = choose|i: int| 0 <= i < triggers.len() && ends_with(buf, #[trigger] triggers[i]);
        let b = best_index_upto(buf, triggers, triggers.len() as int);
        lemma_best_index_upto(buf, triggers, triggers.len() as int);
        assert(is_best_match(buf, triggers, b));
    }
}

/// Index of the first longest suffix trigger among the first `n`, or -1.
pub open spec fn best_index_upto(buf: Seq<char>, triggers: Seq<Seq<char>>, n: int) -> int
    decreases n,
{
    if n <= 0 {
        -1
    } else {
        let b = best_index_upto(buf, triggers, n - 1);
        if buf.len() > 0 && ends_with(buf, triggers[n - 1]) && (b < 0 || triggers[b].len()
            < triggers[n - 1].len()) {
            n - 1
        } else {
            b
        }
    }
}

proof fn lemma_best_index_upto(buf: Seq<char>, triggers: Seq<Seq<char>>, n: int)
    requires
        0 <= n <= triggers.len(),
    ensures
        ({
            let b = best_index_upto(buf, triggers, n);
            &&& -1 <= b < n
            &&& b >= 0 ==> buf.len() > 0 && ends_with(buf, triggers[b])
            &&& forall|j: int|
                0 <= j < n && buf.len() > 0 && ends_with(buf, #[trigger] triggers[j]) ==> b >= 0
            &&& b >= 0 ==> forall|j: int|
                0 <= j < n && ends_with(buf, #[trigger] triggers[j]) ==> triggers[j].len()
                    <= triggers[b].len()
            &&& b >= 0 ==> forall|j: int|
                0 <= j < b && ends_with(buf, #[trigger] triggers[j]) ==> triggers[j].len()
                    < triggers[b].len()
        }),
    decreases n,
{
    if n > 0 {
        lemma_best_index_upto(buf, triggers, n - 1);
        let p = best_index_upto(buf, triggers, n - 1);
        let b = best_index_upto(buf, triggers, n);
        if b >= 0 {
            assert forall|j: int|
                0 <= j < n && ends_with(buf, #[trigger] triggers[j]) implies triggers[j].len()
                    <= triggers[b].len() by {
                if j < n - 1 {
                    assert(p >= 0);
                }
            }
            assert forall|j: int|
                0 <= j < b && ends_with(buf, #[trigger] triggers[j]) implies triggers[j].len()
                    < triggers[b].len() by {
                if b == n - 1 {
                    assert(p >= 0);
                    assert(triggers[j].len() <= triggers[p].len());
                }
            }
        }
    }
}

/// The position of the trigger that fires for `buffer`: among the triggers
/// that are a suffix of a non-empty buffer, the longest, and among equally long
/// ones the first.
pub fn longest_match(buffer: &Vec<char>, triggers: &Vec<Vec<char>>) -> (r: Option<usize>)
    ensures
        r matches Some(i) ==> is_best_match(buffer@, triggers@.map_values(|t: Vec<char>| t@), i as int),
        r is None <==> !has_match(buffer@, triggers@.map_values(|t: Vec<char>| t@)),
        as_index(r) == best_match(buffer@, triggers@.map_values(|t: Vec<char>| t@)),
{
    let ghost ts = triggers@.map_values(|t: Vec<char>| t@);
    if buffer.len() == 0 {
        proof { lemma_best_match_exists(buffer@, ts); }
        return None;
    }
    let mut best: Option<usize> = None;
    let mut i: usize = 0;
    while i < triggers.len()
        invariant
            buffer@.len() > 0,
            ts == triggers@.map_values(|t: Vec<char>| t@),
            i <= triggers@.len(),
            best matches Some(b) ==> (b as int) == best_index_upto(buffer@, ts, i as int),
            best is None ==> best_index_upto(buffer@, ts, i as int) == -1,
        decreases triggers@.len() - i,
    {
        proof { lemma_best_index_upto(buffer@, ts, i as int); }
        let hit = suffix_of(buffer, &triggers[i]);
        let longer = match best {
            None => true,
            Some(b) => triggers[b].len() < triggers[i].len(),
        };
        if hit && longer {
            best = Some(i);
        }
        i = i + 1;
    }
    proof {
        lemma_best_match_exists(buffer@, ts);
        match best {
            Some(b) => {
                lemma_best_index_upto(buffer@, ts, ts.len() as int);
                assert(is_best_match(buffer@, ts, b as int));
                lemma_best_match_unique(buffer@, ts, b as int, best_match(buffer@, ts)->0);
            },
            None => {
                if has_match(buffer@, ts) {
                    let w = choose|j: int| 0 <= j < ts.len() && ends_with(buffer@, #[trigger] ts[j]);
                    lemma_best_index_upto(buffer@, ts, ts.len() as int);
                }
            },
        }
    }
    best
}

/// Whether `t` is a suffix of `buf`.
pub fn suffix_of(buf: &Vec<char>, t: &Vec<char>) -> (r: bool)
    ensures
        r == ends_with(buf@, t@),
{
    if t.len() > buf.len() {
        return false;
    }
    let n: usize = buf.len();
    let off = n - t.len();
    let mut k: usize = 0;
    while k < t.len()
        invariant
            t@.len() <= buf@.len(),
            off == buf@.len() - t@.len(),
            k <= t@.len(),
            n == buf@.len(),
            off + t@.len() == n,
            forall|m: int| 0 <= m < k ==> buf@[off + m] == t@[m],
        decreases t@.len() - k,
    {
        if buf[off + k] != t[k] {
            assert(buf@.subrange(off as int, buf@.len() as int)[k as int] != t@[k as int]);
            return false;
        }
        k = k + 1;
    }
    assert(buf@.subrange(off as int, buf@.len() as int) =~= t@);
    true
}

/// The triggers of a list of snippets, in order.
pub open spec fn triggers_of(snippets: Seq<Snippet>) -> Seq<Seq<char>> {
    snippets.map_values(|s: Snippet| s.trigger@)
}

/// The position of the snippet whose trigger fires for `buffer`: the longest
/// trigger that is a suffix of the non-empty buffer, the first in store order
/// among equally long ones.
pub fn find_replacement(buffer: &Vec<char>, snippets: &Vec<Snippet>) -> (r: Option<usize>)
    ensures
        as_index(r) == best_match(buffer@, triggers_of(snippets@)),
        r is None <==> !has_match(buffer@, triggers_of(snippets@)),
{
    let mut triggers: Vec<Vec<char>> = Vec::new();
    let mut i: usize = 0;
    while i < snippets.len()
        invariant
            i <= snippets@.len(),
            triggers@.len() == i,
            forall|j: int| 0 <= j < i ==> #[trigger] triggers@[j]@ == snippets@[j].trigger@,
        decreases snippets@.len() - i,
    {
        triggers.push(chars_of(snippets[i].trigger.as_str()));
        i = i + 1;
    }
    assert(triggers@.map_values(|t: Vec<char>| t@) =~= triggers_of(snippets@));
    longest_match(buffer, &triggers)
}

} // verus!
