use vstd::prelude::*;

verus! {

/// The number of lines that the list of high scores keeps.
pub const LINES: usize = 10;

/// One line of the list of high scores.
#[derive(Clone, Debug)]
pub struct ScoreEntry {
    pub score: u32,
    pub name: String,
}

/// The list in which no line has a higher score than the line before it.
pub open spec fn descending(entries: Seq<ScoreEntry>) -> bool {
    forall|i: int, j: int| 0 <= i < j < entries.len() ==> entries[i].score >= entries[j].score
}

/// Where a new line goes into a list: before the first line with a lower
/// score, and so behind every line with the same score.
pub open spec fn place(entries: Seq<ScoreEntry>, score: u32) -> int
    decreases entries.len(),
{
    if entries.len() == 0 || entries[0].score < score {
        0
    } else {
        1 + place(entries.drop_first(), score)
    }
}

/// The lines ordered by score, the highest first; lines with the same score
/// keep their order.
pub open spec fn ranked(entries: Seq<ScoreEntry>) -> Seq<ScoreEntry>
    decreases entries.len(),
{
    if entries.len() == 0 {
        Seq::empty()
    } else {
        let before = ranked(entries.drop_last());
        before.insert(place(before, entries.last().score), entries.last())
    }
}

/// The first [`LINES`] lines of the list.
pub open spec fn top(entries: Seq<ScoreEntry>) -> Seq<ScoreEntry> {
    if entries.len() <= LINES {
        entries
    } else {
        entries.take(LINES as int)
    }
}

/// The place of a new line is within the list, behind lines that score no
/// less and before a line that scores less.
pub proof fn lemma_place(entries: Seq<ScoreEntry>, score: u32)
    ensures
        0 <= place(entries, score) <= entries.len(),
        forall|i: int| 0 <= i < place(entries, score) ==> (#[trigger] entries[i]).score >= score,
        place(entries, score) < entries.len() ==> entries[place(entries, score)].score < score,
    decreases entries.len(),
{
    if entries.len() > 0 && entries[0].score >= score {
        let rest = entries.drop_first();
        lemma_place(rest, score);
        assert forall|i: int| 0 <= i < place(entries, score) implies (#[trigger] entries[i]).score
            >= score by {
            if i > 0 {
                assert(entries[i] == rest[i - 1]);
            }
        }
        if place(entries, score) < entries.len() {
            assert(entries[place(entries, score)] == rest[place(rest, score)]);
        }
    }
}

/// The first line that scores less than `score` is the place of a new line
/// with that score.
pub proof fn lemma_place_is(entries: Seq<ScoreEntry>, score: u32, k: int)
    requires
        0 <= k <= entries.len(),
        forall|i: int| 0 <= i < k ==> (#[trigger] entries[i]).score >= score,
        k < entries.len() ==> entries[k].score < score,
    ensures
        place(entries, score) == k,
    decreases k,
{
    if k > 0 {
        assert(entries[0].score >= score);
        let rest = entries.drop_first();
        assert forall|i: int| 0 <= i < k - 1 implies (#[trigger] rest[i]).score >= score by {
            assert(rest[i] == entries[i + 1]);
        }
        if k < entries.len() {
            assert(rest[k - 1] == entries[k]);
        }
        lemma_place_is(rest, score, k - 1);
    }
}

/// A ranked list is in descending order and holds the lines it was made of,
/// each as often as they were there.
pub proof fn lemma_ranked(entries: Seq<ScoreEntry>)
    ensures
        descending(ranked(entries)),
        ranked(entries).len() == entries.len(),
        ranked(entries).to_multiset() == entries.to_multiset(),
    decreases entries.len(),
{
    if entries.len() == 0 {
        assert(entries =~= Seq::empty());
    } else {
        let rest = entries.drop_last();
        let last = entries.last();
        lemma_ranked(rest);
        let before = ranked(rest);
        let k = place(before, last.score);
        lemma_place(before, last.score);
        let after = before.insert(k, last);
        before.insert_ensures(k, last);
        assert forall|i: int, j: int| 0 <= i < j < after.len() implies after[i].score
            >= after[j].score by {
            if j < k {
                assert(after[i] == before[i] && after[j] == before[j]);
            } else if j == k {
                assert(after[i] == before[i]);
            } else if i < k {
                assert(after[i] == before[i] && after[j] == before[j - 1]);
                if k < j - 1 {
                    assert(before[k].score >= before[j - 1].score);
                }
            } else if i == k {
                assert(after[j] == before[j - 1]);
                if k < j - 1 {
                    assert(before[k].score >= before[j - 1].score);
                }
            } else {
                assert(after[i] == before[i - 1] && after[j] == before[j - 1]);
            }
        }
        assert(entries == rest.push(last));
        assert(after.to_multiset() =~= before.to_multiset().insert(last)) by {
            vstd::seq_lib::to_multiset_insert(before, k, last);
        }
        assert(entries.to_multiset() =~= rest.to_multiset().insert(last)) by {
            vstd::seq_lib::to_multiset_build(rest, last);
        }
    }
}

/// Whether a score earns a line in the list: the list is not yet full, or
/// some line of it scores no more.
pub fn qualifies(previous: &Vec<ScoreEntry>, score: u32) -> (r: bool)
    ensures
        r == (previous@.len() < LINES || exists|i: int|
            0 <= i < previous@.len() && (#[trigger] previous@[i]).score <= score),
{
    if previous.len() < LINES {
        return true;
    }
    let mut i: usize = 0;
    while i < previous.len()
        invariant
            i <= previous.len(),
            forall|j: int| 0 <= j < i ==> (#[trigger] previous@[j]).score > score,
        decreases previous.len() - i,
    {
        if previous[i].score <= score {
            return true;
        }
        i += 1;
    }
    false
}

/// Puts a line into a list at its place.
fn insert(entries: &mut Vec<ScoreEntry>, entry: ScoreEntry)
    ensures
        final(entries)@ == old(entries)@.insert(
            place(old(entries)@, entry.score),
            entry,
        ),
{
    let mut k: usize = 0;
    while k < entries.len() && entries[k].score >= entry.score
        invariant
            k <= entries.len(),
            *entries == *old(entries),
            forall|i: int| 0 <= i < k ==> (#[trigger] entries@[i]).score >= entry.score,
        decreases entries.len() - k,
    {
        k += 1;
    }
    proof {
        lemma_place_is(entries@, entry.score, k as int);
    }
    entries.insert(k, entry);
}

/// The list of high scores with one more line: the lines of `previous` and
/// `entry`, ordered by score with the highest first, lines of the same score
/// in their old order and the new one behind them; of these the first
/// [`LINES`].
pub fn record(previous: Vec<ScoreEntry>, entry: ScoreEntry) -> (r: Vec<ScoreEntry>)
    ensures
        r@ == top(ranked(previous@.push(entry))),
{
    let ghost all = previous@.push(entry);
    let mut out: Vec<ScoreEntry> = Vec::new();
    for e in it: previous.into_iter()
        invariant
            all == it.seq().push(entry),
            out@ == ranked(all.take(it.index() as int)),
    {
        let ghost k = it.index() as int;
        assert(all.take(k + 1).drop_last() == all.take(k));
        assert(all.take(k + 1).last() == e);
        insert(&mut out, e);
    }
    assert(all.take(all.len() - 1) == all.drop_last());
    assert(all.last() == entry);
    insert(&mut out, entry);
    if out.len() > LINES {
        out.truncate(LINES);
    }
    out
}

} // verus!
