use vstd::prelude::*;

verus! {

/// The first failure of the list, if it holds any.
pub open spec fn first_failure<E>(results: Seq<Result<(), E>>) -> Result<(), E>
    decreases results.len(),
{
    if results.len() == 0 {
        Ok(())
    } else if results[0] is Err {
        results[0]
    } else {
        first_failure(results.drop_first())
    }
}

/// Where every entry before `k` is a success, the first failure is the entry
/// at `k` if that is one, and there is none if `k` is the end of the list.
pub proof fn lemma_first_failure<E>(results: Seq<Result<(), E>>, k: int)
    requires
        0 <= k <= results.len(),
        forall|j: int| 0 <= j < k ==> (#[trigger] results[j]) is Ok,
    ensures
        k < results.len() && results[k] is Err ==> first_failure(results) == results[k],
        k == results.len() ==> first_failure(results) == Ok::<(), E>(()),
    decreases k,
{
    if k > 0 {
        assert(results[0] is Ok);
        let rest = results.drop_first();
        assert forall|j: int| 0 <= j < k - 1 implies (#[trigger] rest[j]) is Ok by {
            assert(rest[j] == results[j + 1]);
        }
        lemma_first_failure(rest, k - 1);
        if k < results.len() {
            assert(rest[k - 1] == results[k]);
        }
    }
}

/// A run of attempts that stands or falls as a whole.
pub trait Try<E>: Sized {
    /// What the run leads to.
    spec fn outcome(self) -> Result<(), E>;

    /// The first failure of the run, or success where there is none.
    fn attempt(self) -> (r: Result<(), E>)
        ensures
            r == self.outcome(),
    ;
}

impl<E> Try<E> for Vec<Result<(), E>> {
    open spec fn outcome(self) -> Result<(), E> {
        first_failure(self@)
    }

    fn attempt(self) -> (r: Result<(), E>) {
        let ghost all = self@;
        for r in it: self.into_iter()
            invariant
                it.seq() == all,
                forall|j: int| 0 <= j < it.index() ==> (#[trigger] all[j]) is Ok,
        {
            match r {
                Err(e) => {
                    proof {
                        lemma_first_failure(all, it.index() as int);
                    }
                    return Err(e);
                },
                Ok(()) => {},
            }
        }
        proof {
            lemma_first_failure(all, all.len() as int);
        }
        Ok(())
    }
}

/// The items of `s` for which `mask` holds `want`, in their order.
pub open spec fn chosen<T>(s: Seq<T>, mask: Seq<bool>, want: bool) -> Seq<T>
    decreases s.len(),
{
    if s.len() == 0 || mask.len() != s.len() {
        Seq::empty()
    } else {
        let rest = chosen(s.drop_last(), mask.drop_last(), want);
        if mask.last() == want {
            rest.push(s.last())
        } else {
            rest
        }
    }
}

/// `mask` holds, for each item of `s`, an answer that `f` may give for it.
pub open spec fn decided<T, F: Fn(&T) -> bool>(s: Seq<T>, f: F, mask: Seq<bool>) -> bool {
    mask.len() == s.len() && forall|i: int|
        0 <= i < s.len() ==> f.ensures((&#[trigger] s[i],), mask[i])
}

/// What holds of every item of a list holds of every item chosen from it.
pub proof fn lemma_chosen_keeps<T>(s: Seq<T>, mask: Seq<bool>, want: bool, p: spec_fn(T) -> bool)
    requires
        forall|i: int| 0 <= i < s.len() ==> p(#[trigger] s[i]),
    ensures
        forall|j: int| 0 <= j < chosen(s, mask, want).len() ==> p(#[trigger] chosen(s, mask, want)[j]),
    decreases s.len(),
{
    if s.len() > 0 && mask.len() == s.len() {
        let rest = s.drop_last();
        assert forall|i: int| 0 <= i < rest.len() implies p(#[trigger] rest[i]) by {
            assert(rest[i] == s[i]);
        }
        lemma_chosen_keeps(rest, mask.drop_last(), want, p);
        let before = chosen(rest, mask.drop_last(), want);
        assert(p(s[s.len() - 1]));
        assert forall|j: int| 0 <= j < chosen(s, mask, want).len() implies p(
            #[trigger] chosen(s, mask, want)[j],
        ) by {
            if j < before.len() {
                assert(chosen(s, mask, want)[j] == before[j]);
            }
        }
    }
}

/// What a vector can do beyond the standard library.
pub trait VecUtils<T> {
    /// The items of the vector.
    spec fn items(&self) -> Seq<T>;

    /// Asks `f` about every item once, in order; keeps those it accepts and
    /// returns those it rejects, both in their order.
    fn retain_or_drain<F: Fn(&T) -> bool>(&mut self, f: F) -> (drained: Vec<T>)
        requires
            forall|i: int|
                0 <= i < old(self).items().len() ==> f.requires((&#[trigger] old(self).items()[i],)),
        ensures
            exists|mask: Seq<bool>|
                {
                    &&& #[trigger] decided(old(self).items(), f, mask)
                    &&& final(self).items() == chosen(old(self).items(), mask, true)
                    &&& drained@ == chosen(old(self).items(), mask, false)
                },
    ;
}

impl<T> VecUtils<T> for Vec<T> {
    open spec fn items(&self) -> Seq<T> {
        self@
    }

    fn retain_or_drain<F: Fn(&T) -> bool>(&mut self, f: F) -> (drained: Vec<T>) {
        let all = self.split_off(0);
        let ghost before = all@;
        assert(before == old(self)@);
        assert(before == old(self).items());
        assert(self@ == Seq::<T>::empty());
        assert forall|i: int| 0 <= i < before.len() implies f.requires((&#[trigger] before[i],)) by {
            assert(f.requires((&old(self).items()[i],)));
        }
        let ghost mut mask: Seq<bool> = Seq::empty();
        let mut drained: Vec<T> = Vec::new();
        for x in it: all.into_iter()
            invariant
                it.seq() == before,
                forall|i: int| 0 <= i < before.len() ==> f.requires((&#[trigger] before[i],)),
                decided(before.take(it.index() as int), f, mask),
                self@ == chosen(before.take(it.index() as int), mask, true),
                drained@ == chosen(before.take(it.index() as int), mask, false),
        {
            let ghost k = it.index() as int;
            let keep = f(&x);
            proof {
                let next = before.take(k + 1);
                let grown = mask.push(keep);
                assert(next.drop_last() == before.take(k));
                assert(grown.drop_last() == mask);
                assert(next.last() == before[k]);
                assert forall|i: int| 0 <= i < next.len() implies f.ensures(
                    (&#[trigger] next[i],),
                    grown[i],
                ) by {
                    if i < k {
                        assert(next[i] == before.take(k)[i]);
                    }
                }
                mask = grown;
            }
            if keep {
                self.push(x);
            } else {
                drained.push(x);
            }
        }
        assert(before.take(before.len() as int) == before);
        assert(decided(old(self).items(), f, mask));
        drained
    }
}

} // verus!
