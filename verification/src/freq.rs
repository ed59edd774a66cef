//! Character frequencies: a map from each character of a text to its number
//! of occurrences, kept as a vector of key/count entries with unique keys.

use vstd::prelude::*;

verus! {

/// The tally of `s`: every character that occurs in `s` is mapped to the
/// number of its occurrences, and no other key is present.
pub open spec fn spec_char_freqs(s: Seq<char>) -> Map<char, nat>
    decreases s.len(),
{
    if s.len() == 0 {
        Map::empty()
    } else {
        let m = spec_char_freqs(s.drop_last());
        let prior: nat = if m.contains_key(s.last()) {
            m[s.last()]
        } else {
            0
        };
        m.insert(s.last(), prior + 1)
    }
}

/// The number of occurrences of `c` in `s`.
pub open spec fn spec_count_of(s: Seq<char>, c: char) -> nat
    decreases s.len(),
{
    if s.len() == 0 {
        0
    } else {
        spec_count_of(s.drop_last(), c) + if s.last() == c {
            1nat
        } else {
            0nat
        }
    }
}

/// Every character is tallied exactly once per occurrence: the frequency map
/// of `s` holds a key `c` exactly when `c` occurs in `s`, and then maps it
/// to the occurrence count of `c`.
pub proof fn lemma_char_freqs_counts(s: Seq<char>, c: char)
    ensures
        spec_char_freqs(s).contains_key(c) <==> spec_count_of(s, c) > 0,
        spec_char_freqs(s).contains_key(c) ==> spec_char_freqs(s)[c] == spec_count_of(s, c),
    decreases s.len(),
{
    if s.len() > 0 {
        lemma_char_freqs_counts(s.drop_last(), c);
        lemma_char_freqs_counts(s.drop_last(), s.last());
    }
}

/// The map held by a sequence of key/count entries, later entries taking
/// precedence.
spec fn entries_map(s: Seq<(char, usize)>) -> Map<char, nat>
    decreases s.len(),
{
    if s.len() == 0 {
        Map::empty()
    } else {
        entries_map(s.drop_last()).insert(s.last().0, s.last().1 as nat)
    }
}

/// Whether the keys of `s` are pairwise distinct.
spec fn entries_unique(s: Seq<(char, usize)>) -> bool {
    forall|i: int, j: int|
        0 <= i < j < s.len() ==> (#[trigger] s[i]).0 != (#[trigger] s[j]).0
}

proof fn lemma_entries_map_props(s: Seq<(char, usize)>)
    requires
        entries_unique(s),
    ensures
        forall|i: int|
            0 <= i < s.len() ==> entries_map(s).contains_key((#[trigger] s[i]).0)
                && entries_map(s)[s[i].0] == s[i].1 as nat,
        forall|c: char|
            entries_map(s).contains_key(c) ==> exists|i: int|
                0 <= i < s.len() && (#[trigger] s[i]).0 == c,
        entries_map(s).dom().finite(),
        entries_map(s).dom().len() == s.len(),
    decreases s.len(),
{
    if s.len() > 0 {
        let prefix = s.drop_last();
        assert(entries_unique(prefix));
        lemma_entries_map_props(prefix);
        let last = s.last();
        assert forall|i: int|
            0 <= i < s.len() implies entries_map(s).contains_key((#[trigger] s[i]).0)
            && entries_map(s)[s[i].0] == s[i].1 as nat by {
            if i < s.len() - 1 {
                assert(prefix[i] == s[i]);
                assert(s[i].0 != last.0);
            }
        }
        assert forall|c: char| entries_map(s).contains_key(c) implies exists|i: int|
            0 <= i < s.len() && (#[trigger] s[i]).0 == c by {
            if c == last.0 {
                assert(s[s.len() - 1].0 == c);
            } else {
                let i = choose|i: int| 0 <= i < prefix.len() && (#[trigger] prefix[i]).0 == c;
                assert(s[i].0 == c);
            }
        }
        assert(!entries_map(prefix).contains_key(last.0));
        assert(entries_map(s).dom() =~= entries_map(prefix).dom().insert(last.0));
    }
}

/// A character-frequency table: a mapping from characters to occurrence
/// counts with unique keys and no ordering guarantee.
pub struct CharCounts {
    entries: Vec<(char, usize)>,
}

impl View for CharCounts {
    type V = Map<char, nat>;

    closed spec fn view(&self) -> Map<char, nat> {
        entries_map(self.entries@)
    }
}

impl CharCounts {
    /// Well-formedness: each character is keyed at most once.
    pub closed spec fn wf(&self) -> bool {
        entries_unique(self.entries@)
    }

    /// An empty table.
    pub fn new() -> (r: CharCounts)
        ensures
            r.wf(),
            r@ == Map::<char, nat>::empty(),
    {
        CharCounts { entries: Vec::new() }
    }

    /// The count recorded for `c`: zero when `c` has no entry.
    pub fn get(&self, c: char) -> (n: usize)
        requires
            self.wf(),
        ensures
            n as nat == if self@.contains_key(c) {
                self@[c]
            } else {
                0
            },
    {
        proof {
            lemma_entries_map_props(self.entries@);
        }
        let mut i: usize = 0;
        while i < self.entries.len()
            invariant
                self.wf(),
                i <= self.entries.len(),
                forall|j: int| 0 <= j < i ==> (#[trigger] self.entries@[j]).0 != c,
            decreases self.entries.len() - i,
        {
            if self.entries[i].0 == c {
                proof {
                    lemma_entries_map_props(self.entries@);
                }
                return self.entries[i].1;
            }
            i += 1;
        }
        proof {
            if self@.contains_key(c) {
                lemma_entries_map_props(self.entries@);
            }
        }
        0
    }

    /// The number of distinct characters recorded.
    pub fn len(&self) -> (n: usize)
        requires
            self.wf(),
        ensures
            n as nat == self@.dom().len(),
    {
        proof {
            lemma_entries_map_props(self.entries@);
        }
        self.entries.len()
    }

    /// Adds one occurrence of `c` to the table.
    #[verifier::loop_isolation(false)]
    pub fn increment(&mut self, c: char)
        requires
            old(self).wf(),
            old(self)@.contains_key(c) ==> old(self)@[c] < usize::MAX,
        ensures
            final(self).wf(),
            final(self)@ == old(self)@.insert(
                c,
                (if old(self)@.contains_key(c) {
                    old(self)@[c]
                } else {
                    0nat
                }) + 1,
            ),
    {
        proof {
            lemma_entries_map_props(self.entries@);
        }
        let ghost s0 = self.entries@;
        let mut i: usize = 0;
        while i < self.entries.len()
            invariant
                self.entries@ == s0,
                entries_unique(s0),
                i <= s0.len(),
                forall|j: int| 0 <= j < i ==> (#[trigger] s0[j]).0 != c,
            decreases self.entries.len() - i,
        {
            if self.entries[i].0 == c {
                let prior = self.entries[i].1;
                proof {
                    lemma_entries_map_props(s0);
                    assert(s0[i as int].0 == c);
                    assert(entries_map(s0).contains_key(c));
                    assert(entries_map(s0)[c] == s0[i as int].1 as nat);
                }
                let bumped = prior + 1;
                self.entries.set(i, (c, bumped));
                proof {
                    lemma_entries_map_update(s0, i as int, bumped);
                }
                return ;
            }
            i += 1;
        }
        proof {
            if entries_map(s0).contains_key(c) {
                lemma_entries_map_props(s0);
            }
        }
        self.entries.push((c, 1));
        proof {
            assert(self.entries@.drop_last() =~= s0);
            assert(forall|j: int|
                0 <= j < s0.len() ==> (#[trigger] self.entries@[j]) == s0[j]);
        }
    }
}

proof fn lemma_entries_map_update(s: Seq<(char, usize)>, i: int, v: usize)
    requires
        entries_unique(s),
        0 <= i < s.len(),
    ensures
        entries_unique(s.update(i, (s[i].0, v))),
        entries_map(s.update(i, (s[i].0, v))) == entries_map(s).insert(s[i].0, v as nat),
    decreases s.len(),
{
    let t = s.update(i, (s[i].0, v));
    assert(entries_unique(t)) by {
        assert(forall|j: int| 0 <= j < s.len() ==> (#[trigger] t[j]).0 == s[j].0);
    }
    if i == s.len() - 1 {
        assert(t.drop_last() =~= s.drop_last());
        assert(entries_map(t) =~= entries_map(s).insert(s[i].0, v as nat));
    } else {
        let prefix = s.drop_last();
        assert(entries_unique(prefix));
        lemma_entries_map_update(prefix, i, v);
        assert(t.drop_last() =~= prefix.update(i, (s[i].0, v)));
        assert(t.last() == s.last());
        // the updated key differs from the last key, so the two inserts commute
        assert(s[i].0 != s.last().0);
        assert(entries_map(prefix).insert(s[i].0, v as nat).insert(s.last().0, s.last().1 as nat)
            =~= entries_map(prefix).insert(s.last().0, s.last().1 as nat).insert(
            s[i].0,
            v as nat,
        ));
        assert(entries_map(t) =~= entries_map(s).insert(s[i].0, v as nat));
    }
}

/// Tallies every character of `s`, each occurrence exactly once.
pub fn char_frequencies(s: &str) -> (r: CharCounts)
    ensures
        r.wf(),
        r@ == spec_char_freqs(s@),
{
    let total = s.unicode_len();
    let mut r = CharCounts::new();
    for c in it: s.chars()
        invariant
            it.seq() == s@,
            s@.len() == total,
            r.wf(),
            r@ == spec_char_freqs(s@.take(it.index())),
            forall|k: char| r@.contains_key(k) ==> r@[k] <= it.index(),
    {
        proof {
            let i = it.index();
            assert(s@.take(i + 1).drop_last() =~= s@.take(i));
            assert(s@.take(i + 1).last() == s@[i]);
        }
        r.increment(c);
    }
    proof {
        assert(s@.take(s@.len() as int) =~= s@);
    }
    r
}

} // verus!
