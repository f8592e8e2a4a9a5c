//! The reasoning text of an assistant message, as the similarity detector
//! compares it.
use vstd::prelude::*;

use crate::features::governance::loop_guard::similarity::NgramFingerprint;
use crate::text::{join_with, joined_with, string_views};

verus! {

/// The shown reasoning texts that are not empty, in order.
pub open spec fn nonempty_shown(texts: Seq<Option<String>>) -> Seq<Seq<char>>
    decreases texts.len(),
{
    if texts.len() == 0 {
        Seq::empty()
    } else {
        let rest = nonempty_shown(texts.drop_last());
        match texts.last() {
            Some(text) => if text@.len() > 0 {
                rest.push(text@)
            } else {
                rest
            },
            None => rest,
        }
    }
}

/// The reasoning of a message, from the display texts of its reasoning
/// blocks (`None` where a block shows nothing): the non-empty texts joined
/// by newlines, or `None` when there are none.
pub fn reasoning_text(display_texts: &Vec<Option<String>>) -> (text: Option<String>)
    ensures
        match text {
            Some(t) => nonempty_shown(display_texts@).len() > 0 && t@ == joined_with(
                nonempty_shown(display_texts@),
                "\n"@,
            ),
            None => nonempty_shown(display_texts@).len() == 0,
        },
{
    let mut parts: Vec<String> = Vec::new();
    let mut i: usize = 0;
    while i < display_texts.len()
        invariant
            i <= display_texts@.len(),
            string_views(parts@) == nonempty_shown(display_texts@.take(i as int)),
        decreases display_texts.len() - i,
    {
        proof {
            assert(display_texts@.take(i + 1).drop_last() =~= display_texts@.take(i as int));
        }
        match &display_texts[i] {
            Some(text) => {
                if !text.as_str().is_empty() {
                    parts.push(text.clone());
                    assert(string_views(parts@) =~= nonempty_shown(display_texts@.take(i as int)).push(text@));
                }
            },
            None => {},
        }
        i += 1;
    }
    assert(display_texts@.take(i as int) =~= display_texts@);
    if parts.len() == 0 {
        None
    } else {
        let joined = join_with(&parts, "\n");
        Some(joined)
    }
}

/// The last `n` elements of `s` (all of them where there are no more).
pub open spec fn last_n<T>(s: Seq<T>, n: nat) -> Seq<T> {
    if s.len() <= n {
        s
    } else {
        s.skip(s.len() - n)
    }
}

/// What the reasoning detector remembers: the fingerprints of the last
/// committed reasonings, within a window, and those rejected since the last
/// commit. Reasonings shorter than `min_chars` normalized characters are not
/// remembered and are never judged.
pub struct ReasoningMemory {
    pub ngram_size: usize,
    pub min_chars: usize,
    pub committed: Vec<NgramFingerprint>,
    pub rejected: Vec<NgramFingerprint>,
    pub initialized: bool,
}

impl ReasoningMemory {
    pub fn new(ngram_size: usize, min_chars: usize) -> (memory: Self)
        ensures
            memory.ngram_size == ngram_size,
            memory.min_chars == min_chars,
            memory.committed@.len() == 0,
            memory.rejected@.len() == 0,
            !memory.initialized,
    {
        ReasoningMemory { ngram_size, min_chars, committed: Vec::new(), rejected: Vec::new(), initialized: false }
    }

    /// Marks the history as learnt; `true` only the first time, when the
    /// caller is to remember the history's reasonings.
    pub fn start_initialization(&mut self) -> (fresh: bool)
        ensures
            fresh == !old(self).initialized,
            final(self).initialized,
            final(self).ngram_size == old(self).ngram_size,
            final(self).min_chars == old(self).min_chars,
            final(self).committed@ == old(self).committed@,
            final(self).rejected@ == old(self).rejected@,
    {
        let fresh = !self.initialized;
        self.initialized = true;
        fresh
    }

    /// Remembers a committed reasoning's fingerprint, keeping the last
    /// `window`; one below `min_chars` normalized characters is passed over.
    pub fn remember(&mut self, fingerprint: NgramFingerprint, window: usize)
        ensures
            final(self).ngram_size == old(self).ngram_size,
            final(self).min_chars == old(self).min_chars,
            final(self).initialized == old(self).initialized,
            final(self).rejected@ == old(self).rejected@,
            final(self).committed@ == if fingerprint.normalized_char_count < old(self).min_chars {
                old(self).committed@
            } else {
                last_n(old(self).committed@.push(fingerprint), window as nat)
            },
    {
        if fingerprint.normalized_char_count < self.min_chars {
            return;
        }
        let ghost pushed = self.committed@.push(fingerprint);
        self.committed.push(fingerprint);
        while self.committed.len() > window
            invariant
                self.ngram_size == old(self).ngram_size,
                self.min_chars == old(self).min_chars,
                self.initialized == old(self).initialized,
                self.rejected@ == old(self).rejected@,
                pushed == old(self).committed@.push(fingerprint),
                self.committed@.len() <= pushed.len(),
                self.committed@.len() >= if pushed.len() <= window { pushed.len() } else { window as nat },
                self.committed@ == pushed.skip(pushed.len() - self.committed@.len()),
            decreases self.committed.len(),
        {
            self.committed.remove(0);
            assert(self.committed@ =~= pushed.skip(pushed.len() - self.committed@.len()));
        }
        assert(pushed.skip(0) =~= pushed);
    }

    /// The fingerprint of a candidate's reasoning that is to be judged against
    /// what the detector remembers; `None`, forgetting the rejected ones, for a
    /// candidate without reasoning or with one below `min_chars`.
    pub fn candidate(&mut self, fingerprint: Option<NgramFingerprint>) -> (judged: Option<NgramFingerprint>)
        ensures
            final(self).ngram_size == old(self).ngram_size,
            final(self).min_chars == old(self).min_chars,
            final(self).initialized == old(self).initialized,
            final(self).committed@ == old(self).committed@,
            match fingerprint {
                Some(f) => if f.normalized_char_count < old(self).min_chars {
                    judged is None && final(self).rejected@.len() == 0
                } else {
                    judged == Some(f) && final(self).rejected@ == old(self).rejected@
                },
                None => judged is None && final(self).rejected@.len() == 0,
            },
    {
        match fingerprint {
            Some(f) => {
                if f.normalized_char_count < self.min_chars {
                    self.rejected.clear();
                    None
                } else {
                    Some(f)
                }
            },
            None => {
                self.rejected.clear();
                None
            },
        }
    }

    /// A judged candidate was not similar enough: the rejected ones are forgotten.
    pub fn accept(&mut self)
        ensures
            final(self).ngram_size == old(self).ngram_size,
            final(self).min_chars == old(self).min_chars,
            final(self).initialized == old(self).initialized,
            final(self).committed@ == old(self).committed@,
            final(self).rejected@.len() == 0,
    {
        self.rejected.clear();
    }

    /// A judged candidate repeated earlier reasoning: it is remembered as rejected.
    pub fn reject(&mut self, fingerprint: NgramFingerprint)
        ensures
            final(self).ngram_size == old(self).ngram_size,
            final(self).min_chars == old(self).min_chars,
            final(self).initialized == old(self).initialized,
            final(self).committed@ == old(self).committed@,
            final(self).rejected@ == old(self).rejected@.push(fingerprint),
    {
        self.rejected.push(fingerprint);
    }

    /// A response was committed: the rejected ones are forgotten, and its
    /// reasoning, where it has one, is remembered.
    pub fn commit(&mut self, fingerprint: Option<NgramFingerprint>, window: usize)
        ensures
            final(self).ngram_size == old(self).ngram_size,
            final(self).min_chars == old(self).min_chars,
            final(self).initialized == old(self).initialized,
            final(self).rejected@.len() == 0,
            final(self).committed@ == match fingerprint {
                Some(f) => if f.normalized_char_count < old(self).min_chars {
                    old(self).committed@
                } else {
                    last_n(old(self).committed@.push(f), window as nat)
                },
                None => old(self).committed@,
            },
    {
        self.rejected.clear();
        if let Some(f) = fingerprint {
            self.remember(f, window);
        }
    }
}

} // verus!
