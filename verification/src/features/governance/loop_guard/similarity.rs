//! Fingerprints of reasoning text: the distinct character n-grams of its
//! normalized form, where case, whitespace runs and numbers do not count.
use std::collections::HashSet;

use vstd::prelude::*;
use vstd::std_specs::hash::spec_hash_keys_iter;
use vstd::std_specs::iter::IteratorSpec;

use crate::text::{chars_of_str, is_space, is_whitespace, push_char};

verus! {

/// The lower-case mapping of a character (`char::to_lowercase`).
pub uninterp spec fn char_lowercase(c: char) -> Seq<char>;

/// The Unicode `Numeric` property (`char::is_numeric`).
pub uninterp spec fn char_is_numeric(c: char) -> bool;

/// `char::to_lowercase`: the characters that `c` becomes in lower case.
#[verifier::external_body]
fn lowercase_of(c: char) -> (lower: Vec<char>)
    ensures
        lower@ == char_lowercase(c),
{
    c.to_lowercase().collect()
}

/// `char::is_numeric`.
#[verifier::external_body]
fn is_numeric(c: char) -> (numeric: bool)
    ensures
        numeric == char_is_numeric(c),
{
    c.is_numeric()
}

/// FNV-1a's 64-bit offset basis and prime.
pub const WINDOW_HASH_OFFSET: u64 = 0xcbf2_9ce4_8422_2325;
pub const WINDOW_HASH_PRIME: u64 = 0x0000_0100_0000_01b3;

/// The 64-bit FNV-1a hash of a window's characters, one code point at a time.
pub open spec fn window_hash(window: Seq<char>) -> u64
    decreases window.len(),
{
    if window.len() == 0 {
        WINDOW_HASH_OFFSET
    } else {
        (window_hash(window.drop_last()) ^ (window.last() as u32 as u64)).wrapping_mul(WINDOW_HASH_PRIME)
    }
}

/// The hash of one window of characters.
fn hash_window(window: &Vec<char>) -> (hash: u64)
    ensures
        hash == window_hash(window@),
{
    let mut hash: u64 = WINDOW_HASH_OFFSET;
    let mut i: usize = 0;
    while i < window.len()
        invariant
            i <= window@.len(),
            hash == window_hash(window@.take(i as int)),
        decreases window.len() - i,
    {
        proof {
            assert(window@.take(i + 1).drop_last() =~= window@.take(i as int));
        }
        let code = (window[i] as u32) as u64;
        hash = (hash ^ code).wrapping_mul(WINDOW_HASH_PRIME);
        i += 1;
    }
    assert(window@.take(window@.len() as int) =~= window@);
    hash
}

/// All characters of `s`, each replaced by its lower-case mapping.
pub open spec fn lowered(s: Seq<char>) -> Seq<char>
    decreases s.len(),
{
    if s.len() == 0 {
        Seq::empty()
    } else {
        lowered(s.drop_last()) + char_lowercase(s.last())
    }
}

/// The normalizer's state: output so far, whether a space is owed before the
/// next character, and whether the output ends in a number placeholder.
pub struct NormalizeState {
    pub output: Seq<char>,
    pub pending_space: bool,
    pub in_number: bool,
}

pub open spec fn normalize_step(state: NormalizeState, c: char) -> NormalizeState {
    if is_space(c) {
        NormalizeState { output: state.output, pending_space: state.output.len() > 0, in_number: false }
    } else {
        let out = if state.pending_space { state.output.push(' ') } else { state.output };
        if char_is_numeric(c) {
            if state.in_number {
                NormalizeState { output: out, pending_space: false, in_number: true }
            } else {
                NormalizeState { output: out + "<num>"@, pending_space: false, in_number: true }
            }
        } else {
            NormalizeState { output: out.push(c), pending_space: false, in_number: false }
        }
    }
}

pub open spec fn normalize_fold(cs: Seq<char>) -> NormalizeState
    decreases cs.len(),
{
    if cs.len() == 0 {
        NormalizeState { output: Seq::empty(), pending_space: false, in_number: false }
    } else {
        normalize_step(normalize_fold(cs.drop_last()), cs.last())
    }
}

/// Lower case, one space for each whitespace run between words and none at the
/// ends, and `<num>` for each run of numeric characters.
pub open spec fn normalized(s: Seq<char>) -> Seq<char> {
    normalize_fold(lowered(s)).output
}

pub fn normalize(input: &str) -> (output: String)
    ensures
        output@ == normalized(input@),
{
    let chars = chars_of_str(input);
    let mut output = String::new();
    let mut pending_space = false;
    let mut in_number = false;
    let mut i: usize = 0;
    while i < chars.len()
        invariant
            chars@ == input@,
            i <= chars@.len(),
            normalize_fold(lowered(chars@.take(i as int))) == (NormalizeState {
                output: output@,
                pending_space,
                in_number,
            }),
        decreases chars.len() - i,
    {
        let lower = lowercase_of(chars[i]);
        let ghost prefix = lowered(chars@.take(i as int));
        proof {
            assert(chars@.take(i + 1).drop_last() =~= chars@.take(i as int));
            assert(lowered(chars@.take(i + 1)) == prefix + char_lowercase(chars@[i as int]));
        }
        let mut j: usize = 0;
        while j < lower.len()
            invariant
                j <= lower@.len(),
                normalize_fold(prefix + lower@.take(j as int)) == (NormalizeState {
                    output: output@,
                    pending_space,
                    in_number,
                }),
            decreases lower.len() - j,
        {
            let c = lower[j];
            proof {
                assert((prefix + lower@.take(j + 1)).drop_last() =~= prefix + lower@.take(j as int));
                assert((prefix + lower@.take(j + 1)).last() == c);
            }
            if is_whitespace(c) {
                pending_space = output.as_str().as_bytes().len() > 0;
                proof {
                    if output@.len() > 0 {
                        assert(vstd::utf8::encode_utf8(output@).len() > 0) by {
                            reveal_with_fuel(vstd::utf8::encode_utf8, 2);
                            vstd::utf8::char_is_scalar(output@[0]);
                        }
                    } else {
                        assert(output@ =~= Seq::<char>::empty());
                    }
                }
                in_number = false;
            } else {
                if pending_space {
                    push_char(&mut output, ' ');
                    pending_space = false;
                }
                if is_numeric(c) {
                    if !in_number {
                        output.append("<num>");
                        in_number = true;
                    }
                } else {
                    push_char(&mut output, c);
                    in_number = false;
                }
            }
            j += 1;
        }
        assert(prefix + lower@.take(lower@.len() as int) =~= prefix + lower@);
        i += 1;
    }
    assert(chars@.take(chars@.len() as int) =~= chars@);
    output
}

/// The windows of `n` consecutive characters of `s`, from left to right; a
/// text shorter than `n`, or a size of zero, has none.
pub open spec fn ngram_windows_spec(s: Seq<char>, n: nat) -> Seq<Seq<char>> {
    if n == 0 || s.len() < n {
        Seq::empty()
    } else {
        Seq::new((s.len() - n + 1) as nat, |i: int| s.subrange(i, i + n))
    }
}

/// The hashes of the windows of `n` consecutive characters of `s`.
pub open spec fn window_hashes(s: Seq<char>, n: nat) -> Set<u64> {
    ngram_windows_spec(s, n).map_values(|w: Seq<char>| window_hash(w)).to_set()
}

/// A fingerprint holds the hash of every window of the text, and nothing
/// but hashes of its windows.
pub proof fn fingerprint_is_the_window_hashes(s: Seq<char>, n: nat, h: u64)
    ensures
        forall|i: int| 0 <= i && n > 0 && i + n <= s.len() ==> #[trigger] window_hashes(s, n).contains(window_hash(s.subrange(i, i + n))),
        window_hashes(s, n).contains(h) <==> exists|i: int|
            0 <= i && n > 0 && i + n <= s.len() && #[trigger] window_hash(s.subrange(i, i + n)) == h,
{
    let windows = ngram_windows_spec(s, n);
    let hashed = windows.map_values(|w: Seq<char>| window_hash(w));
    assert forall|i: int| 0 <= i && n > 0 && i + n <= s.len() implies #[trigger] window_hashes(s, n).contains(window_hash(s.subrange(i, i + n))) by {
        assert(hashed[i] == window_hash(s.subrange(i, i + n)));
        assert(hashed.contains(hashed[i]));
    }
    if window_hashes(s, n).contains(h) {
        let i = choose|i: int| 0 <= i < hashed.len() && hashed[i] == h;
        assert(window_hash(s.subrange(i, i + n)) == h);
    }
}

/// The windows of `ngram_size` consecutive characters of `chars`, in order.
pub fn ngram_windows(chars: &Vec<char>, ngram_size: usize) -> (windows: Vec<Vec<char>>)
    ensures
        windows@.len() == ngram_windows_spec(chars@, ngram_size as nat).len(),
        forall|i: int|
            0 <= i < windows@.len() ==> #[trigger] windows@[i]@ == ngram_windows_spec(chars@, ngram_size as nat)[i],
{
    let mut windows: Vec<Vec<char>> = Vec::new();
    if ngram_size == 0 || chars.len() < ngram_size {
        return windows;
    }
    let count = chars.len() - ngram_size + 1;
    let mut start: usize = 0;
    while start < count
        invariant
            ngram_size > 0,
            chars@.len() >= ngram_size,
            count == chars@.len() - ngram_size + 1,
            start <= count,
            windows@.len() == start,
            forall|i: int| 0 <= i < start ==> #[trigger] windows@[i]@ == chars@.subrange(i, i + ngram_size),
        decreases count - start,
    {
        let mut window: Vec<char> = Vec::new();
        assert(start + ngram_size <= chars.len());
        let end = start + ngram_size;
        let mut j: usize = start;
        while j < end
            invariant
                end == start + ngram_size,
                end <= chars@.len(),
                start <= j <= end,
                window@ == chars@.subrange(start as int, j as int),
            decreases end - j,
        {
            window.push(chars[j]);
            j += 1;
            assert(window@ =~= chars@.subrange(start as int, j as int));
        }
        windows.push(window);
        start += 1;
    }
    windows
}

/// One hash for each window, in the windows' order.
fn hash_each(windows: &Vec<Vec<char>>) -> (hashes: Vec<u64>)
    ensures
        hashes@.len() == windows@.len(),
        forall|i: int| 0 <= i < windows@.len() ==> #[trigger] hashes@[i] == window_hash(windows@[i]@),
{
    let mut hashes: Vec<u64> = Vec::new();
    let mut i: usize = 0;
    while i < windows.len()
        invariant
            i <= windows@.len(),
            hashes@.len() == i,
            forall|k: int| 0 <= k < i ==> #[trigger] hashes@[k] == window_hash(windows@[k]@),
        decreases windows.len() - i,
    {
        hashes.push(hash_window(&windows[i]));
        i += 1;
    }
    hashes
}

/// Distinct hashes of the character n-grams of a normalized text.
pub struct NgramFingerprint {
    pub normalized_char_count: usize,
    pub ngrams: HashSet<u64>,
}

impl NgramFingerprint {
    /// The fingerprint whose n-grams are the distinct `hashes`.
    pub fn from_hashes(normalized_char_count: usize, hashes: &Vec<u64>) -> (fingerprint: Self)
        ensures
            fingerprint.normalized_char_count == normalized_char_count,
            fingerprint.ngrams@ == hashes@.to_set(),
    {
        broadcast use vstd::std_specs::hash::group_hash_axioms;
        let mut ngrams: HashSet<u64> = HashSet::new();
        let mut i: usize = 0;
        while i < hashes.len()
            invariant
                i <= hashes@.len(),
                ngrams@ == hashes@.take(i as int).to_set(),
            decreases hashes.len() - i,
        {
            proof {
                broadcast use vstd::seq_lib::group_seq_properties;
                assert(hashes@.take(i + 1) =~= hashes@.take(i as int).push(hashes@[i as int]));
            }
            ngrams.insert(hashes[i]);
            i += 1;
        }
        assert(hashes@.take(hashes@.len() as int) =~= hashes@);
        NgramFingerprint { normalized_char_count, ngrams }
    }

    /// Fingerprint of `input` with n-grams of `ngram_size` characters: one hash
    /// for each window of `ngram_size` characters of the normalized text, the
    /// distinct ones kept. A text shorter than that, or a size of zero, has no
    /// n-grams.
    pub fn new(input: &str, ngram_size: usize) -> (fingerprint: Self)
        ensures
            fingerprint.normalized_char_count == normalized(input@).len(),
            exists|hashes: Seq<u64>|
                #![trigger hashes.to_set()]
                hashes.len() == ngram_windows_spec(normalized(input@), ngram_size as nat).len()
                    && fingerprint.ngrams@ == hashes.to_set(),
            (ngram_size == 0 || normalized(input@).len() < ngram_size) ==> fingerprint.ngrams@.len() == 0,
            (ngram_size > 0 && normalized(input@).len() >= ngram_size) ==> fingerprint.ngrams@.len() >= 1,
            fingerprint.ngrams@ == window_hashes(normalized(input@), ngram_size as nat),
    {
        let normalized_text = normalize(input);
        let chars = chars_of_str(normalized_text.as_str());
        let windows = ngram_windows(&chars, ngram_size);
        let hashes = hash_each(&windows);
        let fingerprint = Self::from_hashes(chars.len(), &hashes);
        proof {
            let spec_windows = ngram_windows_spec(chars@, ngram_size as nat);
            assert(hashes@ =~= spec_windows.map_values(|w: Seq<char>| window_hash(w)));
            broadcast use vstd::seq_lib::group_seq_properties;
            let set = hashes@.to_set();
            hashes@.lemma_cardinality_of_set();
            vstd::seq_lib::seq_to_set_is_finite(hashes@);
            if hashes@.len() == 0 {
                assert(set =~= Set::<u64>::empty());
            } else {
                assert(set.contains(hashes@[0]));
                if set.len() == 0 {
                    set.lemma_len0_is_empty();
                }
            }
        }
        fingerprint
    }

    pub fn normalized_char_count(&self) -> (count: usize)
        ensures
            count == self.normalized_char_count,
    {
        self.normalized_char_count
    }

    pub fn ngram_count(&self) -> (count: usize)
        ensures
            count == self.ngrams@.len(),
    {
        broadcast use vstd::std_specs::hash::group_hash_axioms;
        self.ngrams.len()
    }

    /// Number of n-grams the two fingerprints share.
    pub fn intersection_count(&self, other: &Self) -> (count: usize)
        ensures
            count == self.ngrams@.intersect(other.ngrams@).len(),
    {
        broadcast use vstd::std_specs::hash::group_hash_axioms;
        let ghost mut seen: Set<u64> = Set::empty();
        let mut count: usize = 0;
        let ghost keys = IteratorSpec::remaining(&spec_hash_keys_iter(&self.ngrams)).unref();
        assert(keys.len() == self.ngrams.len());
        for h in it: self.ngrams.iter()
            invariant
                keys == it.seq().unref(),
                keys.len() <= usize::MAX,
                keys.no_duplicates(),
                keys.to_set() == self.ngrams@,
                seen.finite(),
                count == seen.len(),
                count <= it.index(),
                forall|x: u64| #[trigger] seen.contains(x) <==> (keys.take(it.index() as int).contains(x) && other.ngrams@.contains(x)),
        {
            let ghost index = it.index();
            proof {
                assert(keys[index] == *h);
                assert(keys.take(index + 1) =~= keys.take(index).push(*h));
                assert(!keys.take(index).contains(*h)) by {
                    if keys.take(index).contains(*h) {
                        let j = choose|j: int| 0 <= j < index && keys.take(index)[j] == *h;
                        assert(keys[j] == keys[index]);
                    }
                }
            }
            let shared = other.ngrams.contains(h);
            if shared {
                proof {
                    seen = seen.insert(*h);
                }
                count += 1;
            }
            proof {
                let before = keys.take(index as int);
                let after = keys.take(index + 1);
                assert forall|x: u64| #[trigger] seen.contains(x) <==> (after.contains(x) && other.ngrams@.contains(x)) by {
                    if x == *h {
                        assert(after[index as int] == x);
                    } else if after.contains(x) {
                        let j = choose|j: int| 0 <= j < after.len() && #[trigger] after[j] == x;
                        assert(before[j] == x);
                    } else if before.contains(x) {
                        let j = choose|j: int| 0 <= j < before.len() && #[trigger] before[j] == x;
                        assert(after[j] == x);
                    }
                }
            }
        }
        proof {
            assert(keys.take(keys.len() as int) =~= keys);
            assert(seen =~= self.ngrams@.intersect(other.ngrams@));
        }
        count
    }
}

} // verus!
