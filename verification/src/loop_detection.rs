//! Loop points at zero crossings.
//!
//! Candidates are pairs of zero crossings whose distance lies within the
//! configured lengths. How well the signal matches around the two ends of a
//! candidate is measured outside and handed in as scores; the candidates
//! are ranked by them here.

use vstd::prelude::*;
use crate::detection::{least, samples_in, ms_to_samples};
use crate::error::BatcherbirdError;
use crate::ieee::{
    gt, is_non_positive, is_positive, key, word_gt, word_is_non_positive, word_is_positive,
    word_key, HALF,
};

verus! {

/// How loops are searched. Lengths are in milliseconds.
#[derive(Debug, Clone, Copy, PartialEq, Eq, Structural)]
pub struct LoopDetectionConfig {
    /// Shortest loop that is proposed.
    pub min_loop_length_ms: u32,
    /// Longest loop that is proposed.
    pub max_loop_length_ms: u32,
    /// Most candidates that are proposed.
    pub max_candidates: usize,
    /// Correlation asked of a match, as a word in 0..=1.
    pub correlation_threshold: u32,
    /// Length of the crossfade at the loop start.
    pub crossfade_ms: u32,
}

/// Word of 0.8, the default correlation threshold.
pub const FOUR_FIFTHS: u32 = 0x3F4C_CCCD;

/// A loop from `start_sample` up to `end_sample`.
#[derive(Debug, Clone, Copy, PartialEq, Eq, Structural)]
pub struct LoopCandidate {
    pub start_sample: usize,
    pub end_sample: usize,
    pub length_samples: usize,
    /// Composite quality as a word in 0..=1; higher is better.
    pub quality_score: u32,
    /// Both ends lie on zero crossings.
    pub zero_crossing_aligned: bool,
    /// Correlation of the signal around the two ends, as a word in 0..=1.
    pub correlation: u32,
}

/// The two measurements of a candidate, as words.
#[derive(Debug, Clone, Copy, PartialEq, Eq, Structural)]
pub struct LoopScore {
    pub correlation: u32,
    pub quality: u32,
}

/// Why no loop was found.
#[derive(Debug, Clone, Copy, PartialEq, Eq, Structural)]
pub enum LoopFailure {
    /// Fewer than four zero crossings.
    InsufficientCrossings,
    /// No pair of crossings has an admissible distance.
    NoCandidates,
    /// The best candidate does not score above one half.
    LowQuality,
}

#[derive(Debug)]
pub struct LoopDetectionResult {
    pub success: bool,
    /// The first of `all_candidates`, if there is any.
    pub best_candidate: Option<LoopCandidate>,
    /// All candidates, best first.
    pub all_candidates: Vec<LoopCandidate>,
    pub failure_reason: Option<LoopFailure>,
}

pub struct LoopDetector {
    pub config: LoopDetectionConfig,
}

/// The sign of the signal changes from sample `i - 1` to sample `i`, zero
/// counting as not positive.
pub open spec fn is_crossing(audio: Seq<u32>, i: int) -> bool {
    &&& 1 <= i < audio.len()
    &&& (is_non_positive(audio[i - 1]) && is_positive(audio[i])) || (is_positive(audio[i - 1])
        && is_non_positive(audio[i]))
}

/// The zero crossings below `n`, in rising order.
pub open spec fn crossings_below(audio: Seq<u32>, n: int) -> Seq<usize>
    decreases n,
{
    if n <= 0 {
        Seq::empty()
    } else if is_crossing(audio, n - 1) {
        crossings_below(audio, n - 1).push((n - 1) as usize)
    } else {
        crossings_below(audio, n - 1)
    }
}

/// All zero crossings of a signal, in rising order.
pub open spec fn crossings(audio: Seq<u32>) -> Seq<usize> {
    crossings_below(audio, audio.len() as int)
}

/// `crossings_below` holds exactly the crossings below `n`, each once and
/// in rising order.
pub proof fn lemma_crossings_below(audio: Seq<u32>, n: int)
    requires
        n <= audio.len() <= usize::MAX,
    ensures
        forall|k: int|
            0 <= k < crossings_below(audio, n).len() ==> is_crossing(
                audio,
                #[trigger] crossings_below(audio, n)[k] as int,
            ) && crossings_below(audio, n)[k] < n,
        forall|k: int, l: int|
            0 <= k < l < crossings_below(audio, n).len() ==> crossings_below(audio, n)[k]
                < crossings_below(audio, n)[l],
        forall|i: int|
            0 <= i < n && is_crossing(audio, i) ==> crossings_below(audio, n).contains(i as usize),
        crossings_below(audio, n).len() <= if n <= 0 {
            0
        } else {
            n
        },
    decreases n,
{
    if n > 0 {
        lemma_crossings_below(audio, n - 1);
        let before = crossings_below(audio, n - 1);
        let now = crossings_below(audio, n);
        assert forall|i: int| 0 <= i < n && is_crossing(audio, i) implies now.contains(
            i as usize,
        ) by {
            if i < n - 1 {
                let k = choose|k: int| 0 <= k < before.len() && before[k] == i as usize;
                assert(now[k] == i as usize);
            } else {
                assert(now[now.len() - 1] == i as usize);
            }
        }
    }
}


/// The candidate between two crossings, not yet scored.
pub open spec fn candidate(a: usize, b: usize) -> LoopCandidate {
    LoopCandidate {
        start_sample: a,
        end_sample: b,
        length_samples: (b - a) as usize,
        quality_score: 0,
        zero_crossing_aligned: true,
        correlation: 0,
    }
}

/// Whether the samples from `a` up to `b` may be a loop: `b` lies after
/// `a` and within the signal, and their distance within the two lengths.
pub open spec fn admissible(shortest: int, longest: int, len: int, a: usize, b: usize) -> bool {
    a < b && shortest <= b - a <= longest && b < len
}

/// The admissible pairs of crossings from the pair at `(i, j)` on, taken
/// with the first crossing rising slowest.
pub open spec fn pairs_from(
    z: Seq<usize>,
    shortest: int,
    longest: int,
    len: int,
    i: int,
    j: int,
) -> Seq<LoopCandidate>
    decreases z.len() - i, z.len() - j,
{
    if i < 0 || j <= i || i >= z.len() {
        Seq::empty()
    } else if j >= z.len() {
        pairs_from(z, shortest, longest, len, i + 1, i + 2)
    } else {
        (if admissible(shortest, longest, len, z[i], z[j]) {
            seq![candidate(z[i], z[j])]
        } else {
            Seq::<LoopCandidate>::empty()
        }) + pairs_from(z, shortest, longest, len, i, j + 1)
    }
}

/// The candidate runs forward between two of the crossings `z`, ends
/// within the signal, and has an admissible length.
pub open spec fn between_crossings(
    z: Seq<usize>,
    shortest: int,
    longest: int,
    len: int,
    c: LoopCandidate,
) -> bool {
    &&& z.contains(c.start_sample)
    &&& z.contains(c.end_sample)
    &&& c.start_sample < c.end_sample < len
    &&& c.length_samples == c.end_sample - c.start_sample
    &&& shortest <= c.length_samples <= longest
    &&& c.zero_crossing_aligned
}

/// Every candidate among the pairs runs between two of the crossings.
pub proof fn lemma_pairs_from(
    z: Seq<usize>,
    shortest: int,
    longest: int,
    len: int,
    i: int,
    j: int,
)
    ensures
        forall|k: int|
            0 <= k < pairs_from(z, shortest, longest, len, i, j).len() ==> between_crossings(
                z,
                shortest,
                longest,
                len,
                #[trigger] pairs_from(z, shortest, longest, len, i, j)[k],
            ),
    decreases z.len() - i, z.len() - j,
{
    let all = pairs_from(z, shortest, longest, len, i, j);
    if i < 0 || j <= i || i >= z.len() {
    } else if j >= z.len() {
        lemma_pairs_from(z, shortest, longest, len, i + 1, i + 2);
        assert(all == pairs_from(z, shortest, longest, len, i + 1, i + 2));
    } else {
        lemma_pairs_from(z, shortest, longest, len, i, j + 1);
        assert(z.contains(z[i]) && z.contains(z[j]));
        let tail = pairs_from(z, shortest, longest, len, i, j + 1);
        assert forall|k: int| 0 <= k < all.len() implies between_crossings(
            z,
            shortest,
            longest,
            len,
            #[trigger] all[k],
        ) by {
            if admissible(shortest, longest, len, z[i], z[j]) {
                if k > 0 {
                    assert(all[k] == tail[k - 1]);
                }
            } else {
                assert(all[k] == tail[k]);
            }
        }
    }
}

impl Default for LoopDetectionConfig {
    /// Loops of 100 ms to 4 s, at most 20 candidates, a correlation of 0.8
    /// and a crossfade of 10 ms.
    fn default() -> (c: LoopDetectionConfig)
        ensures
            c == (LoopDetectionConfig {
                min_loop_length_ms: 100,
                max_loop_length_ms: 4000,
                max_candidates: 20,
                correlation_threshold: FOUR_FIFTHS,
                crossfade_ms: 10,
            }),
    {
        LoopDetectionConfig {
            min_loop_length_ms: 100,
            max_loop_length_ms: 4000,
            max_candidates: 20,
            correlation_threshold: FOUR_FIFTHS,
            crossfade_ms: 10,
        }
    }
}

impl LoopDetector {
    pub fn new(config: LoopDetectionConfig) -> (d: LoopDetector)
        ensures
            d.config == config,
    {
        LoopDetector { config }
    }

    /// The candidates proposed for the crossings `z` of a signal of `len`
    /// samples: the admissible pairs in order, up to the configured number.
    pub open spec fn proposed(&self, z: Seq<usize>, len: int, sample_rate: u32) -> Seq<
        LoopCandidate,
    > {
        let all = pairs_from(
            z,
            samples_in(self.config.min_loop_length_ms, sample_rate),
            samples_in(self.config.max_loop_length_ms, sample_rate),
            len,
            0,
            1,
        );
        all.take(least(self.config.max_candidates as int, all.len() as int))
    }

    /// All zero crossings of the signal, in rising order.
    pub fn find_zero_crossings(&self, audio_data: &[u32]) -> (out: Vec<usize>)
        ensures
            out@ == crossings(audio_data@),
            forall|k: int| 0 <= k < out@.len() ==> is_crossing(audio_data@, #[trigger] out@[k] as int),
            forall|k: int, l: int| 0 <= k < l < out@.len() ==> out@[k] < out@[l],
            forall|i: int| is_crossing(audio_data@, i) ==> out@.contains(i as usize),
    {
        let mut out: Vec<usize> = Vec::new();
        let n: usize = audio_data.len();
        let mut i: usize = 1;
        assert(crossings_below(audio_data@, 1) =~= Seq::<usize>::empty()) by {
            reveal_with_fuel(crossings_below, 2);
        }
        if n == 0 {
            proof {
                lemma_crossings_below(audio_data@, 0);
            }
            return out;
        }
        while i < n
            invariant
                1 <= i <= n,
                n == audio_data@.len(),
                out@ == crossings_below(audio_data@, i as int),
            decreases n - i,
        {
            let before: u32 = audio_data[i - 1];
            let here: u32 = audio_data[i];
            if (word_is_non_positive(before) && word_is_positive(here)) || (word_is_positive(before)
                && word_is_non_positive(here)) {
                out.push(i);
            }
            i = i + 1;
        }
        proof {
            lemma_crossings_below(audio_data@, n as int);
        }
        out
    }

    /// The candidates between the given crossings: every pair whose
    /// distance lies within the configured lengths and whose end lies within
    /// the signal, the first crossing rising slowest, until the configured
    /// number is reached.
    pub fn generate_loop_candidates(
        &self,
        zero_crossings: &[usize],
        audio_len: usize,
        sample_rate: u32,
    ) -> (out: Vec<LoopCandidate>)
        ensures
            out@ == self.proposed(zero_crossings@, audio_len as int, sample_rate),
    {
        let shortest: u64 = ms_to_samples(self.config.min_loop_length_ms, sample_rate);
        let longest: u64 = ms_to_samples(self.config.max_loop_length_ms, sample_rate);
        let cap: usize = self.config.max_candidates;
        let n: usize = zero_crossings.len();
        let ghost z = zero_crossings@;
        let ghost all = pairs_from(z, shortest as int, longest as int, audio_len as int, 0, 1);
        let ghost mut rest = all;
        let mut out: Vec<LoopCandidate> = Vec::new();
        let mut i: usize = 0;
        assert(all =~= out@ + rest);
        while i < n && out.len() < cap
            invariant
                i <= n,
                n == z.len(),
                z == zero_crossings@,
                all == out@ + rest,
                out@.len() <= cap,
                out@.len() < cap ==> rest == pairs_from(
                    z,
                    shortest as int,
                    longest as int,
                    audio_len as int,
                    i as int,
                    i + 1,
                ),
            decreases n - i,
        {
            let mut j: usize = i + 1;
            while j < n && out.len() < cap
                invariant
                    i < j <= n,
                    n == z.len(),
                    z == zero_crossings@,
                    all == out@ + rest,
                    out@.len() <= cap,
                    out@.len() < cap ==> rest == pairs_from(
                        z,
                        shortest as int,
                        longest as int,
                        audio_len as int,
                        i as int,
                        j as int,
                    ),
                decreases n - j,
            {
                let a: usize = zero_crossings[i];
                let b: usize = zero_crossings[j];
                let ghost tail = pairs_from(
                    z,
                    shortest as int,
                    longest as int,
                    audio_len as int,
                    i as int,
                    j + 1,
                );
                if a < b && b < audio_len && (b - a) as u64 >= shortest && (b - a) as u64
                    <= longest {
                    let c = LoopCandidate {
                        start_sample: a,
                        end_sample: b,
                        length_samples: b - a,
                        quality_score: 0,
                        zero_crossing_aligned: true,
                        correlation: 0,
                    };
                    assert(rest =~= seq![c] + tail);
                    out.push(c);
                    proof {
                        rest = tail;
                    }
                    assert(all =~= out@ + rest);
                } else {
                    assert(rest =~= tail);
                    proof {
                        rest = tail;
                    }
                }
                j = j + 1;
            }
            i = i + 1;
        }
        proof {
            if out@.len() < cap {
                assert(rest =~= Seq::<LoopCandidate>::empty());
                assert(out@ =~= all);
            }
            assert(out@ =~= all.take(out@.len() as int));
        }
        out
    }
}


/// The candidates with their measurements filled in, one score for each.
pub open spec fn scored(candidates: Seq<LoopCandidate>, scores: Seq<LoopScore>) -> Seq<
    LoopCandidate,
> {
    Seq::new(
        candidates.len(),
        |k: int|
            LoopCandidate {
                quality_score: scores[k].quality,
                correlation: scores[k].correlation,
                ..candidates[k]
            },
    )
}

/// `c` put into a ranking, behind every candidate that scores as high or
/// higher.
pub open spec fn inserted(s: Seq<LoopCandidate>, c: LoopCandidate) -> Seq<LoopCandidate>
    decreases s.len(),
{
    if s.len() == 0 {
        seq![c]
    } else if key(s.last().quality_score) >= key(c.quality_score) {
        s.push(c)
    } else {
        inserted(s.drop_last(), c).push(s.last())
    }
}

/// The candidates by falling quality; among equals, the one proposed
/// first comes first.
pub open spec fn ranked(s: Seq<LoopCandidate>) -> Seq<LoopCandidate>
    decreases s.len(),
{
    if s.len() == 0 {
        Seq::empty()
    } else {
        inserted(ranked(s.drop_last()), s.last())
    }
}

/// No candidate is followed by one of higher quality.
pub open spec fn falling(s: Seq<LoopCandidate>) -> bool {
    forall|k: int, l: int|
        0 <= k < l < s.len() ==> key(#[trigger] s[k].quality_score) >= key(
            #[trigger] s[l].quality_score,
        )
}

/// Where `inserted` puts a candidate: at `p`, when everything from `p` on
/// scores lower and what stands before `p` does not.
pub proof fn lemma_inserted_at(s: Seq<LoopCandidate>, c: LoopCandidate, p: int)
    requires
        0 <= p <= s.len(),
        forall|k: int| p <= k < s.len() ==> key(#[trigger] s[k].quality_score) < key(c.quality_score),
        p > 0 ==> key(s[p - 1].quality_score) >= key(c.quality_score),
    ensures
        inserted(s, c) == s.insert(p, c),
    decreases s.len(),
{
    if s.len() == 0 {
        assert(seq![c] =~= s.insert(p, c));
    } else if p == s.len() {
        assert(s.push(c) =~= s.insert(p, c));
    } else {
        lemma_inserted_at(s.drop_last(), c, p);
        assert(s.drop_last().insert(p, c).push(s.last()) =~= s.insert(p, c));
    }
}

/// Inserting keeps a ranking falling, makes it longer by one, and adds
/// the candidate and nothing else.
pub proof fn lemma_inserted(s: Seq<LoopCandidate>, c: LoopCandidate)
    ensures
        inserted(s, c).len() == s.len() + 1,
        falling(s) ==> falling(inserted(s, c)),
        inserted(s, c).contains(c),
        forall|x: LoopCandidate| #[trigger] inserted(s, c).contains(x) ==> s.contains(x) || x == c,
        forall|x: LoopCandidate| #[trigger] s.contains(x) ==> inserted(s, c).contains(x),
        inserted(s, c).to_multiset() == s.to_multiset().insert(c),
    decreases s.len(),
{
    let r = inserted(s, c);
    if s.len() == 0 {
        assert(r[0] == c);
        assert(r =~= s.push(c));
        s.to_multiset_ensures();
        assert(s.push(c).to_multiset() =~= s.to_multiset().insert(c));
    } else if key(s.last().quality_score) >= key(c.quality_score) {
        assert(r[s.len() as int] == c);
        assert forall|x: LoopCandidate| #[trigger] r.contains(x) implies (s.contains(x) || x
            == c) by {
            let k = choose|k: int| 0 <= k < r.len() && r[k] == x;
            if k < s.len() {
                assert(s[k] == x);
            }
        }
        assert forall|x: LoopCandidate| #[trigger] s.contains(x) implies r.contains(x) by {
            let k = choose|k: int| 0 <= k < s.len() && s[k] == x;
            assert(r[k] == x);
        }
        s.to_multiset_ensures();
        assert(s.push(c).to_multiset() =~= s.to_multiset().insert(c));
    } else {
        let head = s.drop_last();
        let inner = inserted(head, c);
        lemma_inserted(head, c);
        assert(r == inner.push(s.last()));
        assert(r.contains(c)) by {
            let k = choose|k: int| 0 <= k < inner.len() && inner[k] == c;
            assert(r[k] == c);
        }
        assert forall|x: LoopCandidate| #[trigger] r.contains(x) implies (s.contains(x) || x
            == c) by {
            let k = choose|k: int| 0 <= k < r.len() && r[k] == x;
            if k < inner.len() {
                assert(inner[k] == x);
                assert(inner.contains(x));
                if head.contains(x) {
                    let m = choose|m: int| 0 <= m < head.len() && head[m] == x;
                    assert(s[m] == x);
                }
            } else {
                assert(s[s.len() - 1] == x);
            }
        }
        assert forall|x: LoopCandidate| #[trigger] s.contains(x) implies r.contains(x) by {
            let m = choose|m: int| 0 <= m < s.len() && s[m] == x;
            if m < head.len() {
                assert(head[m] == x);
                assert(head.contains(x));
                assert(inner.contains(x));
                let k = choose|k: int| 0 <= k < inner.len() && inner[k] == x;
                assert(r[k] == x);
            } else {
                assert(r[r.len() - 1] == x);
            }
        }
        if falling(s) {
            assert(falling(head)) by {
                assert forall|k: int, l: int| 0 <= k < l < head.len() implies key(
                    #[trigger] head[k].quality_score,
                ) >= key(#[trigger] head[l].quality_score) by {
                    assert(head[k] == s[k] && head[l] == s[l]);
                }
            }
            assert forall|k: int, l: int| 0 <= k < l < r.len() implies key(
                #[trigger] r[k].quality_score,
            ) >= key(#[trigger] r[l].quality_score) by {
                if l < inner.len() {
                    assert(r[k] == inner[k] && r[l] == inner[l]);
                } else {
                    assert(r[k] == inner[k]);
                    assert(inner.contains(inner[k]));
                    if inner[k] != c {
                        assert(head.contains(inner[k]));
                        let m = choose|m: int| 0 <= m < head.len() && head[m] == inner[k];
                        assert(s[m] == head[m]);
                        assert(key(s[m].quality_score) >= key(s[s.len() - 1].quality_score));
                    }
                }
            }
        }
        head.to_multiset_ensures();
        inner.to_multiset_ensures();
        assert(s =~= head.push(s.last()));
        assert(head.push(s.last()).to_multiset() =~= head.to_multiset().insert(s.last()));
        assert(inner.push(s.last()).to_multiset() =~= inner.to_multiset().insert(s.last()));
        assert(r.to_multiset() =~= s.to_multiset().insert(c));
    }
}

/// A ranking is falling, as long as what was ranked, and holds the same
/// candidates as often.
pub proof fn lemma_ranked(s: Seq<LoopCandidate>)
    ensures
        ranked(s).len() == s.len(),
        falling(ranked(s)),
        forall|x: LoopCandidate| #[trigger] ranked(s).contains(x) ==> s.contains(x),
        forall|x: LoopCandidate| #[trigger] s.contains(x) ==> ranked(s).contains(x),
        ranked(s).to_multiset() == s.to_multiset(),
    decreases s.len(),
{
    if s.len() > 0 {
        let head = s.drop_last();
        lemma_ranked(head);
        lemma_inserted(ranked(head), s.last());
        assert forall|x: LoopCandidate| #[trigger] ranked(s).contains(x) implies s.contains(x) by {
            if x == s.last() {
                assert(s[s.len() - 1] == x);
            } else {
                assert(ranked(head).contains(x));
                assert(head.contains(x));
                let m = choose|m: int| 0 <= m < head.len() && head[m] == x;
                assert(s[m] == x);
            }
        }
        assert forall|x: LoopCandidate| #[trigger] s.contains(x) implies ranked(s).contains(x) by {
            let m = choose|m: int| 0 <= m < s.len() && s[m] == x;
            if m < head.len() {
                assert(head[m] == x);
                assert(head.contains(x));
                assert(ranked(head).contains(x));
            }
        }
        head.to_multiset_ensures();
        assert(s =~= head.push(s.last()));
        assert(head.push(s.last()).to_multiset() =~= head.to_multiset().insert(s.last()));
    } else {
        assert(ranked(s) =~= s);
    }
}

/// The candidates by falling quality.
pub fn rank(candidates: &Vec<LoopCandidate>) -> (out: Vec<LoopCandidate>)
    ensures
        out@ == ranked(candidates@),
{
    let mut out: Vec<LoopCandidate> = Vec::new();
    let mut i: usize = 0;
    while i < candidates.len()
        invariant
            i <= candidates@.len(),
            out@ == ranked(candidates@.take(i as int)),
            out@.len() == i,
        decreases candidates@.len() - i,
    {
        let c: LoopCandidate = candidates[i];
        let ck: i64 = word_key(c.quality_score);
        let mut p: usize = out.len();
        while p > 0 && word_key(out[p - 1].quality_score) < ck
            invariant
                p <= out@.len(),
                ck == key(c.quality_score),
                forall|k: int|
                    p <= k < out@.len() ==> key(#[trigger] out@[k].quality_score) < key(
                        c.quality_score,
                    ),
            decreases p,
        {
            p = p - 1;
        }
        proof {
            lemma_inserted_at(out@, c, p as int);
            assert(candidates@.take(i + 1).drop_last() =~= candidates@.take(i as int));
            assert(candidates@.take(i + 1).last() == c);
        }
        out.insert(p, c);
        i = i + 1;
    }
    assert(candidates@.take(candidates@.len() as int) =~= candidates@);
    out
}


/// Both ends of the candidate are zero crossings of the signal, the start
/// before the end.
pub open spec fn on_crossings(audio: Seq<u32>, c: LoopCandidate) -> bool {
    &&& is_crossing(audio, c.start_sample as int)
    &&& is_crossing(audio, c.end_sample as int)
    &&& c.start_sample < c.end_sample
}

impl LoopFailure {
    /// The reason in words.
    pub open spec fn words(self) -> Seq<char> {
        match self {
            LoopFailure::InsufficientCrossings => "Insufficient zero crossings found"@,
            LoopFailure::NoCandidates => "No valid loop candidates found"@,
            LoopFailure::LowQuality => "No high-quality loop candidates found"@,
        }
    }

    pub fn reason(self) -> (s: &'static str)
        ensures
            s@ == self.words(),
    {
        match self {
            LoopFailure::InsufficientCrossings => "Insufficient zero crossings found",
            LoopFailure::NoCandidates => "No valid loop candidates found",
            LoopFailure::LowQuality => "No high-quality loop candidates found",
        }
    }
}

impl LoopDetectionResult {
    /// A search that found nothing, for the given reason.
    pub open spec fn is_failure(&self, reason: LoopFailure) -> bool {
        &&& !self.success
        &&& self.best_candidate is None
        &&& self.all_candidates@.len() == 0
        &&& self.failure_reason == Some(reason)
    }
}

impl LoopDetector {
    /// The candidates of a signal: those proposed for its zero crossings.
    pub open spec fn candidates_of(&self, audio: Seq<u32>, sample_rate: u32) -> Seq<
        LoopCandidate,
    > {
        self.proposed(crossings(audio), audio.len() as int, sample_rate)
    }

    /// The candidates of a signal, not yet scored; none when the signal
    /// has fewer than four zero crossings.
    pub fn propose(&self, audio_data: &[u32], sample_rate: u32) -> (out: Vec<LoopCandidate>)
        ensures
            crossings(audio_data@).len() < 4 ==> out@.len() == 0,
            crossings(audio_data@).len() >= 4 ==> out@ == self.candidates_of(
                audio_data@,
                sample_rate,
            ),
            forall|k: int| 0 <= k < out@.len() ==> on_crossings(audio_data@, #[trigger] out@[k]),
    {
        let z = self.find_zero_crossings(audio_data);
        if z.len() < 4 {
            return Vec::new();
        }
        let out = self.generate_loop_candidates(z.as_slice(), audio_data.len(), sample_rate);
        proof {
            let shortest = samples_in(self.config.min_loop_length_ms, sample_rate);
            let longest = samples_in(self.config.max_loop_length_ms, sample_rate);
            let all = pairs_from(z@, shortest, longest, audio_data@.len() as int, 0, 1);
            lemma_pairs_from(z@, shortest, longest, audio_data@.len() as int, 0, 1);
            assert forall|k: int| 0 <= k < out@.len() implies on_crossings(
                audio_data@,
                #[trigger] out@[k],
            ) by {
                let c = out@[k];
                assert(c == all[k]);
                assert(between_crossings(z@, shortest, longest, audio_data@.len() as int, all[k]));
                let a = choose|a: int| 0 <= a < z@.len() && z@[a] == c.start_sample;
                let b = choose|b: int| 0 <= b < z@.len() && z@[b] == c.end_sample;
                assert(is_crossing(audio_data@, z@[a] as int));
                assert(is_crossing(audio_data@, z@[b] as int));
            }
        }
        out
    }

    /// What `detect_loop_points` returns for a signal and the scores of
    /// its candidates.
    pub open spec fn is_search_of(
        &self,
        audio: Seq<u32>,
        sample_rate: u32,
        scores: Seq<LoopScore>,
        r: Result<LoopDetectionResult, BatcherbirdError>,
    ) -> bool {
        let candidates = self.candidates_of(audio, sample_rate);
        if crossings(audio).len() < 4 {
            r matches Ok(d) && d.is_failure(LoopFailure::InsufficientCrossings)
        } else if candidates.len() == 0 {
            r matches Ok(d) && d.is_failure(LoopFailure::NoCandidates)
        } else if scores.len() != candidates.len() {
            r == Err::<LoopDetectionResult, BatcherbirdError>(
                (BatcherbirdError::TraceMismatch {
                    expected: candidates.len() as usize,
                    found: scores.len() as usize,
                }),
            )
        } else {
            let all = ranked(scored(candidates, scores));
            r matches Ok(d) && {
                &&& d.all_candidates@ == all
                &&& d.best_candidate == Some(all[0])
                &&& d.success == gt(all[0].quality_score, HALF)
                &&& d.failure_reason == if d.success {
                    None
                } else {
                    Some(LoopFailure::LowQuality)
                }
            }
        }
    }

    /// Searches a signal for loop points.
    ///
    /// `scores` holds the measurements of the candidates of `propose`, one
    /// for each and in their order; it is not looked at where there are no
    /// candidates.
    ///
    /// With fewer than four zero crossings the search fails with
    /// `InsufficientCrossings`, without a candidate with `NoCandidates`.
    /// Scores in another number than the candidates are refused with
    /// `TraceMismatch`. Otherwise all candidates are returned with their
    /// scores, by falling quality; the best is the first of them, and the
    /// search succeeds when its quality lies above one half, and fails
    /// with `LowQuality` when not. Every candidate returned starts and
    /// ends on a zero crossing of the signal.
    pub fn detect_loop_points(&self, audio_data: &[u32], sample_rate: u32, scores: &[LoopScore])
        -> (r: Result<LoopDetectionResult, BatcherbirdError>)
        ensures
            self.is_search_of(audio_data@, sample_rate, scores@, r),
            r matches Ok(d) ==> forall|k: int|
                0 <= k < d.all_candidates@.len() ==> on_crossings(
                    audio_data@,
                    #[trigger] d.all_candidates@[k],
                ),
    {
        let z = self.find_zero_crossings(audio_data);
        if z.len() < 4 {
            return Ok(
                LoopDetectionResult {
                    success: false,
                    best_candidate: None,
                    all_candidates: Vec::new(),
                    failure_reason: Some(LoopFailure::InsufficientCrossings),
                },
            );
        }
        let candidates = self.propose(audio_data, sample_rate);
        if candidates.len() == 0 {
            return Ok(
                LoopDetectionResult {
                    success: false,
                    best_candidate: None,
                    all_candidates: Vec::new(),
                    failure_reason: Some(LoopFailure::NoCandidates),
                },
            );
        }
        if scores.len() != candidates.len() {
            return Err(
                BatcherbirdError::TraceMismatch { expected: candidates.len(), found: scores.len() },
            );
        }
        let mut evaluated: Vec<LoopCandidate> = Vec::new();
        let mut i: usize = 0;
        while i < candidates.len()
            invariant
                i <= candidates@.len(),
                scores@.len() == candidates@.len(),
                evaluated@ == scored(candidates@, scores@).take(i as int),
            decreases candidates@.len() - i,
        {
            let c: LoopCandidate = candidates[i];
            let s: LoopScore = scores[i];
            evaluated.push(
                LoopCandidate {
                    start_sample: c.start_sample,
                    end_sample: c.end_sample,
                    length_samples: c.length_samples,
                    quality_score: s.quality,
                    zero_crossing_aligned: c.zero_crossing_aligned,
                    correlation: s.correlation,
                },
            );
            assert(evaluated@ =~= scored(candidates@, scores@).take(i + 1));
            i = i + 1;
        }
        assert(evaluated@ =~= scored(candidates@, scores@));
        let all = rank(&evaluated);
        proof {
            lemma_ranked(evaluated@);
            assert forall|k: int| 0 <= k < all@.len() implies on_crossings(
                audio_data@,
                #[trigger] all@[k],
            ) by {
                assert(all@.contains(all@[k]));
                assert(evaluated@.contains(all@[k]));
                let m = choose|m: int| 0 <= m < evaluated@.len() && evaluated@[m] == all@[k];
                assert(on_crossings(audio_data@, candidates@[m]));
            }
        }
        let best: LoopCandidate = all[0];
        let success: bool = word_gt(best.quality_score, HALF);
        Ok(
            LoopDetectionResult {
                success,
                best_candidate: Some(best),
                all_candidates: all,
                failure_reason: if success {
                    None
                } else {
                    Some(LoopFailure::LowQuality)
                },
            },
        )
    }
}


/// The samples `from..to` on either side of a loop point that its
/// correlation is measured on.
#[derive(Debug, Clone, Copy, PartialEq, Eq, Structural)]
pub struct Span {
    pub from: usize,
    pub to: usize,
}

/// A crossfade at the start of a loop: sample `from + i` is blended with
/// sample `source + i` for `i` below `count`, the weight of the second
/// rising as `i / length`.
#[derive(Debug, Clone, Copy, PartialEq, Eq, Structural)]
pub struct Crossfade {
    pub from: usize,
    pub source: usize,
    pub length: usize,
    pub count: usize,
}

/// Length of the windows that a correlation is measured on: 1024 samples,
/// or a tenth of the signal where that is less.
pub open spec fn correlation_window(len: int) -> int {
    least(1024, len / 10)
}

/// How far the two windows reach before their loop points: half a window,
/// or as far as the signal reaches before the earlier point; nothing when
/// a point lies beyond the signal.
pub open spec fn reach_before(len: int, start: int, end: int) -> int {
    if start > len || end > len {
        0
    } else {
        least(correlation_window(len) / 2, least(start, end))
    }
}

/// How far the two windows reach from their loop points on: half a
/// window, or as far as the signal reaches from the later point on.
pub open spec fn reach_after(len: int, start: int, end: int) -> int {
    let room = least(len - start, len - end);
    least(
        correlation_window(len) / 2,
        if room < 0 {
            0
        } else {
            room
        },
    )
}

impl LoopDetector {
    /// The two windows that the correlation of a loop is measured on, one
    /// around its start and one around its end. Both reach equally far
    /// before and after their loop point: half a window, or less where the
    /// signal ends sooner on either side of either point. `None`, for a
    /// correlation of zero, when they hold no sample.
    pub fn correlation_windows(&self, audio_len: usize, start_sample: usize, end_sample: usize)
        -> (r: Option<(Span, Span)>)
        ensures
            ({
                let before = reach_before(audio_len as int, start_sample as int, end_sample as int);
                let after = reach_after(audio_len as int, start_sample as int, end_sample as int);
                if before + after > 0 {
                    r == Some(
                        (
                            Span {
                                from: (start_sample - before) as usize,
                                to: (start_sample + after) as usize,
                            },
                            Span {
                                from: (end_sample - before) as usize,
                                to: (end_sample + after) as usize,
                            },
                        ),
                    )
                } else {
                    r is None
                }
            }),
            r matches Some(w) ==> w.0.from < w.0.to <= audio_len && w.1.from < w.1.to <= audio_len
                && w.0.to - w.0.from == w.1.to - w.1.from,
    {
        let window: usize = if audio_len / 10 < 1024 {
            audio_len / 10
        } else {
            1024
        };
        let half: usize = window / 2;
        let first: usize = if start_sample <= end_sample {
            start_sample
        } else {
            end_sample
        };
        let last: usize = if start_sample <= end_sample {
            end_sample
        } else {
            start_sample
        };
        if last > audio_len {
            return None;
        }
        let before: usize = if half <= first {
            half
        } else {
            first
        };
        let room: usize = audio_len - last;
        let after: usize = if half <= room {
            half
        } else {
            room
        };
        if before + after == 0 {
            return None;
        }
        Some(
            (
                Span { from: start_sample - before, to: start_sample + after },
                Span { from: end_sample - before, to: end_sample + after },
            ),
        )
    }

    /// Length of the configured crossfade in samples for a loop of
    /// `length` samples, or 0 where none is applied: when it holds no
    /// sample or is not shorter than half the loop.
    pub open spec fn crossfade_length(&self, length: int, sample_rate: u32) -> int {
        let cf = samples_in(self.config.crossfade_ms, sample_rate);
        if cf == 0 || cf >= length / 2 {
            0
        } else {
            cf
        }
    }

    /// The crossfade that a loop calls for in a signal of `len` samples.
    pub open spec fn crossfade_of(&self, len: int, c: LoopCandidate, sample_rate: u32) -> Option<
        Crossfade,
    > {
        let cf = self.crossfade_length(c.length_samples as int, sample_rate);
        if cf == 0 || cf > c.end_sample {
            None
        } else {
            let source = c.end_sample - cf;
            Some(
                (Crossfade {
                    from: c.start_sample,
                    source: source as usize,
                    length: cf as usize,
                    count: least(
                        cf,
                        least(
                            if len >= c.start_sample {
                                len - c.start_sample
                            } else {
                                0
                            },
                            if len >= source {
                                len - source
                            } else {
                                0
                            },
                        ),
                    ) as usize,
                }),
            )
        }
    }

    /// The crossfade to apply at the start of a loop, if any.
    ///
    /// None is applied when the configured crossfade holds no sample, is
    /// not shorter than half the loop, or is longer than what precedes the
    /// loop end. Otherwise the first `length` samples of the loop are
    /// blended with the `length` samples before its end, as far as both lie
    /// within the signal.
    pub fn apply_loop_with_crossfade(
        &self,
        audio_len: usize,
        loop_candidate: &LoopCandidate,
        sample_rate: u32,
    ) -> (r: Option<Crossfade>)
        ensures
            r == self.crossfade_of(audio_len as int, *loop_candidate, sample_rate),
            r matches Some(x) ==> x.count <= x.length && (x.count > 0 ==> x.from + x.count
                <= audio_len && x.source + x.count <= audio_len),
    {
        let cf: u64 = ms_to_samples(self.config.crossfade_ms, sample_rate);
        if cf == 0 || cf >= (loop_candidate.length_samples / 2) as u64 {
            return None;
        }
        if cf > loop_candidate.end_sample as u64 {
            return None;
        }
        let length: usize = cf as usize;
        let source: usize = loop_candidate.end_sample - length;
        let room_a: usize = if audio_len >= loop_candidate.start_sample {
            audio_len - loop_candidate.start_sample
        } else {
            0
        };
        let room_b: usize = if audio_len >= source {
            audio_len - source
        } else {
            0
        };
        let room: usize = if room_a <= room_b {
            room_a
        } else {
            room_b
        };
        let count: usize = if length <= room {
            length
        } else {
            room
        };
        Some(Crossfade { from: loop_candidate.start_sample, source, length, count })
    }
}

} // verus!
