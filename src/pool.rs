//! Sampler pool scheduling: ranking busy voices, matching queued requests to
//! voices, growing pools, expiring requests and reconciling effect chains.
use vstd::prelude::*;

verus! {

/// The playback priority of a sample; higher wins.
#[derive(Debug, Clone, Copy, PartialEq, Eq, PartialOrd, Ord, Hash, Structural)]
pub struct SamplePriority(pub i32);

/// How preemptible a sampler voice is; lower scores are preempted first.
#[derive(Debug, Clone, Copy, PartialEq, Eq, Structural)]
pub struct SamplerScore {
    /// The priority of the sample the voice plays (0 when idle).
    pub priority: SamplePriority,
    /// Whether the voice plays a looping sample.
    pub is_looping: bool,
    /// Whether the voice has an assignment at all.
    pub has_assignment: bool,
    /// The voice's own measure of how much work it has left.
    pub raw_score: u64,
}

impl Default for SamplerScore {
    fn default() -> (r: SamplerScore)
        ensures
            r == (SamplerScore {
                priority: SamplePriority(0),
                is_looping: false,
                has_assignment: false,
                raw_score: u64::MAX,
            }),
    {
        SamplerScore {
            priority: SamplePriority(0),
            is_looping: false,
            has_assignment: false,
            raw_score: u64::MAX,
        }
    }
}

/// A sort key, compared lexicographically.
pub type RankKey = (i64, u8, u8, u64);

/// Lexicographic order on sort keys.
pub open spec fn key_less(a: RankKey, b: RankKey) -> bool {
    a.0 < b.0 || (a.0 == b.0 && (a.1 < b.1 || (a.1 == b.1 && (a.2 < b.2 || (a.2 == b.2
        && a.3 < b.3)))))
}

/// Item `a` comes before item `b`: by key, then by index.
pub open spec fn ranked_before(keys: Seq<RankKey>, a: int, b: int) -> bool {
    key_less(keys[a], keys[b]) || (keys[a] == keys[b] && a < b)
}

/// `order` lists every index of `keys` once, ascending by key and, among
/// equal keys, by index (a stable sort).
pub open spec fn is_ranking(keys: Seq<RankKey>, order: Seq<usize>) -> bool {
    &&& order.len() == keys.len()
    &&& forall|i: int| 0 <= i < order.len() ==> (#[trigger] order[i] as int) < keys.len()
    &&& forall|x: usize| (x as int) < keys.len() ==> #[trigger] order.contains(x)
    &&& forall|i: int, j: int|
        0 <= i < j < order.len() ==> ranked_before(
            keys,
            #[trigger] order[i] as int,
            #[trigger] order[j] as int,
        )
}

/// A list of keys has exactly one ranking: the stable ascending order is
/// fully determined by the keys.
pub proof fn lemma_ranking_unique(keys: Seq<RankKey>, a: Seq<usize>, b: Seq<usize>)
    requires
        is_ranking(keys, a),
        is_ranking(keys, b),
    ensures
        a == b,
{
    assert forall|i: int| 0 <= i < a.len() implies a[i] == b[i] by {
        lemma_ranking_position(keys, a, b, i);
    }
    assert(a =~= b);
}

proof fn lemma_ranking_position(keys: Seq<RankKey>, a: Seq<usize>, b: Seq<usize>, i: int)
    requires
        is_ranking(keys, a),
        is_ranking(keys, b),
        0 <= i < a.len(),
    ensures
        a[i] == b[i],
    decreases i,
{
    if i > 0 {
        lemma_ranking_position(keys, a, b, i - 1);
    }
    if a[i] != b[i] {
        // b[i] sits in a at some k, and a[i] sits in b at some l
        assert(a.contains(b[i]));
        let k = choose|k: int| 0 <= k < a.len() && a[k] == b[i];
        assert(b.contains(a[i]));
        let l = choose|l: int| 0 <= l < b.len() && b[l] == a[i];
        if k < i {
            lemma_ranking_position(keys, a, b, k);
            assert(ranked_before(keys, b[k] as int, b[i] as int));
        }
        if l < i {
            lemma_ranking_position(keys, a, b, l);
            assert(ranked_before(keys, a[l] as int, a[i] as int));
        }
        assert(k > i && l > i);
        assert(ranked_before(keys, a[i] as int, a[k] as int));
        assert(ranked_before(keys, b[i] as int, b[l] as int));
    }
}

fn key_lt(a: &RankKey, b: &RankKey) -> (r: bool)
    ensures
        r == key_less(*a, *b),
{
    a.0 < b.0 || (a.0 == b.0 && (a.1 < b.1 || (a.1 == b.1 && (a.2 < b.2 || (a.2 == b.2 && a.3
        < b.3)))))
}

/// The indices of `keys`, stably sorted ascending by key.
pub fn rank_by_keys(keys: &Vec<RankKey>) -> (r: Vec<usize>)
    ensures
        is_ranking(keys@, r@),
{
    let n = keys.len();
    let mut order: Vec<usize> = Vec::new();
    let mut k: usize = 0;
    while k < n
        invariant
            k <= n,
            n == keys@.len(),
            order@.len() == k,
            forall|i: int| 0 <= i < order@.len() ==> (#[trigger] order@[i] as int) < k,
            forall|x: usize| x < k ==> #[trigger] order@.contains(x),
            forall|i: int, j: int|
                0 <= i < j < order@.len() ==> ranked_before(
                    keys@,
                    #[trigger] order@[i] as int,
                    #[trigger] order@[j] as int,
                ),
        decreases n - k,
    {
        let mut p: usize = 0;
        while p < order.len() && !key_lt(&keys[k], &keys[order[p]])
            invariant
                p <= order@.len(),
                k < n,
                n == keys@.len(),
                forall|i: int| 0 <= i < order@.len() ==> (#[trigger] order@[i] as int) < k,
                forall|i: int| 0 <= i < p ==> !key_less(keys@[k as int], keys@[#[trigger] order@[i] as int]),
            decreases order@.len() - p,
        {
            p += 1;
        }
        let ghost before = order@;
        order.insert(p, k);
        proof {
            assert forall|x: usize| x < k + 1 implies #[trigger] order@.contains(x) by {
                if x == k {
                    assert(order@[p as int] == k);
                } else {
                    assert(before.contains(x));
                    let w = choose|w: int| 0 <= w < before.len() && before[w] == x;
                    if w < p {
                        assert(order@[w] == x);
                    } else {
                        assert(order@[w + 1] == x);
                    }
                }
            }
            assert forall|i: int, j: int|
                0 <= i < j < order@.len() implies ranked_before(
                keys@,
                #[trigger] order@[i] as int,
                #[trigger] order@[j] as int,
            ) by {
                if i < p && j < p {
                    assert(order@[i] == before[i] && order@[j] == before[j]);
                } else if i < p && j == p {
                    assert(order@[i] == before[i]);
                } else if i < p {
                    assert(order@[i] == before[i] && order@[j] == before[j - 1]);
                } else if i == p {
                    assert(order@[j] == before[j - 1]);
                    assert(key_less(keys@[k as int], keys@[before[p as int] as int]));
                    if j - 1 > p {
                        assert(ranked_before(keys@, before[p as int] as int, before[j - 1] as int));
                    }
                } else {
                    assert(order@[i] == before[i - 1] && order@[j] == before[j - 1]);
                }
            }
        }
        k += 1;
    }
    order
}

/// The sort key of a voice: priority, then looping, then assignment, then
/// raw score.
pub open spec fn score_key(s: SamplerScore) -> RankKey {
    (
        s.priority.0 as i64,
        if s.is_looping { 1u8 } else { 0u8 },
        if s.has_assignment { 1u8 } else { 0u8 },
        s.raw_score,
    )
}

pub open spec fn score_keys(scores: Seq<SamplerScore>) -> Seq<RankKey> {
    scores.map_values(|s: SamplerScore| score_key(s))
}

/// The indices of `scores`, most preemptible first: ascending by priority,
/// then looping, then assignment, then raw score; equal scores keep their
/// order.
pub fn rank_samplers(scores: &Vec<SamplerScore>) -> (r: Vec<usize>)
    ensures
        is_ranking(score_keys(scores@), r@),
{
    let mut keys: Vec<RankKey> = Vec::new();
    let mut i: usize = 0;
    while i < scores.len()
        invariant
            i <= scores@.len(),
            keys@ == score_keys(scores@).subrange(0, i as int),
        decreases scores@.len() - i,
    {
        let s = scores[i];
        keys.push(
            (
                s.priority.0 as i64,
                if s.is_looping { 1u8 } else { 0u8 },
                if s.has_assignment { 1u8 } else { 0u8 },
                s.raw_score,
            ),
        );
        i += 1;
        assert(keys@ =~= score_keys(scores@).subrange(0, i as int));
    }
    assert(keys@ =~= score_keys(scores@));
    rank_by_keys(&keys)
}

/// The indices of `scores` (each voice's measure of the work it has left),
/// highest score first; equal scores keep their order.
pub fn rank_nodes(scores: &Vec<u64>) -> (r: Vec<usize>)
    ensures
        is_ranking(scores@.map_values(|s: u64| (0i64, 0u8, 0u8, (u64::MAX - s) as u64)), r@),
{
    let mut keys: Vec<RankKey> = Vec::new();
    let mut i: usize = 0;
    while i < scores.len()
        invariant
            i <= scores@.len(),
            keys@ == scores@.subrange(0, i as int).map_values(
                |s: u64| (0i64, 0u8, 0u8, (u64::MAX - s) as u64),
            ),
        decreases scores@.len() - i,
    {
        keys.push((0i64, 0u8, 0u8, u64::MAX - scores[i]));
        i += 1;
        assert(keys@ =~= scores@.subrange(0, i as int).map_values(
            |s: u64| (0i64, 0u8, 0u8, (u64::MAX - s) as u64),
        ));
    }
    assert(scores@.subrange(0, scores@.len() as int) =~= scores@);
    rank_by_keys(&keys)
}

/// A queued request for sample playback.
#[derive(Debug, Clone, Copy, PartialEq, Eq, Structural)]
pub struct SampleRequest {
    /// The request's priority.
    pub priority: SamplePriority,
    /// Whether the sample loops (as opposed to playing once).
    pub looping: bool,
}

/// The sort key of a request: descending priority, looping before one-shot.
pub open spec fn request_key(q: SampleRequest) -> RankKey {
    ((-(q.priority.0 as int)) as i64, if q.looping { 0u8 } else { 1u8 }, 0u8, 0u64)
}

pub open spec fn request_keys(requests: Seq<SampleRequest>) -> Seq<RankKey> {
    requests.map_values(|q: SampleRequest| request_key(q))
}

/// The indices of `requests`, most important first: descending priority,
/// looping requests before one-shots; equal requests keep their order.
pub fn rank_requests(requests: &Vec<SampleRequest>) -> (r: Vec<usize>)
    ensures
        is_ranking(request_keys(requests@), r@),
{
    let mut keys: Vec<RankKey> = Vec::new();
    let mut i: usize = 0;
    while i < requests.len()
        invariant
            i <= requests@.len(),
            keys@ == request_keys(requests@).subrange(0, i as int),
        decreases requests@.len() - i,
    {
        let q = requests[i];
        keys.push((-(q.priority.0 as i64), if q.looping { 0u8 } else { 1u8 }, 0u8, 0u64));
        i += 1;
        assert(keys@ =~= request_keys(requests@).subrange(0, i as int));
    }
    assert(keys@ =~= request_keys(requests@));
    rank_by_keys(&keys)
}

/// A request matched to a voice.
#[derive(Debug, Clone, Copy, PartialEq, Eq, Structural)]
pub struct Assignment {
    /// The index of the request.
    pub request: usize,
    /// The index of the voice.
    pub voice: usize,
}

/// The indices of the idle voices among the first `n`, in order.
pub open spec fn idle_prefix(voices: Seq<SamplerScore>, n: int) -> Seq<usize>
    decreases n,
{
    if n <= 0 {
        seq![]
    } else if voices[n - 1].has_assignment {
        idle_prefix(voices, n - 1)
    } else {
        idle_prefix(voices, n - 1).push((n - 1) as usize)
    }
}

/// The indices of the idle voices, in order.
pub open spec fn idle_voices(voices: Seq<SamplerScore>) -> Seq<usize> {
    idle_prefix(voices, voices.len() as int)
}

/// The `k`-th pairing of ranked voices with ranked requests is blocked: the
/// voice plays something more important than the request.
pub open spec fn blocked(
    voices: Seq<SamplerScore>,
    requests: Seq<SampleRequest>,
    vr: Seq<usize>,
    rr: Seq<usize>,
    k: int,
) -> bool {
    voices[vr[k] as int].priority.0 > requests[rr[k] as int].priority.0
}

/// The `k`-th pairing is skipped: the voice loops and the request does not.
pub open spec fn skipped(
    voices: Seq<SamplerScore>,
    requests: Seq<SampleRequest>,
    vr: Seq<usize>,
    rr: Seq<usize>,
    k: int,
) -> bool {
    voices[vr[k] as int].is_looping && !requests[rr[k] as int].looping
}

/// The first blocked pairing at or after `k`, or `m` if none is.
pub open spec fn first_blocked(
    voices: Seq<SamplerScore>,
    requests: Seq<SampleRequest>,
    vr: Seq<usize>,
    rr: Seq<usize>,
    k: int,
    m: int,
) -> int
    decreases m - k,
{
    if k >= m {
        m
    } else if blocked(voices, requests, vr, rr, k) {
        k
    } else {
        first_blocked(voices, requests, vr, rr, k + 1, m)
    }
}

/// The assignments made by the first `k` pairings that are not skipped.
pub open spec fn scored_pairs(
    voices: Seq<SamplerScore>,
    requests: Seq<SampleRequest>,
    vr: Seq<usize>,
    rr: Seq<usize>,
    k: int,
) -> Seq<Assignment>
    decreases k,
{
    if k <= 0 {
        seq![]
    } else if skipped(voices, requests, vr, rr, k - 1) {
        scored_pairs(voices, requests, vr, rr, k - 1)
    } else {
        scored_pairs(voices, requests, vr, rr, k - 1).push(
            Assignment { request: rr[k - 1], voice: vr[k - 1] },
        )
    }
}

/// The assignments of the scored path, given the rankings: pairings in rank
/// order up to the first blocked one, leaving out the skipped ones.
pub open spec fn contended_assignments(
    voices: Seq<SamplerScore>,
    requests: Seq<SampleRequest>,
    vr: Seq<usize>,
    rr: Seq<usize>,
) -> Seq<Assignment> {
    let m = if voices.len() < requests.len() {
        voices.len() as int
    } else {
        requests.len() as int
    };
    scored_pairs(voices, requests, vr, rr, first_blocked(voices, requests, vr, rr, 0, m))
}

proof fn lemma_first_blocked_from(
    voices: Seq<SamplerScore>,
    requests: Seq<SampleRequest>,
    vr: Seq<usize>,
    rr: Seq<usize>,
    i: int,
    k: int,
    m: int,
)
    requires
        0 <= i <= k <= m,
        forall|j: int| i <= j < k ==> !#[trigger] blocked(voices, requests, vr, rr, j),
    ensures
        first_blocked(voices, requests, vr, rr, i, m) == first_blocked(voices, requests, vr, rr, k, m),
    decreases k - i,
{
    if i < k {
        lemma_first_blocked_from(voices, requests, vr, rr, i + 1, k, m);
    }
}

/// `r` is how requests are matched to voices: with enough idle voices,
/// request `i` goes to the `i`-th idle voice; otherwise the contended
/// assignments under the rankings of voices and requests.
pub open spec fn assigns(voices: Seq<SamplerScore>, requests: Seq<SampleRequest>, r: Seq<Assignment>) -> bool {
    &&& idle_voices(voices).len() >= requests.len() ==> r == Seq::new(
        requests.len(),
        |i: int| Assignment { request: i as usize, voice: idle_voices(voices)[i] },
    )
    &&& idle_voices(voices).len() < requests.len() ==> exists|vr: Seq<usize>, rr: Seq<usize>|
        is_ranking(score_keys(voices), vr) && is_ranking(request_keys(requests), rr) && r
            == contended_assignments(voices, requests, vr, rr)
}

/// Match queued requests of one pool to its voices.
///
/// When there are at least as many idle voices as requests, request `i`
/// goes to the `i`-th idle voice. Otherwise voices are ranked most
/// preemptible first and requests most important first, and they are paired
/// in rank order: the scan stops at the first pairing whose voice plays a
/// higher priority than the request, and a pairing of a looping voice with a
/// one-shot request is skipped.
pub fn assign_work(voices: &Vec<SamplerScore>, requests: &Vec<SampleRequest>) -> (r: Vec<Assignment>)
    ensures
        assigns(voices@, requests@, r@),
{
    let mut idle: Vec<usize> = Vec::new();
    let mut i: usize = 0;
    while i < voices.len()
        invariant
            i <= voices@.len(),
            idle@ == idle_prefix(voices@, i as int),
        decreases voices@.len() - i,
    {
        if !voices[i].has_assignment {
            idle.push(i);
        }
        i += 1;
    }
    let mut out: Vec<Assignment> = Vec::new();
    if idle.len() >= requests.len() {
        let mut q: usize = 0;
        while q < requests.len()
            invariant
                q <= requests@.len(),
                idle@ == idle_voices(voices@),
                idle@.len() >= requests@.len(),
                out@ == Seq::new(
                    q as nat,
                    |j: int| Assignment { request: j as usize, voice: idle@[j] },
                ),
            decreases requests@.len() - q,
        {
            out.push(Assignment { request: q, voice: idle[q] });
            q += 1;
            assert(out@ =~= Seq::new(
                q as nat,
                |j: int| Assignment { request: j as usize, voice: idle@[j] },
            ));
        }
        return out;
    }
    let vr = rank_samplers(voices);
    let rr = rank_requests(requests);
    let m = if voices.len() < requests.len() {
        voices.len()
    } else {
        requests.len()
    };
    let mut k: usize = 0;
    while k < m
        invariant
            k <= m,
            m as int == (if voices@.len() < requests@.len() {
                voices@.len() as int
            } else {
                requests@.len() as int
            }),
            is_ranking(score_keys(voices@), vr@),
            is_ranking(request_keys(requests@), rr@),
            forall|j: int| 0 <= j < k ==> !#[trigger] blocked(voices@, requests@, vr@, rr@, j),
            out@ == scored_pairs(voices@, requests@, vr@, rr@, k as int),
        ensures
            k <= m,
            k < m ==> blocked(voices@, requests@, vr@, rr@, k as int),
        decreases m - k,
    {
        let v = voices[vr[k]];
        let q = requests[rr[k]];
        if v.priority.0 > q.priority.0 {
            break;
        }
        if !(v.is_looping && !q.looping) {
            out.push(Assignment { request: rr[k], voice: vr[k] });
        }
        k += 1;
    }
    proof {
        lemma_first_blocked_from(voices@, requests@, vr@, rr@, 0, k as int, m as int);
        assert(first_blocked(voices@, requests@, vr@, rr@, k as int, m as int) == k);
        assert(out@ == contended_assignments(voices@, requests@, vr@, rr@));
        assert(idle@.len() < requests@.len());
    }
    out
}

proof fn lemma_first_blocked_le(
    voices: Seq<SamplerScore>,
    requests: Seq<SampleRequest>,
    vr: Seq<usize>,
    rr: Seq<usize>,
    k: int,
    m: int,
)
    requires
        0 <= k,
        0 <= m,
    ensures
        first_blocked(voices, requests, vr, rr, k, m) <= m,
        k <= m ==> k <= first_blocked(voices, requests, vr, rr, k, m),
    decreases m - k,
{
    if k < m {
        lemma_first_blocked_le(voices, requests, vr, rr, k + 1, m);
    }
}

proof fn lemma_scored_pairs_bounds(
    voices: Seq<SamplerScore>,
    requests: Seq<SampleRequest>,
    vr: Seq<usize>,
    rr: Seq<usize>,
    k: int,
)
    requires
        is_ranking(score_keys(voices), vr),
        is_ranking(request_keys(requests), rr),
        0 <= k <= voices.len(),
        k <= requests.len(),
    ensures
        forall|j: int|
            0 <= j < scored_pairs(voices, requests, vr, rr, k).len() ==> (#[trigger] scored_pairs(
                voices,
                requests,
                vr,
                rr,
                k,
            )[j]).request < requests.len() && scored_pairs(voices, requests, vr, rr, k)[j].voice
                < voices.len(),
    decreases k,
{
    if k > 0 {
        lemma_scored_pairs_bounds(voices, requests, vr, rr, k - 1);
        assert(rr[k - 1] < request_keys(requests).len());
        assert(vr[k - 1] < score_keys(voices).len());
        let prev = scored_pairs(voices, requests, vr, rr, k - 1);
        let cur = scored_pairs(voices, requests, vr, rr, k);
        assert forall|j: int| 0 <= j < cur.len() implies (#[trigger] cur[j]).request
            < requests.len() && cur[j].voice < voices.len() by {
            if j < prev.len() {
                assert(cur[j] == prev[j]);
            }
        }
    }
}

/// Every assignment names a request and a voice that exist.
pub proof fn lemma_assignments_in_range(
    voices: Seq<SamplerScore>,
    requests: Seq<SampleRequest>,
    r: Seq<Assignment>,
)
    requires
        assigns(voices, requests, r),
    ensures
        forall|j: int|
            0 <= j < r.len() ==> (#[trigger] r[j]).request < requests.len() && r[j].voice
                < voices.len(),
    decreases voices.len(),
{
    if idle_voices(voices).len() >= requests.len() {
        assert forall|j: int| 0 <= j < r.len() implies (#[trigger] r[j]).request < requests.len()
            && r[j].voice < voices.len() by {
            lemma_idle_prefix_bounds(voices, voices.len() as int);
            assert(idle_voices(voices)[j] < voices.len());
        }
    } else {
        let (vr, rr) = choose|vr: Seq<usize>, rr: Seq<usize>|
            is_ranking(score_keys(voices), vr) && is_ranking(request_keys(requests), rr) && r
                == contended_assignments(voices, requests, vr, rr);
        let m = if voices.len() < requests.len() {
            voices.len() as int
        } else {
            requests.len() as int
        };
        lemma_first_blocked_le(voices, requests, vr, rr, 0, m);
        lemma_scored_pairs_bounds(
            voices,
            requests,
            vr,
            rr,
            first_blocked(voices, requests, vr, rr, 0, m),
        );
    }
}

proof fn lemma_idle_prefix_bounds(voices: Seq<SamplerScore>, n: int)
    requires
        0 <= n <= voices.len(),
    ensures
        forall|j: int|
            0 <= j < idle_prefix(voices, n).len() ==> (#[trigger] idle_prefix(voices, n)[j]) < n,
    decreases n,
{
    if n > 0 {
        lemma_idle_prefix_bounds(voices, n - 1);
        let prev = idle_prefix(voices, n - 1);
        let cur = idle_prefix(voices, n);
        assert forall|j: int| 0 <= j < cur.len() implies (#[trigger] cur[j]) < n by {
            if j < prev.len() {
                assert(cur[j] == prev[j]);
            }
        }
    }
}

/// A queued request and whether its sample has finished loading.
#[derive(Debug, Clone, Copy, PartialEq, Eq, Structural)]
pub struct QueuedRequest {
    pub request: SampleRequest,
    pub loaded: bool,
}

/// The indices of the loaded requests among the first `n`, in order.
pub open spec fn loaded_prefix(queued: Seq<QueuedRequest>, n: int) -> Seq<usize>
    decreases n,
{
    if n <= 0 {
        seq![]
    } else if queued[n - 1].loaded {
        loaded_prefix(queued, n - 1).push((n - 1) as usize)
    } else {
        loaded_prefix(queued, n - 1)
    }
}

/// The indices of the loaded requests, in order.
pub open spec fn loaded_indices(queued: Seq<QueuedRequest>) -> Seq<usize> {
    loaded_prefix(queued, queued.len() as int)
}

/// The loaded requests, in order.
pub open spec fn loaded_requests(queued: Seq<QueuedRequest>) -> Seq<SampleRequest> {
    loaded_indices(queued).map_values(|i: usize| queued[i as int].request)
}

/// Match the queued requests of one pool to its voices, leaving out
/// requests whose sample has not loaded yet: those stay queued. The loaded
/// requests are matched as [`assign_work`] matches them, and each
/// assignment names its request by its index in `queued`.
pub fn assign_loaded(voices: &Vec<SamplerScore>, queued: &Vec<QueuedRequest>) -> (r: Vec<Assignment>)
    ensures
        exists|inner: Seq<Assignment>|
            assigns(voices@, loaded_requests(queued@), inner) && r@ == inner.map_values(
                |a: Assignment|
                    Assignment { request: loaded_indices(queued@)[a.request as int], voice: a.voice },
            ),
        forall|j: int|
            0 <= j < r@.len() ==> (#[trigger] r@[j]).request < queued@.len() && queued@[r@[j].request as int].loaded,
{
    let mut index: Vec<usize> = Vec::new();
    let mut requests: Vec<SampleRequest> = Vec::new();
    let mut i: usize = 0;
    while i < queued.len()
        invariant
            i <= queued@.len(),
            index@ == loaded_prefix(queued@, i as int),
            requests@ == index@.map_values(|k: usize| queued@[k as int].request),
            forall|j: int| 0 <= j < index@.len() ==> (#[trigger] index@[j]) < i && queued@[index@[j] as int].loaded,
        decreases queued@.len() - i,
    {
        if queued[i].loaded {
            index.push(i);
            requests.push(queued[i].request);
        }
        i += 1;
        assert(requests@ =~= index@.map_values(|k: usize| queued@[k as int].request));
    }
    let inner = assign_work(voices, &requests);
    proof {
        lemma_assignments_in_range(voices@, requests@, inner@);
        assert(requests@ =~= loaded_requests(queued@));
    }
    let mut out: Vec<Assignment> = Vec::new();
    let mut k: usize = 0;
    while k < inner.len()
        invariant
            k <= inner@.len(),
            index@ == loaded_indices(queued@),
            requests@.len() == index@.len(),
            forall|j: int| 0 <= j < index@.len() ==> (#[trigger] index@[j]) < queued@.len() && queued@[index@[j] as int].loaded,
            forall|j: int|
                0 <= j < inner@.len() ==> (#[trigger] inner@[j]).request < requests@.len(),
            out@ == inner@.subrange(0, k as int).map_values(
                |a: Assignment| Assignment { request: index@[a.request as int], voice: a.voice },
            ),
        decreases inner@.len() - k,
    {
        let a = inner[k];
        out.push(Assignment { request: index[a.request], voice: a.voice });
        k += 1;
        assert(out@ =~= inner@.subrange(0, k as int).map_values(
            |a: Assignment| Assignment { request: index@[a.request as int], voice: a.voice },
        ));
    }
    assert(inner@.subrange(0, inner@.len() as int) =~= inner@);
    assert(out@ =~= inner@.map_values(
        |a: Assignment|
            Assignment { request: loaded_indices(queued@)[a.request as int], voice: a.voice },
    ));
    out
}

/// The most voices a pool grows by at once when fewer are missing.
pub const GROWTH_STEP: usize = 16;

/// The size a pool grows to, given its size, its upper bound, how many of
/// its voices are idle and how many loaded requests wait for it.
pub open spec fn spec_grown_size(size: int, max_size: int, idle: int, queued: int) -> int {
    if idle >= queued || size >= max_size {
        size
    } else {
        let missing = queued - idle;
        let step = if size < GROWTH_STEP { size } else { GROWTH_STEP as int };
        let growth = if missing > step { missing } else { step };
        if size + growth < max_size {
            size + growth
        } else {
            max_size
        }
    }
}

/// The size a pool grows to: unchanged when enough voices are idle or the
/// pool is at its bound; otherwise by the larger of the shortfall and
/// `min(size, 16)`, up to the bound.
pub fn grown_size(size: usize, max_size: usize, idle: usize, queued: usize) -> (r: usize)
    ensures
        r as int == spec_grown_size(size as int, max_size as int, idle as int, queued as int),
{
    if idle >= queued || size >= max_size {
        return size;
    }
    let missing = queued - idle;
    let step = if size < GROWTH_STEP {
        size
    } else {
        GROWTH_STEP
    };
    let growth = if missing > step {
        missing
    } else {
        step
    };
    if growth < max_size - size {
        size + growth
    } else {
        max_size
    }
}

/// A queued request as the growth pass sees it: its pool's label and
/// whether its sample has finished loading.
#[derive(Debug, Clone, Copy, PartialEq, Eq, Structural)]
pub struct WaitingSample {
    pub label: u64,
    pub loaded: bool,
}

/// How many of the first `n` queued requests are loaded and wait for `label`.
pub open spec fn waiting_for(queued: Seq<WaitingSample>, label: u64, n: int) -> nat
    decreases n,
{
    if n <= 0 {
        0
    } else if queued[n - 1].loaded && queued[n - 1].label == label {
        waiting_for(queued, label, n - 1) + 1
    } else {
        waiting_for(queued, label, n - 1)
    }
}

/// The size a pool with label `label`, voices `voices` and upper bound
/// `max_size` grows to, given every queued request: loaded requests for
/// this label count against its idle voices.
pub fn grow_pool(label: u64, voices: &Vec<SamplerScore>, max_size: usize, queued: &Vec<WaitingSample>) -> (r: usize)
    ensures
        r as int == spec_grown_size(
            voices@.len() as int,
            max_size as int,
            idle_voices(voices@).len() as int,
            waiting_for(queued@, label, queued@.len() as int) as int,
        ),
{
    let mut idle: usize = 0;
    let mut i: usize = 0;
    while i < voices.len()
        invariant
            i <= voices@.len(),
            idle as int == idle_prefix(voices@, i as int).len(),
            idle <= i,
        decreases voices@.len() - i,
    {
        if !voices[i].has_assignment {
            idle += 1;
        }
        i += 1;
    }
    let mut waiting: usize = 0;
    let mut k: usize = 0;
    while k < queued.len()
        invariant
            k <= queued@.len(),
            waiting as int == waiting_for(queued@, label, k as int),
            waiting <= k,
        decreases queued@.len() - k,
    {
        if queued[k].loaded && queued[k].label == label {
            waiting += 1;
        }
        k += 1;
    }
    grown_size(voices.len(), max_size, idle, waiting)
}

/// How long a loaded request may wait for a voice, in nanoseconds.
#[derive(Debug, Clone, Copy, PartialEq, Eq, Structural)]
pub struct SampleQueueLifetime(pub u64);

impl Default for SampleQueueLifetime {
    /// One hundred milliseconds.
    fn default() -> (r: SampleQueueLifetime)
        ensures
            r.0 == 100_000_000,
    {
        SampleQueueLifetime(100_000_000)
    }
}

/// How long a loaded request has waited for a voice, in nanoseconds.
#[derive(Debug, Clone, Copy, PartialEq, Eq, Structural)]
pub struct SkipTimer {
    pub elapsed: u64,
}

impl SkipTimer {
    /// A timer that has not run yet.
    pub fn new() -> (r: SkipTimer)
        ensures
            r.elapsed == 0,
    {
        SkipTimer { elapsed: 0 }
    }

    /// Advance by `delta` nanoseconds (saturating); returns whether the
    /// request has now waited its whole lifetime and counts as complete.
    pub fn tick(&mut self, delta: u64, lifetime: SampleQueueLifetime) -> (expired: bool)
        ensures
            final(self).elapsed == (if old(self).elapsed + delta > u64::MAX {
                u64::MAX as int
            } else {
                old(self).elapsed + delta
            }),
            expired == (final(self).elapsed >= lifetime.0),
    {
        self.elapsed = self.elapsed.saturating_add(delta);
        self.elapsed >= lifetime.0
    }
}

/// Where one effect of a voice's chain comes from.
#[derive(Debug, Clone, Copy, PartialEq, Eq, Structural)]
pub enum EffectSlot {
    /// The request's own effect at this index.
    Reuse(usize),
    /// A fresh clone of the pool's template effect.
    Clone,
}

/// How to give an assigned voice the effect chain its pool declares.
#[derive(Debug, Clone, PartialEq, Eq)]
pub enum EffectPlan {
    /// The pool has no effects; `stray` tells whether the request brought
    /// some anyway (worth a warning).
    Effectless { stray: bool },
    /// The request brought no effects: clone the pool's whole template.
    CloneTemplate,
    /// The request's effects already have the pool's shape.
    Matching,
    /// One slot per pool effect, in the pool's order; `foreign` tells whether
    /// the request brought an effect type the pool does not declare.
    Remap { slots: Vec<EffectSlot>, foreign: bool },
}

/// The index of the first occurrence of `x` in `s`, if any.
pub open spec fn first_index(s: Seq<u64>, x: u64) -> Option<int> {
    if s.contains(x) {
        Some(choose|i: int| 0 <= i < s.len() && s[i] == x && forall|j: int| 0 <= j < i ==> s[j] != x)
    } else {
        None
    }
}

/// The slot of a pool effect of type `id`, given the request's effect types.
pub open spec fn slot_for(request: Seq<u64>, id: u64) -> EffectSlot {
    match first_index(request, id) {
        Some(i) => EffectSlot::Reuse(i as usize),
        None => EffectSlot::Clone,
    }
}

fn find_first(s: &Vec<u64>, x: u64) -> (r: Option<usize>)
    ensures
        r matches Some(i) ==> Some(i as int) == first_index(s@, x),
        r is None ==> first_index(s@, x) is None,
{
    let mut i: usize = 0;
    while i < s.len()
        invariant
            i <= s@.len(),
            forall|j: int| 0 <= j < i ==> s@[j] != x,
        decreases s@.len() - i,
    {
        if s[i] == x {
            proof {
                // no earlier element is `x`, and this one is
                assert(s@[i as int] == x);
                assert(first_index(s@, x) == Some(i as int));
            }
            return Some(i);
        }
        i += 1;
    }
    None
}

fn same_ids(a: &Vec<u64>, b: &Vec<u64>) -> (r: bool)
    ensures
        r == (a@ == b@),
{
    if a.len() != b.len() {
        return false;
    }
    let mut i: usize = 0;
    while i < a.len()
        invariant
            i <= a@.len(),
            a@.len() == b@.len(),
            forall|j: int| 0 <= j < i ==> a@[j] == b@[j],
        decreases a@.len() - i,
    {
        if a[i] != b[i] {
            return false;
        }
        i += 1;
    }
    assert(a@ =~= b@);
    true
}

/// Plan the effect chain of a voice assigned to a request. `pool_shape` is
/// the pool's effect types in order (`None` for an effect-less pool);
/// `request` is the request's own effect types, if it brought any.
pub fn reconcile_effects(pool_shape: &Option<Vec<u64>>, request: &Option<Vec<u64>>) -> (r: EffectPlan)
    ensures
        pool_shape is None ==> r == (EffectPlan::Effectless { stray: (request is Some) }),
        pool_shape is Some && request is None ==> r == EffectPlan::CloneTemplate,
        pool_shape is Some && request is Some && request->0@ == pool_shape->0@ ==> r
            == EffectPlan::Matching,
        pool_shape is Some && request is Some && request->0@ != pool_shape->0@ ==> ({
            &&& r is Remap
            &&& r->Remap_slots@ == pool_shape->0@.map_values(|id: u64| slot_for(request->0@, id))
            &&& r->Remap_foreign == (exists|i: int|
                0 <= i < request->0@.len() && !pool_shape->0@.contains(#[trigger] request->0@[i]))
        }),
{
    match pool_shape {
        None => EffectPlan::Effectless { stray: request.is_some() },
        Some(shape) => match request {
            None => EffectPlan::CloneTemplate,
            Some(ids) => {
                if same_ids(ids, shape) {
                    return EffectPlan::Matching;
                }
                let mut foreign = false;
                let mut i: usize = 0;
                while i < ids.len()
                    invariant
                        i <= ids@.len(),
                        foreign == (exists|j: int| 0 <= j < i && !shape@.contains(#[trigger] ids@[j])),
                    decreases ids@.len() - i,
                {
                    if find_first(shape, ids[i]).is_none() {
                        foreign = true;
                    }
                    i += 1;
                }
                let mut slots: Vec<EffectSlot> = Vec::new();
                let mut k: usize = 0;
                while k < shape.len()
                    invariant
                        k <= shape@.len(),
                        slots@ == shape@.subrange(0, k as int).map_values(|id: u64| slot_for(ids@, id)),
                    decreases shape@.len() - k,
                {
                    let slot = match find_first(ids, shape[k]) {
                        Some(index) => EffectSlot::Reuse(index),
                        None => EffectSlot::Clone,
                    };
                    slots.push(slot);
                    k += 1;
                    assert(slots@ =~= shape@.subrange(0, k as int).map_values(|id: u64| slot_for(ids@, id)));
                }
                assert(shape@.subrange(0, shape@.len() as int) =~= shape@);
                EffectPlan::Remap { slots, foreign }
            },
        },
    }
}

/// The follower links of a voice's effect chain: the `i`-th effect node
/// follows the `i`-th effect of the request it plays.
pub fn follower_pairs(request_effects: &Vec<u64>, voice_effects: &Vec<u64>) -> (r: Vec<(u64, u64)>)
    ensures
        r@.len() == (if request_effects@.len() < voice_effects@.len() {
            request_effects@.len()
        } else {
            voice_effects@.len()
        }),
        forall|i: int| 0 <= i < r@.len() ==> #[trigger] r@[i] == (voice_effects@[i], request_effects@[i]),
{
    let mut out: Vec<(u64, u64)> = Vec::new();
    let mut i: usize = 0;
    while i < request_effects.len() && i < voice_effects.len()
        invariant
            i <= request_effects@.len(),
            i <= voice_effects@.len(),
            out@.len() == i,
            forall|j: int| 0 <= j < i ==> #[trigger] out@[j] == (voice_effects@[j], request_effects@[j]),
        decreases request_effects@.len() - i,
    {
        out.push((voice_effects[i], request_effects[i]));
        i += 1;
    }
    out
}

} // verus!

verus! {

proof fn lemma_no_idle(voices: Seq<SamplerScore>, n: int)
    requires
        0 <= n <= voices.len(),
        forall|i: int| 0 <= i < voices.len() ==> (#[trigger] voices[i]).has_assignment,
    ensures
        idle_prefix(voices, n).len() == 0,
    decreases n,
{
    if n > 0 {
        lemma_no_idle(voices, n - 1);
    }
}

/// When every voice is busy with a sample more important than every
/// queued request, no voice is idle and, whatever the rankings, the
/// contended path assigns nothing: the requests keep waiting.
pub proof fn lemma_lower_priority_waits(
    voices: Seq<SamplerScore>,
    requests: Seq<SampleRequest>,
    vr: Seq<usize>,
    rr: Seq<usize>,
)
    requires
        is_ranking(score_keys(voices), vr),
        is_ranking(request_keys(requests), rr),
        forall|i: int| 0 <= i < voices.len() ==> (#[trigger] voices[i]).has_assignment,
        forall|i: int, j: int|
            0 <= i < voices.len() && 0 <= j < requests.len() ==> (#[trigger] voices[i]).priority.0
                > (#[trigger] requests[j]).priority.0,
    ensures
        idle_voices(voices).len() == 0,
        contended_assignments(voices, requests, vr, rr).len() == 0,
{
    lemma_no_idle(voices, voices.len() as int);
    let m = if voices.len() < requests.len() {
        voices.len() as int
    } else {
        requests.len() as int
    };
    if m > 0 {
        assert(score_keys(voices).len() == voices.len());
        assert(request_keys(requests).len() == requests.len());
        assert(vr[0] < voices.len());
        assert(rr[0] < requests.len());
        assert(blocked(voices, requests, vr, rr, 0));
    }
}

} // verus!
