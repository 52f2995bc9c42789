//! Track identity: the platform a track id names, the track this tree serves, the paired-flow
//! fence, and the value types one track's fixture resolves to.

use vstd::prelude::*;
use vstd::string::*;
use crate::number::{bits_zero, FixtureNumber};
use crate::text::{
    chars_of, end_solid, first_solid, is_white, last_index_below, last_index_of,
    lemma_end_solid_at, lemma_first_solid, lemma_first_solid_at, lemma_last_index_before, quote,
    quoted, trim, trim_end, trimmed,
};

verus! {

/// The track this tree serves: every per-track fact is looked up under it, and a run that
/// declares any other track is refused by [`enforce_declared_track`].
pub const TRACK_ID: &'static str = "qwen3.8-27b-mtp-v1";

/// The track-id token for [`Platform::Mlx`].
pub const PLATFORM_KEY_MLX: &'static str = "mlx";

/// The track-id token for [`Platform::Cuda`].
pub const PLATFORM_KEY_CUDA: &'static str = "cuda";

/// The exact-match name of the state "this track has no captured official baseline".
pub const OFFICIAL_BASELINE_PENDING: &'static str = "OFFICIAL-BASELINE-PENDING-CAPTURE";

/// The exact-match name of the refusal "this calibration's legs are too noisy to pin a pair".
pub const CALIBRATION_CV_EXCEEDED: &'static str = "CALIBRATION-CV-EXCEEDED";

/// The exact-match name of the refusal "this track does not run the paired flow".
pub const PAIRED_FLOW_RETIRED_FOR_TRACK: &'static str = "PAIRED-FLOW-RETIRED-FOR-TRACK";

/// The exact-match name of the state "this track has not declared what it scores".
pub const SCORED_REGIME_PENDING: &'static str = "SCORED-REGIME-PENDING-DECLARATION";

/// The exact-match name of the state "this track declares no model identity".
pub const MODEL_IDENTITY_UNDECLARED: &'static str = "MODEL-IDENTITY-UNDECLARED-FOR-TRACK";

/// The exact-match name of the state "this track declares no measurement window".
pub const WINDOW_SHAPE_UNDECLARED: &'static str = "WINDOW-SHAPE-UNDECLARED-FOR-TRACK";

/// The exact-match name of the state "this track declares no acceptance band shape".
pub const ACCEPTANCE_BANDS_UNDECLARED: &'static str = "ACCEPTANCE-BANDS-UNDECLARED-FOR-TRACK";

/// The golden `model_type` of the 125B checkpoint: the architecture id the weights declare.
pub const REQUIRED_GOLDEN_MODEL_TYPE: &'static str = "qwen4_exp_text";

/// The 125B checkpoint's vocabulary bound.
pub const VOCAB_SIZE: usize = 248_320;

/// The checked decode steps of the correctness gate.
pub const CORRECTNESS_STEPS: usize = 64;

/// The seed length of the correctness prompt.
pub const CORRECTNESS_PROMPT_TOKENS: usize = 1_024;

/// The top logits a correctness case compares.
pub const CORRECTNESS_TOP_LOGITS: usize = 8;

/// The longest anchor context a correctness case may carry.
pub const CORRECTNESS_MAX_ANCHOR_CONTEXT_TOKENS: usize = 1_024;

/// The longest free run a correctness case may request.
pub const CORRECTNESS_MAX_FREE_RUN_STEPS: usize = 256;

/// The longest behaviour prompt a correctness case may carry.
pub const CORRECTNESS_MAX_BEHAVIOR_PROMPT_TOKENS: usize = 2_048;

/// The most behaviour steps a correctness case may request.
pub const CORRECTNESS_MAX_BEHAVIOR_STEPS: usize = 64;

/// The timed prefill prompt length.
pub const BENCHMARK_PREFILL_PROMPT_TOKENS: usize = 1_024;

/// The timed decode seed length.
pub const BENCHMARK_DECODE_SEED_TOKENS: usize = 1_024;

/// The timed decode depth.
pub const BENCHMARK_DECODE_STEPS: usize = 128;

/// The decode depth of the participant edit loop: the official depth, so the two estimates
/// share a denominator.
pub const LOCAL_ITERATE_BENCHMARK_DECODE_STEPS: usize = 128;

/// The default cap on transformed weights (25 GiB).
pub const DEFAULT_MAX_TRANSFORMED_WEIGHTS_BYTES: u64 = 26_843_545_600;

/// Per-stream token tolerance of a cohort, in tokens per thousand.
pub const COHORT_TOKEN_TOLERANCE_PER_THOUSAND: u32 = 100;

/// Unmeasured prefill passes before the timed one on the local modes.
pub const BENCHMARK_PREFILL_WARMUP_RUNS: usize = 0;

/// Measured prefill passes.
pub const BENCHMARK_PREFILL_TIMED_RUNS: usize = 1;

/// Significant figures the public diagnostics are coarsened to.
pub const PUBLIC_DIAGNOSTIC_SIGNIFICANT_FIGURES: u32 = 2;

/// The engine platform a track runs on, resolved from the track id.
#[derive(Debug, Clone, Copy, PartialEq, Eq, Structural)]
pub enum Platform {
    Mlx,
    Cuda,
}

/// The track-id token of a platform.
pub open spec fn platform_key(p: Platform) -> Seq<char> {
    match p {
        Platform::Mlx => PLATFORM_KEY_MLX@,
        Platform::Cuda => PLATFORM_KEY_CUDA@,
    }
}

/// The platform a token names, if any.
pub open spec fn platform_of_token(token: Seq<char>) -> Option<Platform> {
    if token == PLATFORM_KEY_MLX@ {
        Some(Platform::Mlx)
    } else if token == PLATFORM_KEY_CUDA@ {
        Some(Platform::Cuda)
    } else {
        None
    }
}

/// A version segment `v{N}`: a `v` followed by one or more ASCII digits.
pub open spec fn version_segment(v: Seq<char>) -> bool {
    &&& v.len() >= 2
    &&& v[0] == 'v'
    &&& forall|i: int| 1 <= i < v.len() ==> '0' <= #[trigger] v[i] && v[i] <= '9'
}

/// The last `-`-separated segment of a track id.
pub open spec fn last_segment(t: Seq<char>) -> Seq<char> {
    t.subrange(last_index_of(t, '-') + 1, t.len() as int)
}

/// The segment before the last one (meaningful when the id holds a `-`).
pub open spec fn second_last_segment(t: Seq<char>) -> Seq<char> {
    let head = t.subrange(0, last_index_of(t, '-'));
    last_segment(head)
}

/// The id has the canonical `…-{platform}-v{N}` ending.
pub open spec fn canonical_ending(t: Seq<char>) -> bool {
    last_index_of(t, '-') >= 0 && version_segment(last_segment(t))
}

/// The refusal for an id with no canonical ending.
pub open spec fn no_platform_refusal(track_id: Seq<char>) -> Seq<char> {
    "track_id "@ + quoted(track_id)
        + " does not end in `-{platform}-v{N}`, so it names no platform; the platform keys the reference model and the official baseline and must be resolvable from the track id"@
}

/// The refusal for a canonical id whose platform token is not a platform.
pub open spec fn unknown_platform_refusal(track_id: Seq<char>, token: Seq<char>) -> Seq<char> {
    "track_id "@ + quoted(track_id) + " names platform "@ + quoted(token)
        + ", which is not one of [\"mlx\", \"cuda\"]"@
}

/// What [`Platform::from_track_id`] answers for a track id.
pub open spec fn platform_resolution(track_id: Seq<char>) -> Result<Platform, Seq<char>> {
    let t = trim(track_id);
    if !canonical_ending(t) {
        Err(no_platform_refusal(track_id))
    } else {
        match platform_of_token(second_last_segment(t)) {
            Some(p) => Ok(p),
            None => Err(unknown_platform_refusal(track_id, second_last_segment(t))),
        }
    }
}

/// A result with its error text taken by view.
pub open spec fn result_view<T>(r: Result<T, String>) -> Result<T, Seq<char>> {
    match r {
        Ok(v) => Ok(v),
        Err(e) => Err(e@),
    }
}

impl Platform {
    /// The platform's track-id token.
    pub fn key(self) -> (r: &'static str)
        ensures
            r@ == platform_key(self),
    {
        match self {
            Platform::Mlx => PLATFORM_KEY_MLX,
            Platform::Cuda => PLATFORM_KEY_CUDA,
        }
    }

    /// Resolves the platform from a track id of the canonical shape
    /// `{model}{ver}-{params}-{platform}-v{N}`: the token before the trailing `v{N}` segment.
    /// Anything else is refused by name.
    pub fn from_track_id(track_id: &str) -> (r: Result<Platform, String>)
        ensures
            result_view(r) == platform_resolution(track_id@),
    {
        let t = trimmed(track_id);
        let v = chars_of(t);
        let n = v.len();
        proof {
            assert(v@.subrange(0, n as int) =~= v@);
        }
        let j = last_index_below(&v, n, '-');
        let mut well_formed = false;
        let mut ju: usize = 0;
        if let Some(jj) = j {
            ju = jj;
            let vlen = n - (ju + 1);
            if vlen >= 2 && v[ju + 1] == 'v' {
                let mut k: usize = ju + 2;
                let mut digits = true;
                while k < n
                    invariant
                        ju + 2 <= k <= n,
                        n == v@.len(),
                        digits == (forall|m: int| ju + 2 <= m < k ==> '0' <= #[trigger] v@[m] && v@[m] <= '9'),
                    decreases n - k,
                {
                    if !('0' <= v[k] && v[k] <= '9') {
                        digits = false;
                    }
                    k = k + 1;
                }
                well_formed = digits;
                proof {
                    let seg = last_segment(v@);
                    assert(seg =~= v@.subrange(ju + 1, n as int));
                    if digits {
                        assert forall|m: int| 1 <= m < seg.len() implies '0' <= #[trigger] seg[m] && seg[m] <= '9' by {
                            assert(seg[m] == v@[ju + 1 + m]);
                        }
                    } else {
                        let m = choose|m: int| ju + 2 <= m < n && !('0' <= #[trigger] v@[m] && v@[m] <= '9');
                        assert(seg[m - ju - 1] == v@[m]);
                    }
                }
            } else {
                proof {
                    let seg = last_segment(v@);
                    assert(seg =~= v@.subrange(ju + 1, n as int));
                    if seg.len() >= 1 {
                        assert(seg[0] == v@[ju + 1]);
                    }
                }
            }
        }
        if !well_formed {
            let mut m = String::from_str("track_id ");
            let q = quote(track_id);
            m.append(q.as_str());
            m.append(
                " does not end in `-{platform}-v{N}`, so it names no platform; the platform keys the reference model and the official baseline and must be resolvable from the track id",
            );
            return Err(m);
        }
        let i = last_index_below(&v, ju, '-');
        let start = match i {
            Some(ii) => ii + 1,
            None => 0,
        };
        let token = t.substring_char(start, ju);
        proof {
            assert(token@ =~= second_last_segment(v@));
        }
        let tok = String::from_str(token);
        if tok == String::from_str(PLATFORM_KEY_MLX) {
            return Ok(Platform::Mlx);
        }
        if tok == String::from_str(PLATFORM_KEY_CUDA) {
            return Ok(Platform::Cuda);
        }
        let mut m = String::from_str("track_id ");
        let q = quote(track_id);
        m.append(q.as_str());
        m.append(" names platform ");
        let qt = quote(token);
        m.append(qt.as_str());
        m.append(", which is not one of [\"mlx\", \"cuda\"]");
        Err(m)
    }
}

/// The refusal of a declared track that is not [`TRACK_ID`], naming both.
pub open spec fn fence_refusal(declared: Seq<char>) -> Seq<char> {
    "track_id fence: this benchd tree serves track "@ + quoted(TRACK_ID@)
        + " but the run declares track "@ + quoted(declared)
        + ". The workflow-declared track id must be ONE value (constant≡contract≡env), and the official baseline pair is per-track — measuring or sealing "@
        + quoted(declared) + " with "@ + quoted(TRACK_ID@)
        + "'s constants would mis-attribute the baseline. Run this track on its own release branch (docs/track-release-branches.md); refusing"@
}

/// The third leg of the `constant≡contract≡env` rule: the track a run declares must be the
/// track this tree serves ([`TRACK_ID`]), compared after trimming whitespace. Any other track
/// is refused by name, naming both values.
pub fn enforce_declared_track(declared_track_id: &str) -> (r: Result<(), String>)
    ensures
        result_view(r) == if trim(declared_track_id@) == TRACK_ID@ {
            Ok(())
        } else {
            Err(fence_refusal(trim(declared_track_id@)))
        },
{
    let declared = trimmed(declared_track_id);
    if String::from_str(declared) == String::from_str(TRACK_ID) {
        return Ok(());
    }
    let qd = quote(declared);
    let qt = quote(TRACK_ID);
    let mut m = String::from_str("track_id fence: this benchd tree serves track ");
    m.append(qt.as_str());
    m.append(" but the run declares track ");
    m.append(qd.as_str());
    m.append(
        ". The workflow-declared track id must be ONE value (constant≡contract≡env), and the official baseline pair is per-track — measuring or sealing ",
    );
    m.append(qd.as_str());
    m.append(" with ");
    m.append(qt.as_str());
    m.append(
        "'s constants would mis-attribute the baseline. Run this track on its own release branch (docs/track-release-branches.md); refusing",
    );
    Err(m)
}

/// The refusal of a track whose paired flow is retired.
pub open spec fn retired_flow_refusal(declared: Seq<char>) -> Seq<char> {
    PAIRED_FLOW_RETIRED_FOR_TRACK@ + ": track_id "@ + quoted(declared)
        + " scores through the SINGLE-LEG path only (`benchd iterate --mode official`, MTP on the timed leg against the pinned per-platform baseline). The paired measure-job/overlay-timing seam is retired for this track and will not measure or seal it; refusing"@
}

/// The paired-flow entry fence: a track whose sole scored path is the single leg refuses
/// `measure-job` / `overlay-timing` by name, naming the (trimmed) track. Total over the
/// resolved verdict.
pub fn refuse_retired_paired_flow(track_id: &str, retired: bool) -> (r: Result<(), String>)
    ensures
        result_view(r) == if !retired {
            Ok(())
        } else {
            Err(retired_flow_refusal(trim(track_id@)))
        },
{
    if !retired {
        return Ok(());
    }
    let declared = trimmed(track_id);
    let q = quote(declared);
    let mut m = String::from_str(PAIRED_FLOW_RETIRED_FOR_TRACK);
    m.append(": track_id ");
    m.append(q.as_str());
    m.append(
        " scores through the SINGLE-LEG path only (`benchd iterate --mode official`, MTP on the timed leg against the pinned per-platform baseline). The paired measure-job/overlay-timing seam is retired for this track and will not measure or seal it; refusing",
    );
    Err(m)
}

/// The timed-run acceptance bands: multiplicative tolerances around the reference, and
/// whether each lower bound is enforced.
#[derive(Debug, PartialEq)]
pub struct AcceptanceBands {
    pub prefill_up_tolerance: FixtureNumber,
    pub prefill_down_tolerance: FixtureNumber,
    pub decode_up_tolerance: FixtureNumber,
    pub decode_down_tolerance: FixtureNumber,
    /// Whether the decode band enforces its lower bound.
    pub decode_down_enabled: bool,
    /// Whether the prefill band enforces its lower bound.
    pub prefill_down_enabled: bool,
}

/// A stored official baseline pair together with the bands that gate the timed run against it.
#[derive(Debug, PartialEq)]
pub struct OfficialBaseline {
    pub prefill_seconds_per_token: FixtureNumber,
    pub decode_seconds_per_token: FixtureNumber,
    pub bands: AcceptanceBands,
}

/// What one track scores: the batch size of its scored point and the two exponents of the
/// composite `prefill_gain ^ prefill_gain_exponent * decode_gain ^ decode_gain_exponent`.
#[derive(Debug, PartialEq)]
pub struct ScoredRegime {
    /// The batch size the scored point is measured at; 1 is the single-stream path.
    pub scored_batch_size: usize,
    /// The exponent on the prefill gain; zero means prefill is not scored.
    pub prefill_gain_exponent: FixtureNumber,
    /// The exponent on the decode gain.
    pub decode_gain_exponent: FixtureNumber,
}

impl ScoredRegime {
    /// True when the prefill axis carries nonzero weight (`exponent != 0`): the arming
    /// predicate of prefill-window certification. A NaN exponent reads as armed.
    pub fn prefill_is_scored(&self) -> (r: bool)
        ensures
            r == !bits_zero(self.prefill_gain_exponent.bits),
    {
        !self.prefill_gain_exponent.is_zero()
    }
}

/// The model identity of one track: the facts a golden, a tape and the sealed audit metrics
/// must agree with.
#[derive(Debug, PartialEq, Eq)]
pub struct TrackModelIdentity {
    /// The `model_type` this track's goldens declare.
    pub golden_model_type: String,
    /// The token-id bound `0..vocab_size`.
    pub vocab_size: usize,
    /// The checkpoint's decoder-layer count.
    pub num_hidden_layers: i64,
    /// The seed length.
    pub seed_tokens: usize,
}

impl TrackModelIdentity {
    /// The identity of one track, from its four values.
    pub fn new(
        golden_model_type: &str,
        vocab_size: usize,
        num_hidden_layers: i64,
        seed_tokens: usize,
    ) -> (r: TrackModelIdentity)
        ensures
            r.golden_model_type@ == golden_model_type@,
            r.vocab_size == vocab_size,
            r.num_hidden_layers == num_hidden_layers,
            r.seed_tokens == seed_tokens,
    {
        TrackModelIdentity {
            golden_model_type: String::from_str(golden_model_type),
            vocab_size,
            num_hidden_layers,
            seed_tokens,
        }
    }
}

/// The shape of the window a run measures and checks.
#[derive(Debug, Clone, Copy, PartialEq, Eq, Structural)]
pub struct WindowShape {
    /// The checked decode steps of the correctness gate.
    pub correctness_steps: usize,
    /// The timed decode depth of the official and local-iterate modes.
    pub benchmark_decode_steps: usize,
    /// The long continuous checked decode the submit path times.
    pub local_submit_benchmark_decode_steps: usize,
    /// Unmeasured prefill passes before the official timed prefill.
    pub official_prefill_warmup_runs: usize,
}


/// THE CANONICAL SHAPE RESOLVES: a track id `{anything}-{platform}-v{N}` names that platform,
/// whatever precedes the platform segment and whatever whitespace surrounds the id's start.
pub proof fn canonical_track_id_names_its_platform(model: Seq<char>, p: Platform, n: Seq<char>)
    requires
        n.len() >= 1,
        forall|i: int| 0 <= i < n.len() ==> '0' <= #[trigger] n[i] && n[i] <= '9',
    ensures
        platform_resolution(model + seq!['-'] + platform_key(p) + seq!['-', 'v'] + n) == Ok::<Platform, Seq<char>>(p),
{
    reveal_strlit("mlx");
    reveal_strlit("cuda");
    let key = platform_key(p);
    let tail = seq!['v'] + n;
    let s = model + seq!['-'] + key + seq!['-'] + tail;
    assert(s =~= model + seq!['-'] + platform_key(p) + seq!['-', 'v'] + n);
    // Leading whitespace can only come from `model`: the `-` after it is solid.
    lemma_first_solid(s);
    let f = first_solid(s);
    assert(s[model.len() as int] == '-');
    assert(!is_white('-'));
    assert(f <= model.len());
    let front = model.skip(f);
    let t0 = s.subrange(f, s.len() as int);
    assert(t0 =~= front + seq!['-'] + key + seq!['-'] + tail);
    // The id ends in a digit, so nothing trails.
    assert(t0.last() == n.last());
    assert(!is_white(t0.last()));
    assert(t0.subrange(0, t0.len() as int) =~= t0);
    lemma_end_solid_at(t0, t0.len() as int);
    let t = trim(s);
    assert(t == t0);
    // The last `-` is the one before `v{N}`.
    let head = front + seq!['-'] + key;
    assert forall|i: int| 0 <= i < tail.len() implies #[trigger] tail[i] != '-' by {
        if i > 0 {
            assert(tail[i] == n[i - 1]);
        }
    }
    lemma_last_index_before(head, tail, '-');
    assert(t0 =~= head + seq!['-'] + tail);
    let q = last_index_of(t, '-');
    assert(q == head.len());
    assert(t.subrange(q + 1, t.len() as int) =~= tail);
    assert forall|i: int| 1 <= i < tail.len() implies '0' <= #[trigger] tail[i] && tail[i] <= '9' by {
        assert(tail[i] == n[i - 1]);
    }
    assert(version_segment(last_segment(t)));
    // The segment before it is the platform key, which holds no `-`.
    assert(t.subrange(0, q) =~= head);
    assert forall|i: int| 0 <= i < key.len() implies #[trigger] key[i] != '-' by {}
    lemma_last_index_before(front, key, '-');
    assert(head.subrange(front.len() as int + 1, head.len() as int) =~= key);
    assert(second_last_segment(t) == key);
}

/// THE FENCE PASSES THIS TREE'S TRACK WITH OR WITHOUT SURROUNDING WHITESPACE: whitespace
/// around the declared id is the only thing the fence ignores before its exact match.
pub proof fn fence_ignores_surrounding_whitespace(a: Seq<char>, b: Seq<char>)
    requires
        forall|i: int| 0 <= i < a.len() ==> is_white(#[trigger] a[i]),
        forall|i: int| 0 <= i < b.len() ==> is_white(#[trigger] b[i]),
    ensures
        trim(a + TRACK_ID@ + b) == TRACK_ID@,
{
    reveal_strlit("qwen3.8-27b-mtp-v1");
    let id = TRACK_ID@;
    let s = a + id + b;
    assert(s[a.len() as int] == 'q');
    assert forall|i: int| 0 <= i < a.len() implies is_white(#[trigger] s[i]) by {
        assert(s[i] == a[i]);
    }
    lemma_first_solid_at(s, a.len() as int);
    let t0 = s.subrange(a.len() as int, s.len() as int);
    assert(t0 =~= id + b);
    assert(t0[id.len() - 1] == '1');
    assert forall|i: int| id.len() <= i < t0.len() implies is_white(#[trigger] t0[i]) by {
        assert(t0[i] == b[i - id.len()]);
    }
    lemma_end_solid_at(t0, id.len() as int);
    assert(t0.subrange(0, id.len() as int) =~= id);
}


/// A RESOLVED PLATFORM IS THE ONE THE ID NAMES IN ITS CANONICAL ENDING: whenever a track id
/// resolves to a platform, the trimmed id is some text that is empty or ends in `-`, then that
/// platform's key, then `-v` and one or more ASCII digits.
pub proof fn a_resolved_platform_is_named_by_the_id(track_id: Seq<char>)
    ensures
        platform_resolution(track_id) matches Ok(p) ==> exists|m: Seq<char>, n: Seq<char>| {
            &&& trim(track_id) == m + platform_key(p) + seq!['-', 'v'] + n
            &&& (m.len() == 0 || m.last() == '-')
            &&& n.len() >= 1
            &&& forall|i: int| 0 <= i < n.len() ==> '0' <= #[trigger] n[i] && n[i] <= '9'
        },
{
    reveal_strlit("mlx");
    reveal_strlit("cuda");
    if let Ok(p) = platform_resolution(track_id) {
        let t = trim(track_id);
        crate::text::lemma_last_index_of(t, '-');
        let q = last_index_of(t, '-');
        let seg = last_segment(t);
        let n = seg.drop_first();
        let head = t.subrange(0, q);
        crate::text::lemma_last_index_of(head, '-');
        let j = last_index_of(head, '-');
        let token = head.subrange(j + 1, q);
        assert(token == second_last_segment(t));
        assert(token == platform_key(p));
        let m = head.subrange(0, j + 1);
        assert forall|i: int| 0 <= i < n.len() implies '0' <= #[trigger] n[i] && n[i] <= '9' by {
            assert(n[i] == seg[i + 1]);
        }
        assert(t[q] == '-');
        assert(seg[0] == 'v');
        assert(t =~= m + platform_key(p) + seq!['-', 'v'] + n);
        if j >= 0 {
            assert(m.last() == head[j]);
        }
    }
}

} // verus!
