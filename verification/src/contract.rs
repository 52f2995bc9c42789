//! The `--contract` track fixture: its typed view, the parse-time certification of everything
//! it declares, the contract-first resolvers of each group, and the arm gate.
//!
//! A resolver answers from the fixture or refuses by name; it never falls back to an in-tree
//! value. Certification asks only whether a DECLARED value is usable, and each group is
//! all-or-nothing.

use vstd::prelude::*;
use vstd::string::*;
use crate::number::{
    bits_finite_non_negative, bits_finite_positive, bits_zero, clone_number_option,
    FixtureNumber,
};
use crate::digest::{hex_of, sha256_digest, sha256_hex, SHA256_MAX_BYTES};
use crate::text::{push_decimal, quote, quoted, decimal, trim, trimmed};
use crate::track::{
    refuse_retired_paired_flow, result_view, retired_flow_refusal, AcceptanceBands,
    OfficialBaseline, ScoredRegime, TrackModelIdentity, WindowShape,
    ACCEPTANCE_BANDS_UNDECLARED, MODEL_IDENTITY_UNDECLARED, OFFICIAL_BASELINE_PENDING,
    SCORED_REGIME_PENDING, WINDOW_SHAPE_UNDECLARED,
};

verus! {

/// One entry of the fixture's `timed_prompt_pool[]`.
#[derive(Debug, PartialEq)]
pub struct PromptPoolEntry {
    pub sha256: String,
    /// The entry's declared byte count; enforced when present.
    pub bytes: Option<u64>,
    pub noop_decode_speedup: Option<FixtureNumber>,
}

/// The two composite weights of the published score.
#[derive(Debug, PartialEq)]
pub struct ScoringWeights {
    pub decode: FixtureNumber,
    pub prefill: FixtureNumber,
}

/// The two speedup floors a scored run must clear.
#[derive(Debug, PartialEq)]
pub struct SpeedupFloors {
    pub decode: FixtureNumber,
    pub prefill: FixtureNumber,
}

/// The parsed `--contract` track fixture: the fields benchd consumes, each absent unless the
/// fixture declares it.
#[derive(Debug, PartialEq)]
pub struct Contract {
    pub track_id: Option<String>,
    pub track_name: Option<String>,
    pub timed_prompt_pool: Vec<PromptPoolEntry>,
    /// The track's arm state; absent and `false` are different refusals.
    pub official_scoring_enabled: Option<bool>,
    pub allowed_modes: Option<Vec<String>>,
    pub official_pairs: Option<u32>,
    pub decode_speedup_floor: Option<FixtureNumber>,
    pub prefill_speedup_floor: Option<FixtureNumber>,
    pub scored_batch_size: Option<u32>,
    pub prefill_gain_exponent: Option<FixtureNumber>,
    pub decode_gain_exponent: Option<FixtureNumber>,
    pub scores_against_live_control_leg: Option<bool>,
    pub paired_flow_retired: Option<bool>,
    pub official_baseline_prefill_seconds_per_token: Option<FixtureNumber>,
    pub official_baseline_decode_seconds_per_token: Option<FixtureNumber>,
    pub prefill_band_up_tolerance: Option<FixtureNumber>,
    pub prefill_band_down_tolerance: Option<FixtureNumber>,
    pub decode_band_up_tolerance: Option<FixtureNumber>,
    pub decode_band_down_tolerance: Option<FixtureNumber>,
    pub decode_band_down_enabled: Option<bool>,
    pub prefill_band_down_enabled: Option<bool>,
    pub score_decode_weight: Option<FixtureNumber>,
    pub score_prefill_weight: Option<FixtureNumber>,
    pub correctness_steps: Option<u32>,
    pub benchmark_decode_steps: Option<u32>,
    pub local_submit_benchmark_decode_steps: Option<u32>,
    pub official_prefill_warmup_runs: Option<u32>,
    pub vocab_size: Option<u32>,
    pub num_hidden_layers: Option<u32>,
    pub seed_tokens: Option<u32>,
    pub golden_model_type: Option<String>,
}

/// The contract declares nothing at all.
pub open spec fn declares_nothing(c: Contract) -> bool {
    &&& c.track_id is None
    &&& c.track_name is None
    &&& c.timed_prompt_pool@.len() == 0
    &&& c.official_scoring_enabled is None
    &&& c.allowed_modes is None
    &&& c.official_pairs is None
    &&& c.decode_speedup_floor is None
    &&& c.prefill_speedup_floor is None
    &&& c.scored_batch_size is None
    &&& c.prefill_gain_exponent is None
    &&& c.decode_gain_exponent is None
    &&& c.scores_against_live_control_leg is None
    &&& c.paired_flow_retired is None
    &&& c.official_baseline_prefill_seconds_per_token is None
    &&& c.official_baseline_decode_seconds_per_token is None
    &&& c.prefill_band_up_tolerance is None
    &&& c.prefill_band_down_tolerance is None
    &&& c.decode_band_up_tolerance is None
    &&& c.decode_band_down_tolerance is None
    &&& c.decode_band_down_enabled is None
    &&& c.prefill_band_down_enabled is None
    &&& c.score_decode_weight is None
    &&& c.score_prefill_weight is None
    &&& c.correctness_steps is None
    &&& c.benchmark_decode_steps is None
    &&& c.local_submit_benchmark_decode_steps is None
    &&& c.official_prefill_warmup_runs is None
    &&& c.vocab_size is None
    &&& c.num_hidden_layers is None
    &&& c.seed_tokens is None
    &&& c.golden_model_type is None
}

impl Contract {
    /// A contract that declares nothing: what a run without `--contract` resolves against.
    /// Every resolver refuses it by name.
    pub fn none_declared() -> (r: Contract)
        ensures
            declares_nothing(r),
    {
        Contract {
            track_id: None,
            track_name: None,
            timed_prompt_pool: Vec::new(),
            official_scoring_enabled: None,
            allowed_modes: None,
            official_pairs: None,
            decode_speedup_floor: None,
            prefill_speedup_floor: None,
            scored_batch_size: None,
            prefill_gain_exponent: None,
            decode_gain_exponent: None,
            scores_against_live_control_leg: None,
            paired_flow_retired: None,
            official_baseline_prefill_seconds_per_token: None,
            official_baseline_decode_seconds_per_token: None,
            prefill_band_up_tolerance: None,
            prefill_band_down_tolerance: None,
            decode_band_up_tolerance: None,
            decode_band_down_tolerance: None,
            decode_band_down_enabled: None,
            prefill_band_down_enabled: None,
            score_decode_weight: None,
            score_prefill_weight: None,
            correctness_steps: None,
            benchmark_decode_steps: None,
            local_submit_benchmark_decode_steps: None,
            official_prefill_warmup_runs: None,
            vocab_size: None,
            num_hidden_layers: None,
            seed_tokens: None,
            golden_model_type: None,
        }
    }
}

/// A `--contract` file as it was loaded: the certified contract and the sha256 (lower-case
/// hex) of the exact bytes it was parsed from.
#[derive(Debug)]
pub struct LoadedContract {
    pub contract: Contract,
    pub sha256: String,
}

/// The contract a run resolves against: the loaded one, or a contract that declares nothing.
pub fn declared(loaded: Option<LoadedContract>) -> (r: Contract)
    ensures
        match loaded {
            Some(l) => r == l.contract,
            None => declares_nothing(r),
        },
{
    match loaded {
        Some(l) => l.contract,
        None => Contract::none_declared(),
    }
}

/// Where a resolved value came from.
#[derive(Debug, Clone, Copy, PartialEq, Eq, Structural)]
pub enum ContractSource {
    /// The fixture declared the value.
    Contract,
    /// The fixture declares nothing because the device measures the value for itself.
    Device,
    /// An in-tree table supplied the value. Never emitted; kept so old artifacts still read.
    Table,
}

/// The sealed spelling of a source.
pub open spec fn source_key(s: ContractSource) -> Seq<char> {
    match s {
        ContractSource::Contract => "contract"@,
        ContractSource::Device => "device"@,
        ContractSource::Table => "table"@,
    }
}

impl ContractSource {
    /// The sealed spelling, which is also the serialized spelling.
    pub fn key(self) -> (r: &'static str)
        ensures
            r@ == source_key(self),
    {
        match self {
            ContractSource::Contract => "contract",
            ContractSource::Device => "device",
            ContractSource::Table => "table",
        }
    }
}

/// A resolved value and the source that produced it, inseparably.
#[derive(Debug, PartialEq)]
pub struct Resolved<T> {
    pub value: T,
    pub source: ContractSource,
}

/// Which source decided each group of a run's scored regime.
#[derive(Debug, Clone, Copy, PartialEq, Eq, Structural)]
pub struct ContractSources {
    pub scored_regime: ContractSource,
    pub live_control_leg: ContractSource,
    pub paired_flow: ContractSource,
    pub official_baseline: ContractSource,
    pub acceptance_bands: ContractSource,
    pub scoring_weights: ContractSource,
    pub window_shape: ContractSource,
    pub model_shape: ContractSource,
}

impl ContractSources {
    /// Every group from a table: the payload an artifact sealed before the tables were deleted
    /// carries.
    pub fn all_table() -> (r: ContractSources)
        ensures
            r.scored_regime == ContractSource::Table,
            r.live_control_leg == ContractSource::Table,
            r.paired_flow == ContractSource::Table,
            r.official_baseline == ContractSource::Table,
            r.acceptance_bands == ContractSource::Table,
            r.scoring_weights == ContractSource::Table,
            r.window_shape == ContractSource::Table,
            r.model_shape == ContractSource::Table,
    {
        ContractSources {
            scored_regime: ContractSource::Table,
            live_control_leg: ContractSource::Table,
            paired_flow: ContractSource::Table,
            official_baseline: ContractSource::Table,
            acceptance_bands: ContractSource::Table,
            scoring_weights: ContractSource::Table,
            window_shape: ContractSource::Table,
            model_shape: ContractSource::Table,
        }
    }
}

// ---------------------------------------------------------------------------------------------
// What the fixture declares, group by group.
// ---------------------------------------------------------------------------------------------

/// The fixture declares the whole scored regime.
pub open spec fn regime_declared(c: Contract) -> bool {
    c.scored_batch_size is Some && c.prefill_gain_exponent is Some && c.decode_gain_exponent is Some
}

/// The fixture declares both halves of the official baseline pair.
pub open spec fn baseline_pair_declared(c: Contract) -> bool {
    c.official_baseline_prefill_seconds_per_token is Some
        && c.official_baseline_decode_seconds_per_token is Some
}

/// The fixture declares all six band values.
pub open spec fn bands_declared(c: Contract) -> bool {
    &&& c.prefill_band_up_tolerance is Some
    &&& c.prefill_band_down_tolerance is Some
    &&& c.decode_band_up_tolerance is Some
    &&& c.decode_band_down_tolerance is Some
    &&& c.decode_band_down_enabled is Some
    &&& c.prefill_band_down_enabled is Some
}

/// The fixture declares both composite weights.
pub open spec fn weights_declared(c: Contract) -> bool {
    c.score_decode_weight is Some && c.score_prefill_weight is Some
}

/// The fixture declares all four window values.
pub open spec fn window_declared(c: Contract) -> bool {
    &&& c.correctness_steps is Some
    &&& c.benchmark_decode_steps is Some
    &&& c.local_submit_benchmark_decode_steps is Some
    &&& c.official_prefill_warmup_runs is Some
}

/// The fixture declares all four model-shape values.
pub open spec fn model_shape_declared(c: Contract) -> bool {
    &&& c.vocab_size is Some
    &&& c.num_hidden_layers is Some
    &&& c.seed_tokens is Some
    &&& c.golden_model_type is Some
}

/// The declared band shape (meaningful when [`bands_declared`]).
pub open spec fn declared_bands(c: Contract) -> AcceptanceBands {
    AcceptanceBands {
        prefill_up_tolerance: c.prefill_band_up_tolerance->0,
        prefill_down_tolerance: c.prefill_band_down_tolerance->0,
        decode_up_tolerance: c.decode_band_up_tolerance->0,
        decode_down_tolerance: c.decode_band_down_tolerance->0,
        decode_down_enabled: c.decode_band_down_enabled->0,
        prefill_down_enabled: c.prefill_band_down_enabled->0,
    }
}

// ---------------------------------------------------------------------------------------------
// Refusal texts.
// ---------------------------------------------------------------------------------------------

/// The opening every fixture refusal shares: `the --contract track fixture for "<t>" declares `.
pub open spec fn fixture_says(t: Seq<char>) -> Seq<char> {
    "the --contract track fixture for "@ + quoted(t) + " declares "@
}

/// A refusal that quotes one declared value: `<opening><field>: <value><tail>`.
pub open spec fn value_refusal(t: Seq<char>, field: Seq<char>, value: Seq<char>, tail: Seq<char>) -> Seq<char> {
    fixture_says(t) + field + ": "@ + value + tail
}

fn fixture_opening(t: &str) -> (r: String)
    ensures
        r@ == fixture_says(t@),
{
    let mut m = String::from_str("the --contract track fixture for ");
    let q = quote(t);
    m.append(q.as_str());
    m.append(" declares ");
    m
}

fn refusal(t: &str, middle: &str, tail: &str) -> (r: String)
    ensures
        r@ == fixture_says(t@) + middle@ + tail@,
{
    let mut m = fixture_opening(t);
    m.append(middle);
    m.append(tail);
    m
}

fn number_refusal(t: &str, field: &str, value: &FixtureNumber, tail: &str) -> (r: String)
    ensures
        r@ == value_refusal(t@, field@, value.text@, tail@),
{
    let mut m = fixture_opening(t);
    m.append(field);
    m.append(": ");
    m.append(value.text.as_str());
    m.append(tail);
    m
}

fn count_refusal(t: &str, field: &str, value: u32, tail: &str) -> (r: String)
    ensures
        r@ == value_refusal(t@, field@, decimal(value as nat), tail@),
{
    let mut m = fixture_opening(t);
    m.append(field);
    m.append(": ");
    push_decimal(&mut m, value as u64);
    m.append(tail);
    m
}

/// A group refusal of the shape `<what> for track_id "<t>" <verb> <sentinel>: <tail>`.
pub open spec fn pending_refusal(what: Seq<char>, t: Seq<char>, verb: Seq<char>, sentinel: Seq<char>, tail: Seq<char>) -> Seq<char> {
    what + " for track_id "@ + quoted(t) + verb + sentinel + tail
}

fn pending(what: &str, t: &str, verb: &str, sentinel: &str, tail: &str) -> (r: String)
    ensures
        r@ == pending_refusal(what@, t@, verb@, sentinel@, tail@),
{
    let mut m = String::from_str(what);
    m.append(" for track_id ");
    let q = quote(t);
    m.append(q.as_str());
    m.append(verb);
    m.append(sentinel);
    m.append(tail);
    m
}


// ---------------------------------------------------------------------------------------------
// The contract-first resolvers.
// ---------------------------------------------------------------------------------------------

/// What [`scored_regime`] answers.
pub open spec fn regime_resolution(c: Contract, t: Seq<char>) -> Result<Resolved<ScoredRegime>, Seq<char>> {
    if regime_declared(c) {
        Ok(Resolved {
            value: ScoredRegime {
                scored_batch_size: c.scored_batch_size->0 as usize,
                prefill_gain_exponent: c.prefill_gain_exponent->0,
                decode_gain_exponent: c.decode_gain_exponent->0,
            },
            source: ContractSource::Contract,
        })
    } else {
        Err(pending_refusal("scored regime"@, t, " is "@, SCORED_REGIME_PENDING@,
            ": the --contract track fixture declares no scored_batch_size, prefill_gain_exponent and decode_gain_exponent; refusing to score"@))
    }
}

/// THE SCORED REGIME, contract-first: the fixture's declaration of all three values, or a
/// refusal by name ([`SCORED_REGIME_PENDING`]) when it does not declare them all.
pub fn scored_regime(contract: &Contract, track_id: &str) -> (r: Result<Resolved<ScoredRegime>, String>)
    ensures
        result_view(r) == regime_resolution(*contract, track_id@),
{
    match (&contract.scored_batch_size, &contract.prefill_gain_exponent, &contract.decode_gain_exponent) {
        (Some(batch), Some(prefill), Some(decode)) => Ok(Resolved {
            value: ScoredRegime {
                scored_batch_size: *batch as usize,
                prefill_gain_exponent: prefill.clone(),
                decode_gain_exponent: decode.clone(),
            },
            source: ContractSource::Contract,
        }),
        _ => Err(pending("scored regime", track_id, " is ", SCORED_REGIME_PENDING,
            ": the --contract track fixture declares no scored_batch_size, prefill_gain_exponent and decode_gain_exponent; refusing to score")),
    }
}

/// What [`scores_against_live_control_leg`] answers.
pub open spec fn live_control_leg_resolution(c: Contract, t: Seq<char>) -> Result<Resolved<bool>, Seq<char>> {
    match c.scores_against_live_control_leg {
        Some(v) => Ok(Resolved { value: v, source: ContractSource::Contract }),
        None => Err(fixture_says(t) + "no scores_against_live_control_leg"@
            + "; a track either measures its own denominator or scores against a stored pair, and benchd will not pick one for it; refusing"@),
    }
}

/// Whether the track measures its own denominator, contract-first: the declaration, or a
/// refusal by name.
pub fn scores_against_live_control_leg(contract: &Contract, track_id: &str) -> (r: Result<Resolved<bool>, String>)
    ensures
        result_view(r) == live_control_leg_resolution(*contract, track_id@),
{
    match contract.scores_against_live_control_leg {
        Some(v) => Ok(Resolved { value: v, source: ContractSource::Contract }),
        None => Err(refusal(track_id, "no scores_against_live_control_leg",
            "; a track either measures its own denominator or scores against a stored pair, and benchd will not pick one for it; refusing")),
    }
}

/// What [`paired_flow_retired`] answers.
pub open spec fn paired_flow_resolution(c: Contract, t: Seq<char>) -> Result<Resolved<bool>, Seq<char>> {
    match c.paired_flow_retired {
        Some(v) => Ok(Resolved { value: v, source: ContractSource::Contract }),
        None => Err(fixture_says(t) + "no paired_flow_retired"@
            + "; whether the measure-job/overlay-timing seam is retired for a track is the track's declaration, not benchd's default; refusing"@),
    }
}

/// Whether the paired flow is retired for the track, contract-first: the declaration, or a
/// refusal by name.
pub fn paired_flow_retired(contract: &Contract, track_id: &str) -> (r: Result<Resolved<bool>, String>)
    ensures
        result_view(r) == paired_flow_resolution(*contract, track_id@),
{
    match contract.paired_flow_retired {
        Some(v) => Ok(Resolved { value: v, source: ContractSource::Contract }),
        None => Err(refusal(track_id, "no paired_flow_retired",
            "; whether the measure-job/overlay-timing seam is retired for a track is the track's declaration, not benchd's default; refusing")),
    }
}

/// The paired-flow entry fence, contract-first: the resolved verdict, fenced by
/// [`refuse_retired_paired_flow`].
pub fn enforce_paired_flow_available(contract: &Contract, track_id: &str) -> (r: Result<(), String>)
    ensures
        result_view(r) == match paired_flow_resolution(*contract, track_id@) {
            Err(e) => Err(e),
            Ok(v) => if v.value { Err(retired_flow_refusal(trim(track_id@))) } else { Ok(()) },
        },
{
    let resolved = paired_flow_retired(contract, track_id)?;
    refuse_retired_paired_flow(track_id, resolved.value)
}

/// The source a group seals: the contract when the fixture declares it, the device otherwise.
pub open spec fn source_of(declared: bool) -> ContractSource {
    if declared { ContractSource::Contract } else { ContractSource::Device }
}

/// What [`sources`] seals for a contract.
pub open spec fn sources_of(c: Contract) -> ContractSources {
    ContractSources {
        scored_regime: source_of(regime_declared(c)),
        live_control_leg: source_of(c.scores_against_live_control_leg is Some),
        paired_flow: source_of(c.paired_flow_retired is Some),
        official_baseline: source_of(baseline_pair_declared(c)),
        acceptance_bands: source_of(bands_declared(c)),
        scoring_weights: source_of(weights_declared(c)),
        window_shape: source_of(window_declared(c)),
        model_shape: source_of(model_shape_declared(c)),
    }
}

fn source_for(declared: bool) -> (r: ContractSource)
    ensures
        r == source_of(declared),
{
    if declared { ContractSource::Contract } else { ContractSource::Device }
}

/// Every group's source for one run: `contract` for a group the fixture declares, `device`
/// for one it leaves to the box. `table` is never emitted.
pub fn sources(contract: &Contract, _track_id: &str) -> (r: ContractSources)
    ensures
        r == sources_of(*contract),
{
    ContractSources {
        scored_regime: source_for(
            contract.scored_batch_size.is_some() && contract.prefill_gain_exponent.is_some()
                && contract.decode_gain_exponent.is_some(),
        ),
        live_control_leg: source_for(contract.scores_against_live_control_leg.is_some()),
        paired_flow: source_for(contract.paired_flow_retired.is_some()),
        official_baseline: source_for(
            contract.official_baseline_prefill_seconds_per_token.is_some()
                && contract.official_baseline_decode_seconds_per_token.is_some(),
        ),
        acceptance_bands: source_for(
            contract.prefill_band_up_tolerance.is_some() && contract.prefill_band_down_tolerance.is_some()
                && contract.decode_band_up_tolerance.is_some()
                && contract.decode_band_down_tolerance.is_some()
                && contract.decode_band_down_enabled.is_some()
                && contract.prefill_band_down_enabled.is_some(),
        ),
        scoring_weights: source_for(
            contract.score_decode_weight.is_some() && contract.score_prefill_weight.is_some(),
        ),
        window_shape: source_for(
            contract.correctness_steps.is_some() && contract.benchmark_decode_steps.is_some()
                && contract.local_submit_benchmark_decode_steps.is_some()
                && contract.official_prefill_warmup_runs.is_some(),
        ),
        model_shape: source_for(
            contract.vocab_size.is_some() && contract.num_hidden_layers.is_some()
                && contract.seed_tokens.is_some() && contract.golden_model_type.is_some(),
        ),
    }
}

/// What [`model_identity`] answers.
pub open spec fn model_identity_resolution(c: Contract, t: Seq<char>) -> Result<Resolved<TrackModelIdentity>, Seq<char>> {
    if model_shape_declared(c) {
        Ok(Resolved {
            value: TrackModelIdentity {
                golden_model_type: c.golden_model_type->0,
                vocab_size: c.vocab_size->0 as usize,
                num_hidden_layers: c.num_hidden_layers->0 as i64,
                seed_tokens: c.seed_tokens->0 as usize,
            },
            source: ContractSource::Contract,
        })
    } else {
        Err(pending_refusal("model identity"@, t, " is "@, MODEL_IDENTITY_UNDECLARED@,
            ": the --contract track fixture declares no golden_model_type, vocab_size, num_hidden_layers and seed_tokens; refusing to load a golden"@))
    }
}

/// THE TRACK'S MODEL IDENTITY, contract-first: the four declared values, or a refusal by name
/// ([`MODEL_IDENTITY_UNDECLARED`]).
pub fn model_identity(contract: &Contract, track_id: &str) -> (r: Result<Resolved<TrackModelIdentity>, String>)
    ensures
        result_view(r) == model_identity_resolution(*contract, track_id@),
{
    match (&contract.vocab_size, &contract.num_hidden_layers, &contract.seed_tokens, &contract.golden_model_type) {
        (Some(vocab), Some(layers), Some(seed), Some(model_type)) => Ok(Resolved {
            value: TrackModelIdentity {
                golden_model_type: model_type.clone(),
                vocab_size: *vocab as usize,
                num_hidden_layers: *layers as i64,
                seed_tokens: *seed as usize,
            },
            source: ContractSource::Contract,
        }),
        _ => Err(pending("model identity", track_id, " is ", MODEL_IDENTITY_UNDECLARED,
            ": the --contract track fixture declares no golden_model_type, vocab_size, num_hidden_layers and seed_tokens; refusing to load a golden")),
    }
}

/// What [`window_shape`] answers.
pub open spec fn window_resolution(c: Contract, t: Seq<char>) -> Result<Resolved<WindowShape>, Seq<char>> {
    if window_declared(c) {
        Ok(Resolved {
            value: WindowShape {
                correctness_steps: c.correctness_steps->0 as usize,
                benchmark_decode_steps: c.benchmark_decode_steps->0 as usize,
                local_submit_benchmark_decode_steps: c.local_submit_benchmark_decode_steps->0 as usize,
                official_prefill_warmup_runs: c.official_prefill_warmup_runs->0 as usize,
            },
            source: ContractSource::Contract,
        })
    } else {
        Err(pending_refusal("measurement window"@, t, " is "@, WINDOW_SHAPE_UNDECLARED@,
            ": the --contract track fixture declares no correctness_steps, benchmark_decode_steps, local_submit_benchmark_decode_steps and official_prefill_warmup_runs; refusing to measure a window it was not given"@))
    }
}

/// THE WINDOW SHAPE, contract-first: the four declared values, or a refusal by name
/// ([`WINDOW_SHAPE_UNDECLARED`]).
pub fn window_shape(contract: &Contract, track_id: &str) -> (r: Result<Resolved<WindowShape>, String>)
    ensures
        result_view(r) == window_resolution(*contract, track_id@),
{
    match (contract.correctness_steps, contract.benchmark_decode_steps,
        contract.local_submit_benchmark_decode_steps, contract.official_prefill_warmup_runs) {
        (Some(correctness), Some(decode), Some(submit), Some(warmup)) => Ok(Resolved {
            value: WindowShape {
                correctness_steps: correctness as usize,
                benchmark_decode_steps: decode as usize,
                local_submit_benchmark_decode_steps: submit as usize,
                official_prefill_warmup_runs: warmup as usize,
            },
            source: ContractSource::Contract,
        }),
        _ => Err(pending("measurement window", track_id, " is ", WINDOW_SHAPE_UNDECLARED,
            ": the --contract track fixture declares no correctness_steps, benchmark_decode_steps, local_submit_benchmark_decode_steps and official_prefill_warmup_runs; refusing to measure a window it was not given")),
    }
}

/// The declared band shape, when all six values are declared.
fn declared_band_shape(c: &Contract) -> (r: Option<AcceptanceBands>)
    ensures
        match r {
            Some(b) => bands_declared(*c) && b == declared_bands(*c),
            None => !bands_declared(*c),
        },
{
    match (&c.prefill_band_up_tolerance, &c.prefill_band_down_tolerance, &c.decode_band_up_tolerance,
        &c.decode_band_down_tolerance, c.decode_band_down_enabled, c.prefill_band_down_enabled) {
        (Some(pu), Some(pd), Some(du), Some(dd), Some(d_on), Some(p_on)) => Some(AcceptanceBands {
            prefill_up_tolerance: pu.clone(),
            prefill_down_tolerance: pd.clone(),
            decode_up_tolerance: du.clone(),
            decode_down_tolerance: dd.clone(),
            decode_down_enabled: d_on,
            prefill_down_enabled: p_on,
        }),
        _ => None,
    }
}

/// What [`official_baseline`] answers.
pub open spec fn baseline_resolution(c: Contract, t: Seq<char>) -> Result<Resolved<OfficialBaseline>, Seq<char>> {
    if baseline_pair_declared(c) {
        if bands_declared(c) {
            Ok(Resolved {
                value: OfficialBaseline {
                    prefill_seconds_per_token: c.official_baseline_prefill_seconds_per_token->0,
                    decode_seconds_per_token: c.official_baseline_decode_seconds_per_token->0,
                    bands: declared_bands(c),
                },
                source: ContractSource::Contract,
            })
        } else {
            Err(fixture_says(t) + "an official baseline pair but no acceptance band shape"@
                + "; the pair is the reference the timed run is banded against, so a declared pair must carry its own six band values (prefill/decode up and down tolerances and the two *_down_enabled flags)"@)
        }
    } else {
        Err(pending_refusal("official baseline"@, t, " is "@, OFFICIAL_BASELINE_PENDING@,
            ": the --contract track fixture declares no official_baseline_prefill_seconds_per_token / official_baseline_decode_seconds_per_token pair; refusing to score"@))
    }
}

/// THE TRACK'S OFFICIAL BASELINE, contract-first: the declared pair with the band shape the
/// fixture declares for it; a declared pair without bands is refused, and an undeclared pair is
/// refused by name ([`OFFICIAL_BASELINE_PENDING`]).
pub fn official_baseline(contract: &Contract, track_id: &str) -> (r: Result<Resolved<OfficialBaseline>, String>)
    ensures
        result_view(r) == baseline_resolution(*contract, track_id@),
{
    match (&contract.official_baseline_prefill_seconds_per_token,
        &contract.official_baseline_decode_seconds_per_token) {
        (Some(prefill), Some(decode)) => match declared_band_shape(contract) {
            Some(bands) => Ok(Resolved {
                value: OfficialBaseline {
                    prefill_seconds_per_token: prefill.clone(),
                    decode_seconds_per_token: decode.clone(),
                    bands,
                },
                source: ContractSource::Contract,
            }),
            None => Err(refusal(track_id, "an official baseline pair but no acceptance band shape",
                "; the pair is the reference the timed run is banded against, so a declared pair must carry its own six band values (prefill/decode up and down tolerances and the two *_down_enabled flags)")),
        },
        _ => Err(pending("official baseline", track_id, " is ", OFFICIAL_BASELINE_PENDING,
            ": the --contract track fixture declares no official_baseline_prefill_seconds_per_token / official_baseline_decode_seconds_per_token pair; refusing to score")),
    }
}

/// What [`acceptance_bands`] answers.
pub open spec fn bands_resolution(c: Contract, t: Seq<char>) -> Result<Resolved<AcceptanceBands>, Seq<char>> {
    if bands_declared(c) {
        Ok(Resolved { value: declared_bands(c), source: ContractSource::Contract })
    } else {
        Err(pending_refusal("acceptance bands"@, t, " are "@, ACCEPTANCE_BANDS_UNDECLARED@,
            ": the --contract track fixture declares none of the six band values (prefill/decode up and down tolerances and the two *_down_enabled flags); the band is what gates the timed run, so benchd will not invent one; refusing"@))
    }
}

/// THE ACCEPTANCE BAND SHAPE, contract-first: the six declared values, or a refusal by name
/// ([`ACCEPTANCE_BANDS_UNDECLARED`]).
pub fn acceptance_bands(contract: &Contract, track_id: &str) -> (r: Result<Resolved<AcceptanceBands>, String>)
    ensures
        result_view(r) == bands_resolution(*contract, track_id@),
{
    match declared_band_shape(contract) {
        Some(bands) => Ok(Resolved { value: bands, source: ContractSource::Contract }),
        None => Err(pending("acceptance bands", track_id, " are ", ACCEPTANCE_BANDS_UNDECLARED,
            ": the --contract track fixture declares none of the six band values (prefill/decode up and down tolerances and the two *_down_enabled flags); the band is what gates the timed run, so benchd will not invent one; refusing")),
    }
}

/// What [`scoring_weights`] answers.
pub open spec fn weights_resolution(c: Contract, t: Seq<char>) -> Result<Resolved<ScoringWeights>, Seq<char>> {
    if weights_declared(c) {
        Ok(Resolved {
            value: ScoringWeights { decode: c.score_decode_weight->0, prefill: c.score_prefill_weight->0 },
            source: ContractSource::Contract,
        })
    } else {
        Err(fixture_says(t) + "no score_decode_weight and score_prefill_weight"@
            + "; the composite divides by their sum, so a run cannot be weighted by a pair it was never given; refusing"@)
    }
}

/// THE TWO COMPOSITE WEIGHTS, contract-first: the declared pair, or a refusal.
pub fn scoring_weights(contract: &Contract, track_id: &str) -> (r: Result<Resolved<ScoringWeights>, String>)
    ensures
        result_view(r) == weights_resolution(*contract, track_id@),
{
    match (&contract.score_decode_weight, &contract.score_prefill_weight) {
        (Some(decode), Some(prefill)) => Ok(Resolved {
            value: ScoringWeights { decode: decode.clone(), prefill: prefill.clone() },
            source: ContractSource::Contract,
        }),
        _ => Err(refusal(track_id, "no score_decode_weight and score_prefill_weight",
            "; the composite divides by their sum, so a run cannot be weighted by a pair it was never given; refusing")),
    }
}


// ---------------------------------------------------------------------------------------------
// Certification: range and shape of everything the fixture declares.
// ---------------------------------------------------------------------------------------------

/// An optional text taken by view.
pub open spec fn opt_view(o: Option<String>) -> Option<Seq<char>> {
    match o {
        Some(s) => Some(s@),
        None => None,
    }
}

/// The first refusal of two, in order.
pub open spec fn first(a: Option<Seq<char>>, b: Option<Seq<char>>) -> Option<Seq<char>> {
    if a is Some { a } else { b }
}

/// What one speedup-floor axis resolves to.
pub open spec fn floor_resolution(declared: Option<FixtureNumber>, field: Seq<char>, t: Seq<char>) -> Result<FixtureNumber, Seq<char>> {
    match declared {
        Some(v) => if bits_finite_positive(v.bits) {
            Ok(v)
        } else {
            Err(value_refusal(t, field, v.text@,
                "; a speedup floor must be finite and greater than 0 (David 2026-09-09 ruled 0.95/0.95)"@))
        },
        None => Err(fixture_says(t) + "no "@ + field
            + "; the official scored run refuses to guess a speedup floor (David 2026-09-09 ruled 0.95/0.95, configurable per project) — pin it in the fixture"@),
    }
}

/// One axis of [`speedup_floors`]: the declared floor when it is finite and positive.
fn one_floor(declared: &Option<FixtureNumber>, field: &str, track_id: &str) -> (r: Result<FixtureNumber, String>)
    ensures
        result_view(r) == floor_resolution(*declared, field@, track_id@),
{
    match declared {
        Some(v) => if v.is_finite_positive() {
            Ok(v.clone())
        } else {
            Err(number_refusal(track_id, field, v,
                "; a speedup floor must be finite and greater than 0 (David 2026-09-09 ruled 0.95/0.95)"))
        },
        None => {
            let mut m = fixture_opening(track_id);
            m.append("no ");
            m.append(field);
            m.append("; the official scored run refuses to guess a speedup floor (David 2026-09-09 ruled 0.95/0.95, configurable per project) — pin it in the fixture");
            Err(m)
        },
    }
}

/// What [`speedup_floors`] answers.
pub open spec fn floors_resolution(c: Contract, t: Seq<char>) -> Result<SpeedupFloors, Seq<char>> {
    match floor_resolution(c.decode_speedup_floor, "decode_speedup_floor"@, t) {
        Err(e) => Err(e),
        Ok(decode) => match floor_resolution(c.prefill_speedup_floor, "prefill_speedup_floor"@, t) {
            Err(e) => Err(e),
            Ok(prefill) => Ok(SpeedupFloors { decode, prefill }),
        },
    }
}

/// The scored run's speedup floors, both required, each finite and positive; the decode axis
/// is checked first.
pub fn speedup_floors(contract: &Contract, track_id: &str) -> (r: Result<SpeedupFloors, String>)
    ensures
        result_view(r) == floors_resolution(*contract, track_id@),
{
    let decode = one_floor(&contract.decode_speedup_floor, "decode_speedup_floor", track_id)?;
    let prefill = one_floor(&contract.prefill_speedup_floor, "prefill_speedup_floor", track_id)?;
    Ok(SpeedupFloors { decode, prefill })
}

/// What [`official_pairs`] answers.
pub open spec fn pairs_resolution(c: Contract, t: Seq<char>) -> Result<usize, Seq<char>> {
    match c.official_pairs {
        Some(n) => if n >= 1 {
            Ok(n as usize)
        } else {
            Err(value_refusal(t, "official_pairs"@, decimal(n as nat),
                "; the paired official run needs at least 1 pair (David 2026-09-09 ruled 2)"@))
        },
        None => Err(fixture_says(t) + "no official_pairs"@
            + "; the paired official run refuses to guess a pair count (David 2026-09-09 ruled 2 on both platforms) — pin it in the fixture"@),
    }
}

/// The paired path's pair count: the declared count when it is at least 1.
pub fn official_pairs(contract: &Contract, track_id: &str) -> (r: Result<usize, String>)
    ensures
        result_view(r) == pairs_resolution(*contract, track_id@),
{
    match contract.official_pairs {
        Some(n) => if n >= 1 {
            Ok(n as usize)
        } else {
            Err(count_refusal(track_id, "official_pairs", n,
                "; the paired official run needs at least 1 pair (David 2026-09-09 ruled 2)"))
        },
        None => Err(refusal(track_id, "no official_pairs",
            "; the paired official run refuses to guess a pair count (David 2026-09-09 ruled 2 on both platforms) — pin it in the fixture")),
    }
}

/// The refusal of a declared batch width below one stream.
pub open spec fn batch_size_refusal(declared: Option<u32>, t: Seq<char>) -> Option<Seq<char>> {
    match declared {
        Some(n) => if n >= 1 {
            None
        } else {
            Some(fixture_says(t) + "scored_batch_size "@ + decimal(n as nat)
                + "; a scored batch size is a count of concurrent streams and must be at least 1 (1 is the single-stream point, a greater width is the batched cohort point); refusing"@)
        },
        None => None,
    }
}

/// A declared batch size is a count of streams: at least 1. Absence declares nothing.
fn certify_scored_batch_size(declared: Option<u32>, track_id: &str) -> (r: Result<(), String>)
    ensures
        result_view(r) == match batch_size_refusal(declared, track_id@) {
            Some(e) => Err(e),
            None => Ok(()),
        },
{
    match declared {
        None => Ok(()),
        Some(n) => if n >= 1 {
            Ok(())
        } else {
            let mut m = fixture_opening(track_id);
            m.append("scored_batch_size ");
            push_decimal(&mut m, n as u64);
            m.append("; a scored batch size is a count of concurrent streams and must be at least 1 (1 is the single-stream point, a greater width is the batched cohort point); refusing");
            Err(m)
        },
    }
}

/// The refusal of one composite exponent of a declared regime.
pub open spec fn exponent_refusal(t: Seq<char>, field: Seq<char>, v: Option<FixtureNumber>) -> Option<Seq<char>> {
    match v {
        Some(n) => if bits_finite_non_negative(n.bits) {
            None
        } else {
            Some(value_refusal(t, field, n.text@,
                "; a composite exponent must be finite and non-negative (0 means the axis carries no weight)"@))
        },
        None => Some(fixture_says(t) + "a scored regime but no "@ + field
            + "; the batch size and the two composite exponents are ONE declaration — a batch size without its exponents describes no score — so a fixture declares all three (scored_batch_size, prefill_gain_exponent, decode_gain_exponent) or none of them"@),
    }
}

/// Both operands declared and both zero.
pub open spec fn both_zero(a: Option<FixtureNumber>, b: Option<FixtureNumber>) -> bool {
    match (a, b) {
        (Some(x), Some(y)) => bits_zero(x.bits) && bits_zero(y.bits),
        _ => false,
    }
}

/// The refusal of a scored-regime declaration: all-or-nothing once an exponent is declared,
/// each exponent finite and non-negative, and not both zero. A bare `scored_batch_size` is not
/// a partial regime.
pub open spec fn regime_refusal(c: Contract, t: Seq<char>) -> Option<Seq<char>> {
    if c.prefill_gain_exponent is None && c.decode_gain_exponent is None {
        None
    } else {
        first(exponent_refusal(t, "prefill_gain_exponent"@, c.prefill_gain_exponent),
        first(exponent_refusal(t, "decode_gain_exponent"@, c.decode_gain_exponent),
        if c.scored_batch_size is None {
            Some(fixture_says(t) + "composite exponents but no scored_batch_size"@
                + "; the batch size and the two exponents are ONE declaration — a regime that does not say what point it is measured at scores nothing — so a fixture declares all three or none of them"@)
        } else if both_zero(c.prefill_gain_exponent, c.decode_gain_exponent) {
            Some(fixture_says(t) + "prefill_gain_exponent 0 and decode_gain_exponent 0"@
                + "; a regime that weights neither axis scores nothing"@)
        } else {
            None
        }))
    }
}

fn exponent_check(t: &str, field: &str, v: &Option<FixtureNumber>) -> (r: Option<String>)
    ensures
        opt_view(r) == exponent_refusal(t@, field@, *v),
{
    match v {
        Some(n) => if n.is_finite_non_negative() {
            None
        } else {
            Some(number_refusal(t, field, n,
                "; a composite exponent must be finite and non-negative (0 means the axis carries no weight)"))
        },
        None => {
            let mut m = fixture_opening(t);
            m.append("a scored regime but no ");
            m.append(field);
            m.append("; the batch size and the two composite exponents are ONE declaration — a batch size without its exponents describes no score — so a fixture declares all three (scored_batch_size, prefill_gain_exponent, decode_gain_exponent) or none of them");
            Some(m)
        },
    }
}

fn both_declared_zero(a: &Option<FixtureNumber>, b: &Option<FixtureNumber>) -> (r: bool)
    ensures
        r == both_zero(*a, *b),
{
    match (a, b) {
        (Some(x), Some(y)) => x.is_zero() && y.is_zero(),
        _ => false,
    }
}

fn certify_scored_regime(contract: &Contract, track_id: &str) -> (r: Option<String>)
    ensures
        opt_view(r) == regime_refusal(*contract, track_id@),
{
    if contract.prefill_gain_exponent.is_none() && contract.decode_gain_exponent.is_none() {
        return None;
    }
    let e = exponent_check(track_id, "prefill_gain_exponent", &contract.prefill_gain_exponent);
    if e.is_some() {
        return e;
    }
    let e = exponent_check(track_id, "decode_gain_exponent", &contract.decode_gain_exponent);
    if e.is_some() {
        return e;
    }
    if contract.scored_batch_size.is_none() {
        return Some(refusal(track_id, "composite exponents but no scored_batch_size",
            "; the batch size and the two exponents are ONE declaration — a regime that does not say what point it is measured at scores nothing — so a fixture declares all three or none of them"));
    }
    if both_declared_zero(&contract.prefill_gain_exponent, &contract.decode_gain_exponent) {
        return Some(refusal(track_id, "prefill_gain_exponent 0 and decode_gain_exponent 0",
            "; a regime that weights neither axis scores nothing"));
    }
    None
}

/// The refusal of one half of a declared baseline pair.
pub open spec fn half_refusal(t: Seq<char>, field: Seq<char>, v: Option<FixtureNumber>) -> Option<Seq<char>> {
    match v {
        Some(n) => if bits_finite_positive(n.bits) {
            None
        } else {
            Some(value_refusal(t, field, n.text@,
                "; a seconds-per-token baseline must be finite and greater than 0"@))
        },
        None => Some(fixture_says(t) + "half an official baseline pair and no "@ + field
            + "; the prefill and decode seconds-per-token are ONE capture and are declared together — mixing a declared half with a table half would score against a pair no capture produced"@),
    }
}

/// The refusal of a baseline-pair declaration: both halves or neither, each finite and
/// positive, and never beside `scores_against_live_control_leg: true`.
pub open spec fn baseline_refusal(c: Contract, t: Seq<char>) -> Option<Seq<char>> {
    if c.official_baseline_prefill_seconds_per_token is None
        && c.official_baseline_decode_seconds_per_token is None {
        None
    } else {
        first(half_refusal(t, "official_baseline_prefill_seconds_per_token"@, c.official_baseline_prefill_seconds_per_token),
        first(half_refusal(t, "official_baseline_decode_seconds_per_token"@, c.official_baseline_decode_seconds_per_token),
        if c.scores_against_live_control_leg == Some(true) {
            Some(fixture_says(t) + "an official baseline pair AND scores_against_live_control_leg: true"@
                + "; a track that measures its own denominator on the box stores no pair (David 2026-09-08), so these two declarations describe different designs and benchd will not pick one"@)
        } else {
            None
        }))
    }
}

fn half_check(t: &str, field: &str, v: &Option<FixtureNumber>) -> (r: Option<String>)
    ensures
        opt_view(r) == half_refusal(t@, field@, *v),
{
    match v {
        Some(n) => if n.is_finite_positive() {
            None
        } else {
            Some(number_refusal(t, field, n,
                "; a seconds-per-token baseline must be finite and greater than 0"))
        },
        None => {
            let mut m = fixture_opening(t);
            m.append("half an official baseline pair and no ");
            m.append(field);
            m.append("; the prefill and decode seconds-per-token are ONE capture and are declared together — mixing a declared half with a table half would score against a pair no capture produced");
            Some(m)
        },
    }
}

fn certify_official_baseline(contract: &Contract, track_id: &str) -> (r: Option<String>)
    ensures
        opt_view(r) == baseline_refusal(*contract, track_id@),
{
    if contract.official_baseline_prefill_seconds_per_token.is_none()
        && contract.official_baseline_decode_seconds_per_token.is_none() {
        return None;
    }
    let e = half_check(track_id, "official_baseline_prefill_seconds_per_token",
        &contract.official_baseline_prefill_seconds_per_token);
    if e.is_some() {
        return e;
    }
    let e = half_check(track_id, "official_baseline_decode_seconds_per_token",
        &contract.official_baseline_decode_seconds_per_token);
    if e.is_some() {
        return e;
    }
    if contract.scores_against_live_control_leg == Some(true) {
        return Some(refusal(track_id, "an official baseline pair AND scores_against_live_control_leg: true",
            "; a track that measures its own denominator on the box stores no pair (David 2026-09-08), so these two declarations describe different designs and benchd will not pick one"));
    }
    None
}

/// The one refusal a partial band shape gets, naming the missing field.
pub open spec fn partial_band_refusal(t: Seq<char>, field: Seq<char>) -> Seq<char> {
    fixture_says(t) + "an acceptance band shape but no "@ + field
        + "; the six band values are ONE shape (prefill/decode up and down tolerances and the two *_down_enabled flags) and are declared together — a tolerance without its enforcement flag states a bound without saying whether it is enforced"@
}

/// The one refusal a partial band shape gets, naming the missing field.
fn partial_band_shape(track_id: &str, field: &str) -> (r: String)
    ensures
        r@ == partial_band_refusal(track_id@, field@),
{
    let mut m = fixture_opening(track_id);
    m.append("an acceptance band shape but no ");
    m.append(field);
    m.append("; the six band values are ONE shape (prefill/decode up and down tolerances and the two *_down_enabled flags) and are declared together — a tolerance without its enforcement flag states a bound without saying whether it is enforced");
    m
}

/// The refusal of one declared band tolerance.
pub open spec fn tolerance_refusal(t: Seq<char>, field: Seq<char>, v: Option<FixtureNumber>) -> Option<Seq<char>> {
    match v {
        Some(n) => if bits_finite_non_negative(n.bits) {
            None
        } else {
            Some(value_refusal(t, field, n.text@,
                "; an acceptance-band tolerance must be finite and non-negative"@))
        },
        None => Some(partial_band_refusal(t, field)),
    }
}

/// The refusal of a band-shape declaration: all six values or none, each tolerance finite and
/// non-negative.
pub open spec fn bands_refusal(c: Contract, t: Seq<char>) -> Option<Seq<char>> {
    let any = c.prefill_band_up_tolerance is Some || c.prefill_band_down_tolerance is Some
        || c.decode_band_up_tolerance is Some || c.decode_band_down_tolerance is Some
        || c.decode_band_down_enabled is Some || c.prefill_band_down_enabled is Some;
    if !any {
        None
    } else {
        first(tolerance_refusal(t, "prefill_band_up_tolerance"@, c.prefill_band_up_tolerance),
        first(tolerance_refusal(t, "prefill_band_down_tolerance"@, c.prefill_band_down_tolerance),
        first(tolerance_refusal(t, "decode_band_up_tolerance"@, c.decode_band_up_tolerance),
        first(tolerance_refusal(t, "decode_band_down_tolerance"@, c.decode_band_down_tolerance),
        if c.decode_band_down_enabled is None {
            Some(partial_band_refusal(t, "decode_band_down_enabled"@))
        } else if c.prefill_band_down_enabled is None {
            Some(partial_band_refusal(t, "prefill_band_down_enabled"@))
        } else {
            None
        }))))
    }
}

fn tolerance_check(t: &str, field: &str, v: &Option<FixtureNumber>) -> (r: Option<String>)
    ensures
        opt_view(r) == tolerance_refusal(t@, field@, *v),
{
    match v {
        Some(n) => if n.is_finite_non_negative() {
            None
        } else {
            Some(number_refusal(t, field, n,
                "; an acceptance-band tolerance must be finite and non-negative"))
        },
        None => Some(partial_band_shape(t, field)),
    }
}

fn certify_acceptance_bands(contract: &Contract, track_id: &str) -> (r: Option<String>)
    ensures
        opt_view(r) == bands_refusal(*contract, track_id@),
{
    let any = contract.prefill_band_up_tolerance.is_some() || contract.prefill_band_down_tolerance.is_some()
        || contract.decode_band_up_tolerance.is_some() || contract.decode_band_down_tolerance.is_some()
        || contract.decode_band_down_enabled.is_some() || contract.prefill_band_down_enabled.is_some();
    if !any {
        return None;
    }
    let e = tolerance_check(track_id, "prefill_band_up_tolerance", &contract.prefill_band_up_tolerance);
    if e.is_some() {
        return e;
    }
    let e = tolerance_check(track_id, "prefill_band_down_tolerance", &contract.prefill_band_down_tolerance);
    if e.is_some() {
        return e;
    }
    let e = tolerance_check(track_id, "decode_band_up_tolerance", &contract.decode_band_up_tolerance);
    if e.is_some() {
        return e;
    }
    let e = tolerance_check(track_id, "decode_band_down_tolerance", &contract.decode_band_down_tolerance);
    if e.is_some() {
        return e;
    }
    if contract.decode_band_down_enabled.is_none() {
        return Some(partial_band_shape(track_id, "decode_band_down_enabled"));
    }
    if contract.prefill_band_down_enabled.is_none() {
        return Some(partial_band_shape(track_id, "prefill_band_down_enabled"));
    }
    None
}

/// The refusal of one declared composite weight.
pub open spec fn weight_refusal(t: Seq<char>, field: Seq<char>, v: Option<FixtureNumber>) -> Option<Seq<char>> {
    match v {
        Some(n) => if bits_finite_non_negative(n.bits) {
            None
        } else {
            Some(value_refusal(t, field, n.text@, "; a scoring weight must be finite and non-negative"@))
        },
        None => Some(fixture_says(t) + "half a scoring-weight pair and no "@ + field
            + "; the composite divides each weight by their SUM, so half a pair describes no weighting at all"@),
    }
}

/// The refusal of a weight declaration: both or neither, each finite and non-negative, and a
/// positive sum.
pub open spec fn weights_refusal(c: Contract, t: Seq<char>) -> Option<Seq<char>> {
    if c.score_decode_weight is None && c.score_prefill_weight is None {
        None
    } else {
        first(weight_refusal(t, "score_decode_weight"@, c.score_decode_weight),
        first(weight_refusal(t, "score_prefill_weight"@, c.score_prefill_weight),
        if both_zero(c.score_decode_weight, c.score_prefill_weight) {
            Some(fixture_says(t) + "score_decode_weight 0 and score_prefill_weight 0"@
                + "; the composite divides by their sum, so a zero-sum pair scores nothing"@)
        } else {
            None
        }))
    }
}

fn weight_check(t: &str, field: &str, v: &Option<FixtureNumber>) -> (r: Option<String>)
    ensures
        opt_view(r) == weight_refusal(t@, field@, *v),
{
    match v {
        Some(n) => if n.is_finite_non_negative() {
            None
        } else {
            Some(number_refusal(t, field, n, "; a scoring weight must be finite and non-negative"))
        },
        None => {
            let mut m = fixture_opening(t);
            m.append("half a scoring-weight pair and no ");
            m.append(field);
            m.append("; the composite divides each weight by their SUM, so half a pair describes no weighting at all");
            Some(m)
        },
    }
}

fn certify_scoring_weights(contract: &Contract, track_id: &str) -> (r: Option<String>)
    ensures
        opt_view(r) == weights_refusal(*contract, track_id@),
{
    if contract.score_decode_weight.is_none() && contract.score_prefill_weight.is_none() {
        return None;
    }
    let e = weight_check(track_id, "score_decode_weight", &contract.score_decode_weight);
    if e.is_some() {
        return e;
    }
    let e = weight_check(track_id, "score_prefill_weight", &contract.score_prefill_weight);
    if e.is_some() {
        return e;
    }
    if both_declared_zero(&contract.score_decode_weight, &contract.score_prefill_weight) {
        return Some(refusal(track_id, "score_decode_weight 0 and score_prefill_weight 0",
            "; the composite divides by their sum, so a zero-sum pair scores nothing"));
    }
    None
}

/// The one refusal a partial window gets, naming the missing field.
pub open spec fn partial_window_refusal(t: Seq<char>, field: Seq<char>) -> Seq<char> {
    fixture_says(t) + "a measurement window but no "@ + field
        + "; the four window values are ONE shape (correctness_steps, benchmark_decode_steps, local_submit_benchmark_decode_steps and official_prefill_warmup_runs) and are declared together — a decode depth without its checked-step count describes a window nothing judges"@
}

/// The one refusal a partial window shape gets, naming the missing field.
fn partial_window_shape(track_id: &str, field: &str) -> (r: String)
    ensures
        r@ == partial_window_refusal(track_id@, field@),
{
    let mut m = fixture_opening(track_id);
    m.append("a measurement window but no ");
    m.append(field);
    m.append("; the four window values are ONE shape (correctness_steps, benchmark_decode_steps, local_submit_benchmark_decode_steps and official_prefill_warmup_runs) and are declared together — a decode depth without its checked-step count describes a window nothing judges");
    m
}

/// The refusal of one declared window step count.
pub open spec fn step_refusal(t: Seq<char>, field: Seq<char>, v: Option<u32>) -> Option<Seq<char>> {
    match v {
        Some(n) => if n >= 1 {
            None
        } else {
            Some(value_refusal(t, field, decimal(n as nat), "; a window of zero steps measures and checks nothing"@))
        },
        None => Some(partial_window_refusal(t, field)),
    }
}

/// The refusal of a window declaration: all four values or none, each step count at least 1
/// (the warm-up count may be zero).
pub open spec fn window_refusal(c: Contract, t: Seq<char>) -> Option<Seq<char>> {
    if c.correctness_steps is None && c.benchmark_decode_steps is None
        && c.local_submit_benchmark_decode_steps is None && c.official_prefill_warmup_runs is None {
        None
    } else {
        first(step_refusal(t, "correctness_steps"@, c.correctness_steps),
        first(step_refusal(t, "benchmark_decode_steps"@, c.benchmark_decode_steps),
        first(step_refusal(t, "local_submit_benchmark_decode_steps"@, c.local_submit_benchmark_decode_steps),
        if c.official_prefill_warmup_runs is None {
            Some(partial_window_refusal(t, "official_prefill_warmup_runs"@))
        } else {
            None
        })))
    }
}

fn step_check(t: &str, field: &str, v: Option<u32>) -> (r: Option<String>)
    ensures
        opt_view(r) == step_refusal(t@, field@, v),
{
    match v {
        Some(n) => if n >= 1 {
            None
        } else {
            Some(count_refusal(t, field, n, "; a window of zero steps measures and checks nothing"))
        },
        None => Some(partial_window_shape(t, field)),
    }
}

fn certify_window_shape(contract: &Contract, track_id: &str) -> (r: Option<String>)
    ensures
        opt_view(r) == window_refusal(*contract, track_id@),
{
    if contract.correctness_steps.is_none() && contract.benchmark_decode_steps.is_none()
        && contract.local_submit_benchmark_decode_steps.is_none()
        && contract.official_prefill_warmup_runs.is_none() {
        return None;
    }
    let e = step_check(track_id, "correctness_steps", contract.correctness_steps);
    if e.is_some() {
        return e;
    }
    let e = step_check(track_id, "benchmark_decode_steps", contract.benchmark_decode_steps);
    if e.is_some() {
        return e;
    }
    let e = step_check(track_id, "local_submit_benchmark_decode_steps",
        contract.local_submit_benchmark_decode_steps);
    if e.is_some() {
        return e;
    }
    if contract.official_prefill_warmup_runs.is_none() {
        return Some(partial_window_shape(track_id, "official_prefill_warmup_runs"));
    }
    None
}

/// The refusal a model shape missing `field` gets.
pub open spec fn partial_model_refusal(t: Seq<char>, field: Seq<char>) -> Seq<char> {
    fixture_says(t) + "a model shape but no "@ + field
        + "; the golden model_type, the vocabulary bound, the layer count and the seed length are ONE declaration (they describe one checkpoint) and are declared together — a half-declared shape describes no checkpoint at all"@
}

fn partial_model_shape(track_id: &str, field: &str) -> (r: String)
    ensures
        r@ == partial_model_refusal(track_id@, field@),
{
    let mut m = fixture_opening(track_id);
    m.append("a model shape but no ");
    m.append(field);
    m.append("; the golden model_type, the vocabulary bound, the layer count and the seed length are ONE declaration (they describe one checkpoint) and are declared together — a half-declared shape describes no checkpoint at all");
    m
}

/// The refusal of one declared model-shape count.
pub open spec fn shape_count_refusal(t: Seq<char>, field: Seq<char>, v: Option<u32>) -> Option<Seq<char>> {
    match v {
        Some(n) => if n >= 1 {
            None
        } else {
            Some(value_refusal(t, field, decimal(n as nat),
                "; a vocabulary bound, a layer count and a seed length must each be at least 1"@))
        },
        None => Some(partial_model_refusal(t, field)),
    }
}

/// The refusal of a model-shape declaration: all four values or none, each count at least 1,
/// and a `golden_model_type` that is not blank.
pub open spec fn model_shape_refusal(c: Contract, t: Seq<char>) -> Option<Seq<char>> {
    if c.vocab_size is None && c.num_hidden_layers is None && c.seed_tokens is None
        && c.golden_model_type is None {
        None
    } else {
        first(shape_count_refusal(t, "vocab_size"@, c.vocab_size),
        first(shape_count_refusal(t, "num_hidden_layers"@, c.num_hidden_layers),
        first(shape_count_refusal(t, "seed_tokens"@, c.seed_tokens),
        match c.golden_model_type {
            Some(s) => if trim(s@).len() > 0 {
                None
            } else {
                Some(fixture_says(t) + "an empty golden_model_type"@
                    + "; the model_type names the checkpoint's own architecture, so an empty one names nothing and matches no golden"@)
            },
            None => Some(partial_model_refusal(t, "golden_model_type"@)),
        })))
    }
}

fn shape_count_check(t: &str, field: &str, v: Option<u32>) -> (r: Option<String>)
    ensures
        opt_view(r) == shape_count_refusal(t@, field@, v),
{
    match v {
        Some(n) => if n >= 1 {
            None
        } else {
            Some(count_refusal(t, field, n,
                "; a vocabulary bound, a layer count and a seed length must each be at least 1"))
        },
        None => Some(partial_model_shape(t, field)),
    }
}

fn certify_model_shape(contract: &Contract, track_id: &str) -> (r: Option<String>)
    ensures
        opt_view(r) == model_shape_refusal(*contract, track_id@),
{
    if contract.vocab_size.is_none() && contract.num_hidden_layers.is_none()
        && contract.seed_tokens.is_none() && contract.golden_model_type.is_none() {
        return None;
    }
    let e = shape_count_check(track_id, "vocab_size", contract.vocab_size);
    if e.is_some() {
        return e;
    }
    let e = shape_count_check(track_id, "num_hidden_layers", contract.num_hidden_layers);
    if e.is_some() {
        return e;
    }
    let e = shape_count_check(track_id, "seed_tokens", contract.seed_tokens);
    if e.is_some() {
        return e;
    }
    match &contract.golden_model_type {
        Some(s) => {
            let t = trimmed(s.as_str());
            if t.unicode_len() > 0 {
                None
            } else {
                Some(refusal(track_id, "an empty golden_model_type",
                    "; the model_type names the checkpoint's own architecture, so an empty one names nothing and matches no golden"))
            }
        },
        None => Some(partial_model_shape(track_id, "golden_model_type")),
    }
}

/// The name certification refusals give the fixture: its own declared track id, trimmed, or
/// `<no declared track_id>` when it declares none (or a blank one).
pub open spec fn certification_label(c: Contract) -> Seq<char> {
    match c.track_id {
        Some(s) => if trim(s@).len() > 0 { trim(s@) } else { "<no declared track_id>"@ },
        None => "<no declared track_id>"@,
    }
}

/// The first refusal certification finds, in the order the groups are checked: the two
/// floors, the pair count, the batch size, then the regime, baseline, bands, weights, window
/// and model-shape groups. `None` when everything declared is usable.
pub open spec fn certification(c: Contract) -> Option<Seq<char>> {
    let t = certification_label(c);
    first(if c.decode_speedup_floor is Some {
        match floor_resolution(c.decode_speedup_floor, "decode_speedup_floor"@, t) {
            Err(e) => Some(e),
            Ok(_) => None,
        }
    } else {
        None
    },
    first(if c.prefill_speedup_floor is Some {
        match floor_resolution(c.prefill_speedup_floor, "prefill_speedup_floor"@, t) {
            Err(e) => Some(e),
            Ok(_) => None,
        }
    } else {
        None
    },
    first(if c.official_pairs is Some {
        match pairs_resolution(c, t) {
            Err(e) => Some(e),
            Ok(_) => None,
        }
    } else {
        None
    },
    first(batch_size_refusal(c.scored_batch_size, t),
    first(regime_refusal(c, t),
    first(baseline_refusal(c, t),
    first(bands_refusal(c, t),
    first(weights_refusal(c, t),
    first(window_refusal(c, t),
    model_shape_refusal(c, t))))))))))
}

impl Contract {
    /// RANGE AND SHAPE, once, over everything the fixture declares. Never asks whether a
    /// field is present (that is each resolver's question), only whether a declared value is
    /// usable; the refusal names the fixture's own track id.
    pub fn certify(&self) -> (r: Result<(), String>)
        ensures
            result_view(r) == match certification(*self) {
                Some(e) => Err(e),
                None => Ok(()),
            },
    {
        let t: &str = match &self.track_id {
            Some(s) => {
                let tt = trimmed(s.as_str());
                if tt.unicode_len() > 0 {
                    tt
                } else {
                    "<no declared track_id>"
                }
            },
            None => "<no declared track_id>",
        };
        if self.decode_speedup_floor.is_some() {
            one_floor(&self.decode_speedup_floor, "decode_speedup_floor", t)?;
        }
        if self.prefill_speedup_floor.is_some() {
            one_floor(&self.prefill_speedup_floor, "prefill_speedup_floor", t)?;
        }
        if self.official_pairs.is_some() {
            official_pairs(self, t)?;
        }
        certify_scored_batch_size(self.scored_batch_size, t)?;
        if let Some(e) = certify_scored_regime(self, t) {
            return Err(e);
        }
        if let Some(e) = certify_official_baseline(self, t) {
            return Err(e);
        }
        if let Some(e) = certify_acceptance_bands(self, t) {
            return Err(e);
        }
        if let Some(e) = certify_scoring_weights(self, t) {
            return Err(e);
        }
        if let Some(e) = certify_window_shape(self, t) {
            return Err(e);
        }
        if let Some(e) = certify_model_shape(self, t) {
            return Err(e);
        }
        Ok(())
    }
}

impl LoadedContract {
    /// A contract parsed from `bytes`, certified, and paired with the sha256 of exactly those
    /// bytes: the one way to pair a contract with a digest. Refused, with certification's own
    /// refusal, when anything the contract declares is unusable.
    pub fn certified(bytes: &[u8], contract: Contract) -> (r: Result<LoadedContract, String>)
        requires
            bytes@.len() < SHA256_MAX_BYTES,
        ensures
            match r {
                Ok(l) => {
                    &&& certification(contract) is None
                    &&& l.contract == contract
                    &&& l.sha256@ == hex_of(sha256_digest(bytes@)@)
                },
                Err(e) => certification(contract) == Some(e@),
            },
    {
        let sha256 = sha256_hex(bytes);
        match contract.certify() {
            Ok(()) => Ok(LoadedContract { contract, sha256 }),
            Err(e) => Err(e),
        }
    }
}

/// What the arm gate answers.
pub open spec fn arm_gate(scoring_mode: bool, enabled: Option<bool>, t: Seq<char>) -> Result<(), Seq<char>> {
    if !scoring_mode {
        Ok(())
    } else {
        match enabled {
            Some(true) => Ok(()),
            Some(false) => Err("official scoring is not enabled for this track: the --contract track fixture for "@
                + quoted(t)
                + " declares official_scoring_enabled: false, so benchd refuses to seal an official/ranked scoring artifact for it. This is the track's ARM STATE and only the track fixture may change it — pass --local-dev to iterate against the unarmed track (no scoring seal), or wait for the track to be armed."@),
            None => Err("official scoring is not enabled for this track: the --contract track fixture for "@
                + quoted(t)
                + " declares NO official_scoring_enabled at all, and an absent arm state is NOT an armed one (fail-closed) — benchd refuses to seal an official/ranked scoring artifact for it. Add official_scoring_enabled: true to the track fixture to arm it, or pass --local-dev to iterate against the unarmed track (no scoring seal)."@),
        }
    }
}

/// THE ARM GATE: a scoring run proceeds only over a fixture that declares
/// `official_scoring_enabled: true`; a declared `false` and an absent flag are both refused,
/// with different messages; a non-scoring run is never gated.
pub fn enforce_official_scoring_enabled(
    scoring_mode: bool,
    official_scoring_enabled: Option<bool>,
    track_id: &str,
) -> (r: Result<(), String>)
    ensures
        result_view(r) == arm_gate(scoring_mode, official_scoring_enabled, track_id@),
{
    if !scoring_mode {
        return Ok(());
    }
    match official_scoring_enabled {
        Some(true) => Ok(()),
        Some(false) => {
            let mut m = String::from_str("official scoring is not enabled for this track: the --contract track fixture for ");
            let q = quote(track_id);
            m.append(q.as_str());
            m.append(" declares official_scoring_enabled: false, so benchd refuses to seal an official/ranked scoring artifact for it. This is the track's ARM STATE and only the track fixture may change it — pass --local-dev to iterate against the unarmed track (no scoring seal), or wait for the track to be armed.");
            Err(m)
        },
        None => {
            let mut m = String::from_str("official scoring is not enabled for this track: the --contract track fixture for ");
            let q = quote(track_id);
            m.append(q.as_str());
            m.append(" declares NO official_scoring_enabled at all, and an absent arm state is NOT an armed one (fail-closed) — benchd refuses to seal an official/ranked scoring artifact for it. Add official_scoring_enabled: true to the track fixture to arm it, or pass --local-dev to iterate against the unarmed track (no scoring seal).");
            Err(m)
        },
    }
}


// ---------------------------------------------------------------------------------------------
// What holds of every fixture.
// ---------------------------------------------------------------------------------------------

/// A SEALED SOURCE IS `contract` OR `device`, NEVER `table`: a group seals `contract` exactly
/// when the fixture declares it, every group that resolves carries the `contract` source, and a
/// group that seals `device` refuses to resolve.
pub proof fn sources_name_what_resolved(c: Contract, t: Seq<char>)
    ensures
        sources_of(c).scored_regime != ContractSource::Table,
        sources_of(c).live_control_leg != ContractSource::Table,
        sources_of(c).paired_flow != ContractSource::Table,
        sources_of(c).official_baseline != ContractSource::Table,
        sources_of(c).acceptance_bands != ContractSource::Table,
        sources_of(c).scoring_weights != ContractSource::Table,
        sources_of(c).window_shape != ContractSource::Table,
        sources_of(c).model_shape != ContractSource::Table,
        regime_resolution(c, t) is Ok <==> sources_of(c).scored_regime == ContractSource::Contract,
        live_control_leg_resolution(c, t) is Ok <==> sources_of(c).live_control_leg == ContractSource::Contract,
        paired_flow_resolution(c, t) is Ok <==> sources_of(c).paired_flow == ContractSource::Contract,
        bands_resolution(c, t) is Ok <==> sources_of(c).acceptance_bands == ContractSource::Contract,
        weights_resolution(c, t) is Ok <==> sources_of(c).scoring_weights == ContractSource::Contract,
        window_resolution(c, t) is Ok <==> sources_of(c).window_shape == ContractSource::Contract,
        model_identity_resolution(c, t) is Ok <==> sources_of(c).model_shape == ContractSource::Contract,
        baseline_resolution(c, t) is Ok <==> sources_of(c).official_baseline == ContractSource::Contract
            && sources_of(c).acceptance_bands == ContractSource::Contract,
        regime_resolution(c, t) matches Ok(r) ==> r.source == ContractSource::Contract,
        live_control_leg_resolution(c, t) matches Ok(r) ==> r.source == ContractSource::Contract,
        paired_flow_resolution(c, t) matches Ok(r) ==> r.source == ContractSource::Contract,
        baseline_resolution(c, t) matches Ok(r) ==> r.source == ContractSource::Contract,
        bands_resolution(c, t) matches Ok(r) ==> r.source == ContractSource::Contract,
        weights_resolution(c, t) matches Ok(r) ==> r.source == ContractSource::Contract,
        window_resolution(c, t) matches Ok(r) ==> r.source == ContractSource::Contract,
        model_identity_resolution(c, t) matches Ok(r) ==> r.source == ContractSource::Contract,
{
}

/// THE FIXTURE IS THE ONLY AUTHORITY: what a fixture resolves to does not depend on the track
/// id the run names. Any two track ids get the same verdict for every group, and the same
/// value whenever the group resolves; only a refusal's text names the track.
pub proof fn resolution_ignores_the_track_id(c: Contract, t1: Seq<char>, t2: Seq<char>)
    ensures
        regime_resolution(c, t1) is Ok == regime_resolution(c, t2) is Ok,
        regime_resolution(c, t1) is Ok ==> regime_resolution(c, t1) == regime_resolution(c, t2),
        live_control_leg_resolution(c, t1) is Ok == live_control_leg_resolution(c, t2) is Ok,
        live_control_leg_resolution(c, t1) is Ok ==> live_control_leg_resolution(c, t1) == live_control_leg_resolution(c, t2),
        paired_flow_resolution(c, t1) is Ok == paired_flow_resolution(c, t2) is Ok,
        paired_flow_resolution(c, t1) is Ok ==> paired_flow_resolution(c, t1) == paired_flow_resolution(c, t2),
        baseline_resolution(c, t1) is Ok == baseline_resolution(c, t2) is Ok,
        baseline_resolution(c, t1) is Ok ==> baseline_resolution(c, t1) == baseline_resolution(c, t2),
        bands_resolution(c, t1) is Ok == bands_resolution(c, t2) is Ok,
        bands_resolution(c, t1) is Ok ==> bands_resolution(c, t1) == bands_resolution(c, t2),
        weights_resolution(c, t1) is Ok == weights_resolution(c, t2) is Ok,
        weights_resolution(c, t1) is Ok ==> weights_resolution(c, t1) == weights_resolution(c, t2),
        window_resolution(c, t1) is Ok == window_resolution(c, t2) is Ok,
        window_resolution(c, t1) is Ok ==> window_resolution(c, t1) == window_resolution(c, t2),
        model_identity_resolution(c, t1) is Ok == model_identity_resolution(c, t2) is Ok,
        model_identity_resolution(c, t1) is Ok ==> model_identity_resolution(c, t1) == model_identity_resolution(c, t2),
        floors_resolution(c, t1) is Ok == floors_resolution(c, t2) is Ok,
        floors_resolution(c, t1) is Ok ==> floors_resolution(c, t1) == floors_resolution(c, t2),
        pairs_resolution(c, t1) is Ok == pairs_resolution(c, t2) is Ok,
        pairs_resolution(c, t1) is Ok ==> pairs_resolution(c, t1) == pairs_resolution(c, t2),
{
}

/// A SILENT FIXTURE REFUSES EVERY GROUP: a contract that declares nothing certifies (there is
/// nothing to range-check), seals every group as measured on the device, and every resolver
/// refuses it.
pub proof fn a_silent_fixture_refuses_every_group(c: Contract, t: Seq<char>)
    requires
        declares_nothing(c),
    ensures
        certification(c) is None,
        regime_resolution(c, t) is Err,
        live_control_leg_resolution(c, t) is Err,
        paired_flow_resolution(c, t) is Err,
        baseline_resolution(c, t) is Err,
        bands_resolution(c, t) is Err,
        weights_resolution(c, t) is Err,
        window_resolution(c, t) is Err,
        model_identity_resolution(c, t) is Err,
        floors_resolution(c, t) is Err,
        pairs_resolution(c, t) is Err,
        sources_of(c) == (ContractSources {
            scored_regime: ContractSource::Device,
            live_control_leg: ContractSource::Device,
            paired_flow: ContractSource::Device,
            official_baseline: ContractSource::Device,
            acceptance_bands: ContractSource::Device,
            scoring_weights: ContractSource::Device,
            window_shape: ContractSource::Device,
            model_shape: ContractSource::Device,
        }),
{
}

/// CERTIFICATION AND RESOLUTION NEVER DISAGREE: every group a certified fixture declares is
/// whole, and every value it declares passes its range rule, so a resolver never hands out a
/// value certification would have refused.
pub proof fn a_certified_fixture_resolves_usable_values(c: Contract, t: Seq<char>)
    requires
        certification(c) is None,
    ensures
        c.decode_speedup_floor is Some ==> floor_resolution(c.decode_speedup_floor, "decode_speedup_floor"@, t) is Ok,
        c.prefill_speedup_floor is Some ==> floor_resolution(c.prefill_speedup_floor, "prefill_speedup_floor"@, t) is Ok,
        c.decode_speedup_floor is Some && c.prefill_speedup_floor is Some ==> floors_resolution(c, t) is Ok,
        c.official_pairs is Some ==> pairs_resolution(c, t) is Ok,
        c.scored_batch_size matches Some(n) ==> n >= 1,
        c.prefill_gain_exponent is Some || c.decode_gain_exponent is Some ==> regime_declared(c),
        regime_resolution(c, t) matches Ok(r) ==> {
            &&& r.value.scored_batch_size >= 1
            &&& bits_finite_non_negative(r.value.prefill_gain_exponent.bits)
            &&& bits_finite_non_negative(r.value.decode_gain_exponent.bits)
            &&& !(bits_zero(r.value.prefill_gain_exponent.bits) && bits_zero(r.value.decode_gain_exponent.bits))
        },
        c.official_baseline_prefill_seconds_per_token is Some
            || c.official_baseline_decode_seconds_per_token is Some ==> baseline_pair_declared(c),
        baseline_pair_declared(c) ==> {
            &&& bits_finite_positive(c.official_baseline_prefill_seconds_per_token->0.bits)
            &&& bits_finite_positive(c.official_baseline_decode_seconds_per_token->0.bits)
            &&& c.scores_against_live_control_leg != Some(true)
        },
        c.prefill_band_up_tolerance is Some || c.prefill_band_down_tolerance is Some
            || c.decode_band_up_tolerance is Some || c.decode_band_down_tolerance is Some
            || c.decode_band_down_enabled is Some || c.prefill_band_down_enabled is Some ==> bands_declared(c),
        bands_resolution(c, t) matches Ok(r) ==> {
            &&& bits_finite_non_negative(r.value.prefill_up_tolerance.bits)
            &&& bits_finite_non_negative(r.value.prefill_down_tolerance.bits)
            &&& bits_finite_non_negative(r.value.decode_up_tolerance.bits)
            &&& bits_finite_non_negative(r.value.decode_down_tolerance.bits)
        },
        c.score_decode_weight is Some || c.score_prefill_weight is Some ==> weights_declared(c),
        weights_resolution(c, t) matches Ok(r) ==> {
            &&& bits_finite_non_negative(r.value.decode.bits)
            &&& bits_finite_non_negative(r.value.prefill.bits)
            &&& !(bits_zero(r.value.decode.bits) && bits_zero(r.value.prefill.bits))
        },
        c.correctness_steps is Some || c.benchmark_decode_steps is Some
            || c.local_submit_benchmark_decode_steps is Some
            || c.official_prefill_warmup_runs is Some ==> window_declared(c),
        window_resolution(c, t) matches Ok(r) ==> {
            &&& r.value.correctness_steps >= 1
            &&& r.value.benchmark_decode_steps >= 1
            &&& r.value.local_submit_benchmark_decode_steps >= 1
        },
        c.vocab_size is Some || c.num_hidden_layers is Some || c.seed_tokens is Some
            || c.golden_model_type is Some ==> model_shape_declared(c),
        model_identity_resolution(c, t) matches Ok(r) ==> {
            &&& r.value.vocab_size >= 1
            &&& r.value.num_hidden_layers >= 1
            &&& r.value.seed_tokens >= 1
            &&& trim(r.value.golden_model_type@).len() > 0
        },
{
}

/// THE ARM GATE ACCEPTS ONLY AN ARMED FIXTURE: a scoring run proceeds exactly when the fixture
/// declares `official_scoring_enabled: true`, a non-scoring run always proceeds, and the two
/// refusals (declared `false`, absent) are different messages, because they call for different
/// actions.
pub proof fn the_arm_gate_accepts_only_an_armed_fixture(enabled: Option<bool>, t: Seq<char>)
    ensures
        arm_gate(true, enabled, t) is Ok <==> enabled == Some(true),
        arm_gate(false, enabled, t) is Ok,
        arm_gate(true, Some(false), t) != arm_gate(true, None, t),
{
    let opening = "official scoring is not enabled for this track: the --contract track fixture for "@;
    let unarmed = " declares official_scoring_enabled: false, so benchd refuses to seal an official/ranked scoring artifact for it. This is the track's ARM STATE and only the track fixture may change it — pass --local-dev to iterate against the unarmed track (no scoring seal), or wait for the track to be armed."@;
    let silent = " declares NO official_scoring_enabled at all, and an absent arm state is NOT an armed one (fail-closed) — benchd refuses to seal an official/ranked scoring artifact for it. Add official_scoring_enabled: true to the track fixture to arm it, or pass --local-dev to iterate against the unarmed track (no scoring seal)."@;
    reveal_strlit(" declares official_scoring_enabled: false, so benchd refuses to seal an official/ranked scoring artifact for it. This is the track's ARM STATE and only the track fixture may change it — pass --local-dev to iterate against the unarmed track (no scoring seal), or wait for the track to be armed.");
    reveal_strlit(" declares NO official_scoring_enabled at all, and an absent arm state is NOT an armed one (fail-closed) — benchd refuses to seal an official/ranked scoring artifact for it. Add official_scoring_enabled: true to the track fixture to arm it, or pass --local-dev to iterate against the unarmed track (no scoring seal).");
    let at = (opening.len() + quoted(t).len() + 10) as int;
    let e1 = opening + quoted(t) + unarmed;
    let e2 = opening + quoted(t) + silent;
    assert(e1[at] == unarmed[10]);
    assert(e2[at] == silent[10]);
    assert(unarmed[10] == 'o');
    assert(silent[10] == 'N');
}


/// EVERY RESOLVER HANDS OUT EXACTLY WHAT THE FIXTURE DECLARES, FIELD FOR FIELD: each group
/// resolves exactly when the fixture declares all of its values (the floors and the pair count
/// also when each declared value is usable), and then every resolved value is the fixture field
/// of the same name: the decode up tolerance is `decode_band_up_tolerance`, the decode exponent
/// is `decode_gain_exponent`, a declared pair count of one or more is that count, and so on.
pub proof fn resolvers_hand_out_the_declared_fields(c: Contract, t: Seq<char>)
    ensures
        regime_resolution(c, t) is Ok <==> (c.scored_batch_size is Some && c.prefill_gain_exponent is Some
            && c.decode_gain_exponent is Some),
        regime_resolution(c, t) matches Ok(r) ==> {
            &&& r.value.scored_batch_size == c.scored_batch_size->0
            &&& r.value.prefill_gain_exponent == c.prefill_gain_exponent->0
            &&& r.value.decode_gain_exponent == c.decode_gain_exponent->0
        },
        live_control_leg_resolution(c, t) is Ok <==> c.scores_against_live_control_leg is Some,
        live_control_leg_resolution(c, t) matches Ok(r) ==> r.value == c.scores_against_live_control_leg->0,
        paired_flow_resolution(c, t) is Ok <==> c.paired_flow_retired is Some,
        paired_flow_resolution(c, t) matches Ok(r) ==> r.value == c.paired_flow_retired->0,
        bands_resolution(c, t) is Ok <==> (c.prefill_band_up_tolerance is Some
            && c.prefill_band_down_tolerance is Some && c.decode_band_up_tolerance is Some
            && c.decode_band_down_tolerance is Some && c.decode_band_down_enabled is Some
            && c.prefill_band_down_enabled is Some),
        bands_resolution(c, t) matches Ok(r) ==> {
            &&& r.value.prefill_up_tolerance == c.prefill_band_up_tolerance->0
            &&& r.value.prefill_down_tolerance == c.prefill_band_down_tolerance->0
            &&& r.value.decode_up_tolerance == c.decode_band_up_tolerance->0
            &&& r.value.decode_down_tolerance == c.decode_band_down_tolerance->0
            &&& r.value.decode_down_enabled == c.decode_band_down_enabled->0
            &&& r.value.prefill_down_enabled == c.prefill_band_down_enabled->0
        },
        baseline_resolution(c, t) is Ok <==> (c.official_baseline_prefill_seconds_per_token is Some
            && c.official_baseline_decode_seconds_per_token is Some
            && c.prefill_band_up_tolerance is Some
            && c.prefill_band_down_tolerance is Some && c.decode_band_up_tolerance is Some
            && c.decode_band_down_tolerance is Some && c.decode_band_down_enabled is Some
            && c.prefill_band_down_enabled is Some),
        baseline_resolution(c, t) matches Ok(r) ==> {
            &&& r.value.prefill_seconds_per_token == c.official_baseline_prefill_seconds_per_token->0
            &&& r.value.decode_seconds_per_token == c.official_baseline_decode_seconds_per_token->0
            &&& r.value.bands.prefill_up_tolerance == c.prefill_band_up_tolerance->0
            &&& r.value.bands.prefill_down_tolerance == c.prefill_band_down_tolerance->0
            &&& r.value.bands.decode_up_tolerance == c.decode_band_up_tolerance->0
            &&& r.value.bands.decode_down_tolerance == c.decode_band_down_tolerance->0
            &&& r.value.bands.decode_down_enabled == c.decode_band_down_enabled->0
            &&& r.value.bands.prefill_down_enabled == c.prefill_band_down_enabled->0
        },
        weights_resolution(c, t) is Ok <==> (c.score_decode_weight is Some && c.score_prefill_weight is Some),
        weights_resolution(c, t) matches Ok(r) ==> {
            &&& r.value.decode == c.score_decode_weight->0
            &&& r.value.prefill == c.score_prefill_weight->0
        },
        window_resolution(c, t) is Ok <==> (c.correctness_steps is Some && c.benchmark_decode_steps is Some
            && c.local_submit_benchmark_decode_steps is Some && c.official_prefill_warmup_runs is Some),
        window_resolution(c, t) matches Ok(r) ==> {
            &&& r.value.correctness_steps == c.correctness_steps->0
            &&& r.value.benchmark_decode_steps == c.benchmark_decode_steps->0
            &&& r.value.local_submit_benchmark_decode_steps == c.local_submit_benchmark_decode_steps->0
            &&& r.value.official_prefill_warmup_runs == c.official_prefill_warmup_runs->0
        },
        model_identity_resolution(c, t) is Ok <==> (c.vocab_size is Some && c.num_hidden_layers is Some
            && c.seed_tokens is Some && c.golden_model_type is Some),
        model_identity_resolution(c, t) matches Ok(r) ==> {
            &&& r.value.golden_model_type == c.golden_model_type->0
            &&& r.value.vocab_size == c.vocab_size->0
            &&& r.value.num_hidden_layers == c.num_hidden_layers->0
            &&& r.value.seed_tokens == c.seed_tokens->0
        },
        floors_resolution(c, t) is Ok <==> (c.decode_speedup_floor is Some && c.prefill_speedup_floor is Some
            && bits_finite_positive(c.decode_speedup_floor->0.bits)
            && bits_finite_positive(c.prefill_speedup_floor->0.bits)),
        floors_resolution(c, t) matches Ok(f) ==> {
            &&& f.decode == c.decode_speedup_floor->0
            &&& f.prefill == c.prefill_speedup_floor->0
        },
        pairs_resolution(c, t) is Ok <==> (c.official_pairs is Some && c.official_pairs->0 >= 1),
        forall|n: u32| c.official_pairs == Some(n) && n >= 1 ==> #[trigger] pairs_resolution(c, t) == Ok::<usize, Seq<char>>(n as usize),
{
}

/// CERTIFICATION ACCEPTS EXACTLY THE USABLE FIXTURES: a fixture certifies if and only if every
/// declared floor is finite and positive, a declared pair count and batch size are at least 1,
/// and each group is either wholly absent or wholly declared with usable values:
/// - regime: both exponents finite and non-negative, not both zero, with a batch size;
/// - baseline pair: both halves finite and positive, and no live control leg;
/// - band shape: all six values, the four tolerances finite and non-negative;
/// - weights: both finite and non-negative and not both zero (a pair with a positive sum,
///   one weight zero included, certifies);
/// - window: all four values, the three step counts at least 1 (the warm-up count may be 0);
/// - model shape: all four values, the three counts at least 1, the model type not blank.
pub proof fn certification_accepts_exactly_the_usable_fixtures(c: Contract)
    ensures
        certification(c) is None <==> {
            &&& (c.decode_speedup_floor matches Some(v) ==> bits_finite_positive(v.bits))
            &&& (c.prefill_speedup_floor matches Some(v) ==> bits_finite_positive(v.bits))
            &&& (c.official_pairs matches Some(n) ==> n >= 1)
            &&& (c.scored_batch_size matches Some(n) ==> n >= 1)
            &&& ((c.prefill_gain_exponent is None && c.decode_gain_exponent is None) || {
                &&& c.prefill_gain_exponent is Some
                &&& c.decode_gain_exponent is Some
                &&& c.scored_batch_size is Some
                &&& bits_finite_non_negative(c.prefill_gain_exponent->0.bits)
                &&& bits_finite_non_negative(c.decode_gain_exponent->0.bits)
                &&& !(bits_zero(c.prefill_gain_exponent->0.bits) && bits_zero(c.decode_gain_exponent->0.bits))
            })
            &&& ((c.official_baseline_prefill_seconds_per_token is None
                && c.official_baseline_decode_seconds_per_token is None) || {
                &&& c.official_baseline_prefill_seconds_per_token is Some
                &&& c.official_baseline_decode_seconds_per_token is Some
                &&& bits_finite_positive(c.official_baseline_prefill_seconds_per_token->0.bits)
                &&& bits_finite_positive(c.official_baseline_decode_seconds_per_token->0.bits)
                &&& c.scores_against_live_control_leg != Some(true)
            })
            &&& ((c.prefill_band_up_tolerance is None && c.prefill_band_down_tolerance is None
                && c.decode_band_up_tolerance is None && c.decode_band_down_tolerance is None
                && c.decode_band_down_enabled is None && c.prefill_band_down_enabled is None) || {
                &&& c.prefill_band_up_tolerance is Some
                &&& c.prefill_band_down_tolerance is Some
                &&& c.decode_band_up_tolerance is Some
                &&& c.decode_band_down_tolerance is Some
                &&& c.decode_band_down_enabled is Some
                &&& c.prefill_band_down_enabled is Some
                &&& bits_finite_non_negative(c.prefill_band_up_tolerance->0.bits)
                &&& bits_finite_non_negative(c.prefill_band_down_tolerance->0.bits)
                &&& bits_finite_non_negative(c.decode_band_up_tolerance->0.bits)
                &&& bits_finite_non_negative(c.decode_band_down_tolerance->0.bits)
            })
            &&& ((c.score_decode_weight is None && c.score_prefill_weight is None) || {
                &&& c.score_decode_weight is Some
                &&& c.score_prefill_weight is Some
                &&& bits_finite_non_negative(c.score_decode_weight->0.bits)
                &&& bits_finite_non_negative(c.score_prefill_weight->0.bits)
                &&& !(bits_zero(c.score_decode_weight->0.bits) && bits_zero(c.score_prefill_weight->0.bits))
            })
            &&& ((c.correctness_steps is None && c.benchmark_decode_steps is None
                && c.local_submit_benchmark_decode_steps is None && c.official_prefill_warmup_runs is None) || {
                &&& c.correctness_steps is Some
                &&& c.benchmark_decode_steps is Some
                &&& c.local_submit_benchmark_decode_steps is Some
                &&& c.official_prefill_warmup_runs is Some
                &&& c.correctness_steps->0 >= 1
                &&& c.benchmark_decode_steps->0 >= 1
                &&& c.local_submit_benchmark_decode_steps->0 >= 1
            })
            &&& ((c.vocab_size is None && c.num_hidden_layers is None && c.seed_tokens is None
                && c.golden_model_type is None) || {
                &&& c.vocab_size is Some
                &&& c.num_hidden_layers is Some
                &&& c.seed_tokens is Some
                &&& c.golden_model_type is Some
                &&& c.vocab_size->0 >= 1
                &&& c.num_hidden_layers->0 >= 1
                &&& c.seed_tokens->0 >= 1
                &&& trim(c.golden_model_type->0@).len() > 0
            })
        },
{
}

} // verus!
