use bench_core::contract::{
    acceptance_bands, enforce_official_scoring_enabled, enforce_paired_flow_available,
    model_identity, official_baseline, official_pairs, paired_flow_retired, scored_regime,
    scores_against_live_control_leg, scoring_weights, sources, speedup_floors, window_shape,
    Contract, ContractSource, ContractSources, LoadedContract, PromptPoolEntry,
};
use bench_core::digest::sha256_hex;
use bench_core::number::FixtureNumber;
use bench_core::track::{
    TrackModelIdentity, WindowShape, ACCEPTANCE_BANDS_UNDECLARED, MODEL_IDENTITY_UNDECLARED,
    OFFICIAL_BASELINE_PENDING, PAIRED_FLOW_RETIRED_FOR_TRACK, SCORED_REGIME_PENDING,
    WINDOW_SHAPE_UNDECLARED,
};
use serde_json::Value;

/// A fixture number as the JSON reader produces it: the binary64 value and its decimal text.
fn num(v: f64) -> FixtureNumber {
    FixtureNumber::new(v.to_bits(), format!("{v}"))
}

fn field_err(key: &str, want: &str, got: &Value) -> String {
    format!("--contract parse failed: invalid type for `{key}`: expected {want}, got {got}")
}

fn opt_f64(obj: &serde_json::Map<String, Value>, key: &str) -> Result<Option<FixtureNumber>, String> {
    match obj.get(key) {
        None | Some(Value::Null) => Ok(None),
        Some(v) => v.as_f64().map(|x| Some(num(x))).ok_or_else(|| field_err(key, "f64", v)),
    }
}

fn opt_u32(obj: &serde_json::Map<String, Value>, key: &str) -> Result<Option<u32>, String> {
    match obj.get(key) {
        None | Some(Value::Null) => Ok(None),
        Some(v) => v
            .as_u64()
            .and_then(|x| u32::try_from(x).ok())
            .map(Some)
            .ok_or_else(|| field_err(key, "u32", v)),
    }
}

fn opt_bool(obj: &serde_json::Map<String, Value>, key: &str) -> Result<Option<bool>, String> {
    match obj.get(key) {
        None | Some(Value::Null) => Ok(None),
        Some(v) => v.as_bool().map(Some).ok_or_else(|| field_err(key, "bool", v)),
    }
}

fn opt_string(obj: &serde_json::Map<String, Value>, key: &str) -> Result<Option<String>, String> {
    match obj.get(key) {
        None | Some(Value::Null) => Ok(None),
        Some(v) => v.as_str().map(|s| Some(s.to_string())).ok_or_else(|| field_err(key, "string", v)),
    }
}

/// Reads a fixture's JSON into the library's contract the way the typed reader does (every
/// field optional, unknown keys ignored, a value of the wrong type fails closed) and certifies it.
fn parse(json: &str) -> Result<Contract, String> {
    let value: Value =
        serde_json::from_str(json).map_err(|e| format!("--contract parse failed: {e}"))?;
    let obj = value
        .as_object()
        .ok_or_else(|| "--contract parse failed: expected an object".to_string())?;
    let mut pool = Vec::new();
    if let Some(entries) = obj.get("timed_prompt_pool") {
        let entries = entries
            .as_array()
            .ok_or_else(|| field_err("timed_prompt_pool", "array", entries))?;
        for e in entries {
            let e = e.as_object().ok_or_else(|| field_err("timed_prompt_pool", "object", e))?;
            let sha256 = opt_string(e, "sha256")?
                .ok_or_else(|| "--contract parse failed: missing field `sha256`".to_string())?;
            let bytes = match e.get("bytes") {
                None | Some(Value::Null) => None,
                Some(v) => Some(v.as_u64().ok_or_else(|| field_err("bytes", "u64", v))?),
            };
            pool.push(PromptPoolEntry {
                sha256,
                bytes,
                noop_decode_speedup: opt_f64(e, "noop_decode_speedup")?,
            });
        }
    }
    let allowed_modes = match obj.get("allowed_modes") {
        None | Some(Value::Null) => None,
        Some(v) => {
            let list = v.as_array().ok_or_else(|| field_err("allowed_modes", "array", v))?;
            let mut modes = Vec::new();
            for m in list {
                modes.push(m.as_str().ok_or_else(|| field_err("allowed_modes", "string", m))?.to_string());
            }
            Some(modes)
        }
    };
    let contract = Contract {
        track_id: opt_string(obj, "track_id")?,
        track_name: opt_string(obj, "track_name")?,
        timed_prompt_pool: pool,
        official_scoring_enabled: opt_bool(obj, "official_scoring_enabled")?,
        allowed_modes,
        official_pairs: opt_u32(obj, "official_pairs")?,
        decode_speedup_floor: opt_f64(obj, "decode_speedup_floor")?,
        prefill_speedup_floor: opt_f64(obj, "prefill_speedup_floor")?,
        scored_batch_size: opt_u32(obj, "scored_batch_size")?,
        prefill_gain_exponent: opt_f64(obj, "prefill_gain_exponent")?,
        decode_gain_exponent: opt_f64(obj, "decode_gain_exponent")?,
        scores_against_live_control_leg: opt_bool(obj, "scores_against_live_control_leg")?,
        paired_flow_retired: opt_bool(obj, "paired_flow_retired")?,
        official_baseline_prefill_seconds_per_token: opt_f64(obj, "official_baseline_prefill_seconds_per_token")?,
        official_baseline_decode_seconds_per_token: opt_f64(obj, "official_baseline_decode_seconds_per_token")?,
        prefill_band_up_tolerance: opt_f64(obj, "prefill_band_up_tolerance")?,
        prefill_band_down_tolerance: opt_f64(obj, "prefill_band_down_tolerance")?,
        decode_band_up_tolerance: opt_f64(obj, "decode_band_up_tolerance")?,
        decode_band_down_tolerance: opt_f64(obj, "decode_band_down_tolerance")?,
        decode_band_down_enabled: opt_bool(obj, "decode_band_down_enabled")?,
        prefill_band_down_enabled: opt_bool(obj, "prefill_band_down_enabled")?,
        score_decode_weight: opt_f64(obj, "score_decode_weight")?,
        score_prefill_weight: opt_f64(obj, "score_prefill_weight")?,
        correctness_steps: opt_u32(obj, "correctness_steps")?,
        benchmark_decode_steps: opt_u32(obj, "benchmark_decode_steps")?,
        local_submit_benchmark_decode_steps: opt_u32(obj, "local_submit_benchmark_decode_steps")?,
        official_prefill_warmup_runs: opt_u32(obj, "official_prefill_warmup_runs")?,
        vocab_size: opt_u32(obj, "vocab_size")?,
        num_hidden_layers: opt_u32(obj, "num_hidden_layers")?,
        seed_tokens: opt_u32(obj, "seed_tokens")?,
        golden_model_type: opt_string(obj, "golden_model_type")?,
    };
    contract.certify()?;
    Ok(contract)
}

fn none() -> Contract {
    Contract::none_declared()
}

fn value_of(n: &FixtureNumber) -> f64 {
    f64::from_bits(n.bits)
}

#[test]
fn contract_parses_official_scoring_enabled_as_a_tri_state() {
    let armed = parse(r#"{"track_id":"t","official_scoring_enabled":true}"#).unwrap();
    assert_eq!(armed.official_scoring_enabled, Some(true));

    let unarmed = parse(r#"{"track_id":"t","official_scoring_enabled":false}"#).unwrap();
    assert_eq!(unarmed.official_scoring_enabled, Some(false));

    let silent = parse(r#"{"track_id":"t"}"#).unwrap();
    assert_eq!(silent.official_scoring_enabled, None);
}

#[test]
fn contract_ignores_unmodelled_fixture_keys() {
    let full = parse(
        r#"{"track_id":"t","official_scoring_enabled":true,
             "timed_prompt_pool":[{"sha256":"ab","bytes":3}],
             "allowed_modes":["mtp"],"scored_batch_size":1,
             "calibration":{"expected_raw_median":0.994,"band_pct":2.0},
             "hidden_correctness_golden":{"sha256":"cd","bytes":7},
             "reference_model":{"repository":"r","revision":"v"}}"#,
    )
    .unwrap();
    assert_eq!(full.official_scoring_enabled, Some(true));
    assert_eq!(full.track_id.as_deref(), Some("t"));
    assert_eq!(full.scored_batch_size, Some(1));
}

#[test]
fn contract_parse_fails_closed_on_malformed() {
    assert!(parse(r#"{"track_id": "#).is_err());
    assert!(parse("not json").is_err());
}

#[test]
fn official_scoring_arm_gate_truth_table() {
    assert!(enforce_official_scoring_enabled(true, Some(true), "t").is_ok());

    let declared_false = enforce_official_scoring_enabled(true, Some(false), "gemma4-track")
        .expect_err("a scoring run over an unarmed track must refuse");
    assert!(
        declared_false.contains("official scoring is not enabled for this track"),
        "the refusal must lead with the ruled wording: {declared_false}"
    );
    assert!(
        declared_false.contains("official_scoring_enabled") && declared_false.contains("gemma4-track"),
        "the refusal must NAME the flag and the track: {declared_false}"
    );
    assert!(
        declared_false.contains("--local-dev"),
        "the refusal must name the un-gated local path: {declared_false}"
    );

    let absent = enforce_official_scoring_enabled(true, None, "silent-track")
        .expect_err("absence is not armed");
    assert!(
        absent.contains("official scoring is not enabled for this track")
            && absent.contains("official_scoring_enabled"),
        "an absent flag is refused with the flag named: {absent}"
    );
    assert_ne!(
        absent, declared_false,
        "absent and false must not produce the SAME message — they need different actions"
    );

    for state in [Some(true), Some(false), None] {
        assert!(
            enforce_official_scoring_enabled(false, state, "t").is_ok(),
            "a non-scoring run must be unaffected by official_scoring_enabled = {state:?}"
        );
    }
}

#[test]
fn the_pair_count_comes_from_the_fixture_alone() {
    let two = parse(r#"{"official_scoring_enabled": true, "official_pairs": 2}"#).unwrap();
    assert_eq!(official_pairs(&two, "t"), Ok(2));
    let absent = parse(r#"{"official_scoring_enabled": true}"#).unwrap();
    let err = official_pairs(&absent, "qwen3.8-125b-a6b-cuda-v1").unwrap_err();
    assert!(err.contains("declares no official_pairs"), "{err}");
    assert!(err.contains("qwen3.8-125b-a6b-cuda-v1"), "{err}");
    let err = parse(r#"{"official_scoring_enabled": true, "official_pairs": 0}"#).unwrap_err();
    assert!(err.contains("official_pairs: 0"), "{err}");
}

#[test]
fn the_floors_come_from_the_fixture_alone() {
    let ruled = parse(
        r#"{"official_scoring_enabled": true, "official_pairs": 2,
             "decode_speedup_floor": 0.95, "prefill_speedup_floor": 0.95}"#,
    )
    .unwrap();
    let floors = speedup_floors(&ruled, "t").unwrap();
    assert_eq!(value_of(&floors.decode), 0.95);
    assert_eq!(value_of(&floors.prefill), 0.95);

    let per_project = parse(r#"{"decode_speedup_floor": 0.90, "prefill_speedup_floor": 0.80}"#).unwrap();
    let floors = speedup_floors(&per_project, "t").unwrap();
    assert_eq!(value_of(&floors.decode), 0.90);
    assert_eq!(value_of(&floors.prefill), 0.80);

    let decode_only = parse(r#"{"decode_speedup_floor": 0.95}"#).unwrap();
    let err = speedup_floors(&decode_only, "qwen3.8-125b-a6b-cuda-v1").unwrap_err();
    assert!(err.contains("declares no prefill_speedup_floor"), "{err}");
    assert!(err.contains("qwen3.8-125b-a6b-cuda-v1"), "{err}");

    let neither = parse(r#"{"official_scoring_enabled": true}"#).unwrap();
    let err = speedup_floors(&neither, "t").unwrap_err();
    assert!(err.contains("declares no decode_speedup_floor"), "{err}");
    assert!(err.contains("David 2026-09-09"), "{err}");

    for body in [
        r#"{"decode_speedup_floor": 0.0, "prefill_speedup_floor": 0.95}"#,
        r#"{"decode_speedup_floor": -0.5, "prefill_speedup_floor": 0.95}"#,
        r#"{"decode_speedup_floor": 0.95, "prefill_speedup_floor": 0.0}"#,
    ] {
        let err = parse(body).unwrap_err();
        assert!(err.contains("finite and greater than 0"), "{err}");
    }
    let nan = Contract {
        decode_speedup_floor: Some(num(f64::NAN)),
        prefill_speedup_floor: Some(num(0.95)),
        ..none()
    };
    assert!(speedup_floors(&nan, "t").unwrap_err().contains("finite and greater than 0"));
}

#[test]
fn a_declared_value_is_range_checked_at_the_parse() {
    let ok = parse(
        r#"{"track_id":"qwen3.8-125b-a6b-mlx-v1","official_scoring_enabled":true,
             "official_pairs":2,"decode_speedup_floor":0.95,"prefill_speedup_floor":0.95,
             "scored_batch_size":1}"#,
    )
    .expect("a well-formed fixture certifies");
    assert_eq!(ok.official_pairs, Some(2));
    assert_eq!(ok.scored_batch_size, Some(1));
    let floors = speedup_floors(&ok, "qwen3.8-125b-a6b-mlx-v1").unwrap();
    assert_eq!(value_of(&floors.decode), 0.95);
    assert_eq!(value_of(&floors.prefill), 0.95);

    let err = parse(r#"{"track_id":"gemma4-26b-a4b-mlx-v1","official_pairs":0}"#).unwrap_err();
    assert!(err.contains("gemma4-26b-a4b-mlx-v1"), "{err}");

    let err = parse(r#"{"official_pairs":0}"#).unwrap_err();
    assert!(err.contains("<no declared track_id>"), "{err}");
}

#[test]
fn a_declared_batch_width_is_any_positive_stream_count() {
    assert!(parse(r#"{"scored_batch_size":1}"#).is_ok());
    assert!(
        parse(r#"{"track_id":"t","scored_batch_size":8}"#).is_ok(),
        "a batched width is a configuration, not a defect"
    );
    assert!(
        parse(r#"{"official_scoring_enabled":true}"#).is_ok(),
        "an absent scored_batch_size declares nothing and must not refuse at the parse"
    );
    let err = parse(r#"{"track_id":"t","scored_batch_size":0}"#).unwrap_err();
    assert!(err.contains("scored_batch_size 0"), "{err}");
    assert!(err.contains("at least 1"), "{err}");
}

#[test]
fn a_silent_fixture_refuses_every_group_by_name() {
    const TRACK: &str = "qwen3.8-125b-a6b-mlx-v1";
    let silent = &none();
    for (group, err) in [
        (SCORED_REGIME_PENDING, scored_regime(silent, TRACK).unwrap_err()),
        (OFFICIAL_BASELINE_PENDING, official_baseline(silent, TRACK).unwrap_err()),
        (ACCEPTANCE_BANDS_UNDECLARED, acceptance_bands(silent, TRACK).unwrap_err()),
        (WINDOW_SHAPE_UNDECLARED, window_shape(silent, TRACK).unwrap_err()),
        (MODEL_IDENTITY_UNDECLARED, model_identity(silent, TRACK).unwrap_err()),
    ] {
        assert!(err.contains(group), "the refusal must name {group}: {err}");
        assert!(err.contains(TRACK), "the refusal must name the track: {err}");
        assert!(!err.contains("  "), "the message must carry no padding-space runs: {err}");
    }
    assert!(scores_against_live_control_leg(silent, TRACK).is_err());
    assert!(paired_flow_retired(silent, TRACK).is_err());
    assert!(scoring_weights(silent, TRACK).is_err());
}

#[test]
fn the_fixture_decides_both_flow_flags_for_any_track() {
    const WAS_LISTED: &str = "qwen3.8-125b-a6b-mlx-v1";
    let flipped = parse(
        r#"{"track_id":"qwen3.8-125b-a6b-mlx-v1","scores_against_live_control_leg":false,
             "paired_flow_retired":false}"#,
    )
    .unwrap();
    assert!(!scores_against_live_control_leg(&flipped, WAS_LISTED).unwrap().value);
    assert!(!paired_flow_retired(&flipped, WAS_LISTED).unwrap().value);
    assert!(enforce_paired_flow_available(&flipped, WAS_LISTED).is_ok());

    const WAS_UNLISTED: &str = "qwen3.8-27b-mtp-v1";
    let opted_in = parse(
        r#"{"track_id":"qwen3.8-27b-mtp-v1","scores_against_live_control_leg":true,
             "paired_flow_retired":true}"#,
    )
    .unwrap();
    assert!(scores_against_live_control_leg(&opted_in, WAS_UNLISTED).unwrap().value);
    let err = enforce_paired_flow_available(&opted_in, WAS_UNLISTED)
        .expect_err("a fixture may retire the paired flow for its own track");
    assert!(err.contains(PAIRED_FLOW_RETIRED_FOR_TRACK), "{err}");

    const UNKNOWN: &str = "qwen4.0-9b-mlx-v1";
    let fresh = parse(
        r#"{"track_id":"qwen4.0-9b-mlx-v1","scored_batch_size":4,
             "prefill_gain_exponent":0.25,"decode_gain_exponent":0.75,
             "scores_against_live_control_leg":true,"paired_flow_retired":true}"#,
    )
    .unwrap();
    let regime = scored_regime(&fresh, UNKNOWN).expect("the fixture declares the regime");
    assert_eq!(regime.value.scored_batch_size, 4);
    assert_eq!(value_of(&regime.value.prefill_gain_exponent), 0.25);
    assert_eq!(regime.source, ContractSource::Contract);
    assert!(scores_against_live_control_leg(&fresh, UNKNOWN).unwrap().value);
}

#[test]
fn a_half_declared_regime_is_refused_at_the_parse() {
    for body in [
        r#"{"track_id":"t","prefill_gain_exponent":0.0}"#,
        r#"{"track_id":"t","decode_gain_exponent":1.0}"#,
        r#"{"track_id":"t","scored_batch_size":1,"decode_gain_exponent":1.0}"#,
    ] {
        let err = parse(body).unwrap_err();
        assert!(err.contains("ONE declaration"), "{err}");
        assert!(err.contains("\"t\""), "{err}");
    }
    let err = parse(
        r#"{"track_id":"t","scored_batch_size":1,"prefill_gain_exponent":0.0,
             "decode_gain_exponent":0.0}"#,
    )
    .unwrap_err();
    assert!(err.contains("weights neither axis"), "{err}");
    let err = parse(
        r#"{"track_id":"t","scored_batch_size":1,"prefill_gain_exponent":-1.0,
             "decode_gain_exponent":1.0}"#,
    )
    .unwrap_err();
    assert!(err.contains("finite and non-negative"), "{err}");
    let batch_only = parse(r#"{"track_id":"t","scored_batch_size":1}"#)
        .expect("a bare scored_batch_size is a cross-check, not a partial regime");
    assert!(scored_regime(&batch_only, "t").is_err());
    let batched = Contract {
        scored_batch_size: Some(8),
        prefill_gain_exponent: Some(num(0.0)),
        decode_gain_exponent: Some(num(1.0)),
        ..none()
    };
    let resolved = scored_regime(&batched, "t").expect("a batched width is a declaration");
    assert_eq!(resolved.value.scored_batch_size, 8);
    assert_eq!(resolved.source, ContractSource::Contract);
}

#[test]
fn a_declared_pair_bands_and_weights_resolve_for_an_unknown_track() {
    const UNKNOWN: &str = "qwen3.9-27b-mlx-v1";
    let declares = parse(
        r#"{"track_id":"qwen3.9-27b-mlx-v1",
             "official_baseline_prefill_seconds_per_token":0.0004,
             "official_baseline_decode_seconds_per_token":0.014,
             "prefill_band_up_tolerance":0.05,"prefill_band_down_tolerance":0.05,
             "decode_band_up_tolerance":0.02,"decode_band_down_tolerance":0.05,
             "decode_band_down_enabled":false,"prefill_band_down_enabled":false,
             "score_decode_weight":0.6,"score_prefill_weight":0.4}"#,
    )
    .unwrap();
    let resolved = official_baseline(&declares, UNKNOWN).expect("the fixture declares a pair");
    assert_eq!(resolved.source, ContractSource::Contract);
    assert_eq!(value_of(&resolved.value.prefill_seconds_per_token), 0.0004);
    assert_eq!(value_of(&resolved.value.decode_seconds_per_token), 0.014);
    assert_eq!(value_of(&resolved.value.bands.decode_up_tolerance), 0.02);
    assert!(!resolved.value.bands.decode_down_enabled);
    let w = scoring_weights(&declares, UNKNOWN).expect("the fixture declares both weights");
    assert_eq!(w.source, ContractSource::Contract);
    assert_eq!(value_of(&w.value.decode), 0.6);
    assert_eq!(value_of(&w.value.prefill), 0.4);

    let bands_only = parse(
        r#"{"track_id":"qwen3.8-125b-a6b-mlx-v1","scores_against_live_control_leg":true,
             "prefill_band_up_tolerance":0.01,"prefill_band_down_tolerance":0.01,
             "decode_band_up_tolerance":0.01,"decode_band_down_tolerance":0.01,
             "decode_band_down_enabled":true,"prefill_band_down_enabled":true}"#,
    )
    .unwrap();
    let resolved = acceptance_bands(&bands_only, "qwen3.8-125b-a6b-mlx-v1")
        .expect("the fixture declares its own band shape");
    assert_eq!(resolved.source, ContractSource::Contract);
    assert!(resolved.value.decode_down_enabled);
    assert_eq!(value_of(&resolved.value.decode_up_tolerance), 0.01);
    let err = official_baseline(&bands_only, "qwen3.8-125b-a6b-mlx-v1").unwrap_err();
    assert!(err.contains(OFFICIAL_BASELINE_PENDING), "{err}");

    let err = scoring_weights(&none(), UNKNOWN).unwrap_err();
    assert!(err.contains("score_decode_weight"), "{err}");
    assert!(err.contains(UNKNOWN), "{err}");
}

#[test]
fn a_half_declared_pair_band_shape_or_weight_pair_is_refused_at_the_parse() {
    for body in [
        r#"{"track_id":"t","official_baseline_prefill_seconds_per_token":0.0004}"#,
        r#"{"track_id":"t","official_baseline_decode_seconds_per_token":0.014}"#,
    ] {
        let err = parse(body).unwrap_err();
        assert!(err.contains("half an official baseline pair"), "{err}");
        assert!(err.contains("\"t\""), "{err}");
    }
    let err = parse(
        r#"{"track_id":"t","official_baseline_prefill_seconds_per_token":0.0,
             "official_baseline_decode_seconds_per_token":0.014}"#,
    )
    .unwrap_err();
    assert!(err.contains("finite and greater than 0"), "{err}");

    let err = parse(r#"{"track_id":"t","prefill_band_up_tolerance":0.05}"#).unwrap_err();
    assert!(err.contains("ONE shape"), "{err}");
    let err = parse(
        r#"{"track_id":"t","prefill_band_up_tolerance":0.05,
             "prefill_band_down_tolerance":0.05,"decode_band_up_tolerance":0.02,
             "decode_band_down_tolerance":0.05,"decode_band_down_enabled":false}"#,
    )
    .unwrap_err();
    assert!(err.contains("prefill_band_down_enabled"), "{err}");
    let err = parse(
        r#"{"track_id":"t","prefill_band_up_tolerance":-0.05,
             "prefill_band_down_tolerance":0.05,"decode_band_up_tolerance":0.02,
             "decode_band_down_tolerance":0.05,"decode_band_down_enabled":false,
             "prefill_band_down_enabled":false}"#,
    )
    .unwrap_err();
    assert!(err.contains("finite and non-negative"), "{err}");

    let err = parse(r#"{"track_id":"t","score_decode_weight":0.75}"#).unwrap_err();
    assert!(err.contains("half a scoring-weight pair"), "{err}");
    let err = parse(r#"{"track_id":"t","score_decode_weight":0.0,"score_prefill_weight":0.0}"#)
        .unwrap_err();
    assert!(err.contains("zero-sum pair"), "{err}");

    let err = parse(
        r#"{"track_id":"t","scores_against_live_control_leg":true,
             "official_baseline_prefill_seconds_per_token":0.0004,
             "official_baseline_decode_seconds_per_token":0.014,
             "prefill_band_up_tolerance":0.05,"prefill_band_down_tolerance":0.05,
             "decode_band_up_tolerance":0.02,"decode_band_down_tolerance":0.05,
             "decode_band_down_enabled":false,"prefill_band_down_enabled":false}"#,
    )
    .unwrap_err();
    assert!(err.contains("different designs"), "{err}");

    let no_bands = parse(
        r#"{"track_id":"qwen3.8-27b-mtp-v1",
             "official_baseline_prefill_seconds_per_token":0.0004,
             "official_baseline_decode_seconds_per_token":0.014}"#,
    )
    .expect("a pair without bands parses; the refusal is at resolution");
    let err = official_baseline(&no_bands, "qwen3.8-27b-mtp-v1").unwrap_err();
    assert!(err.contains("no acceptance band shape"), "{err}");
}

#[test]
fn a_declared_window_is_the_windows_only_source() {
    let declared = parse(
        r#"{"track_id":"qwen3.8-125b-a6b-cuda-v1","correctness_steps":32,
             "benchmark_decode_steps":256,"local_submit_benchmark_decode_steps":2047,
             "official_prefill_warmup_runs":3}"#,
    )
    .unwrap();
    let resolved = window_shape(&declared, "qwen3.8-125b-a6b-cuda-v1")
        .expect("the fixture declares the whole window");
    assert_eq!(resolved.source, ContractSource::Contract);
    assert_eq!(
        resolved.value,
        WindowShape {
            correctness_steps: 32,
            benchmark_decode_steps: 256,
            local_submit_benchmark_decode_steps: 2047,
            official_prefill_warmup_runs: 3,
        }
    );
    assert_eq!(window_shape(&declared, "qwen3.8-125b-a6b-mlx-v1").unwrap().value, resolved.value);

    let err = window_shape(&none(), "t").unwrap_err();
    assert!(err.contains(WINDOW_SHAPE_UNDECLARED), "{err}");
    assert!(err.contains("\"t\""), "{err}");
}

#[test]
fn a_half_declared_window_is_refused_at_the_parse() {
    for body in [
        r#"{"track_id":"t","benchmark_decode_steps":128}"#,
        r#"{"track_id":"t","official_prefill_warmup_runs":1}"#,
        r#"{"track_id":"t","correctness_steps":64,"benchmark_decode_steps":128,
              "local_submit_benchmark_decode_steps":1023}"#,
    ] {
        let err = parse(body).unwrap_err();
        assert!(err.contains("ONE shape"), "{err}");
        assert!(err.contains("\"t\""), "{err}");
    }
    let err = parse(
        r#"{"track_id":"t","correctness_steps":0,"benchmark_decode_steps":128,
             "local_submit_benchmark_decode_steps":1023,"official_prefill_warmup_runs":1}"#,
    )
    .unwrap_err();
    assert!(err.contains("zero steps measures and checks nothing"), "{err}");
    let cuda = parse(
        r#"{"track_id":"t","correctness_steps":64,"benchmark_decode_steps":128,
             "local_submit_benchmark_decode_steps":1023,"official_prefill_warmup_runs":0}"#,
    )
    .expect("a zero warm-up count is a declaration");
    assert_eq!(window_shape(&cuda, "t").unwrap().value.official_prefill_warmup_runs, 0);
}

#[test]
fn a_declared_shape_overrides_all_four_values() {
    const TRACK: &str = "qwen3.8-125b-a6b-mlx-v1";
    let was_table = TrackModelIdentity::new("qwen4_exp_text", 248_320, 48, 1_024);
    let declared = parse(
        r#"{"track_id":"qwen3.8-125b-a6b-mlx-v1","vocab_size":1024,
             "num_hidden_layers":7,"seed_tokens":33,
             "golden_model_type":"declared_text"}"#,
    )
    .unwrap();
    let resolved = model_identity(&declared, TRACK).unwrap();
    assert_eq!(resolved.source, ContractSource::Contract);
    assert_eq!(resolved.value.vocab_size, 1024);
    assert_eq!(resolved.value.num_hidden_layers, 7);
    assert_eq!(resolved.value.seed_tokens, 33);
    assert_eq!(resolved.value.golden_model_type, "declared_text");
    assert_ne!(was_table.vocab_size, 1024);
    assert_ne!(was_table.num_hidden_layers, 7);
    assert_ne!(was_table.seed_tokens, 33);
    assert_ne!(was_table.golden_model_type, "declared_text");

    for track in [TRACK, "qwen3.9-27b-mlx-v1"] {
        let err = model_identity(&none(), track).unwrap_err();
        assert!(err.contains(MODEL_IDENTITY_UNDECLARED), "{err}");
        assert!(err.contains(track), "{err}");
    }
    assert_eq!(
        model_identity(&declared, "qwen3.9-27b-mlx-v1").unwrap().source,
        ContractSource::Contract
    );
}

#[test]
fn an_empty_model_type_is_refused_at_the_parse() {
    let err = parse(
        r#"{"track_id":"t","vocab_size":1024,"num_hidden_layers":7,
             "seed_tokens":33,"golden_model_type":"  "}"#,
    )
    .unwrap_err();
    assert!(err.contains("empty golden_model_type"), "{err}");
    assert!(err.contains("matches no golden"), "{err}");
}

#[test]
fn a_half_declared_model_shape_is_refused_at_the_parse() {
    for body in [
        r#"{"track_id":"t","vocab_size":1024}"#,
        r#"{"track_id":"t","num_hidden_layers":48}"#,
        r#"{"track_id":"t","vocab_size":1024,"seed_tokens":1024}"#,
        r#"{"track_id":"t","vocab_size":1024,"num_hidden_layers":48,"seed_tokens":1024}"#,
        r#"{"track_id":"t","golden_model_type":"qwen4_exp_text"}"#,
    ] {
        let err = parse(body).unwrap_err();
        assert!(err.contains("ONE declaration"), "{err}");
        assert!(err.contains("\"t\""), "{err}");
    }
    for body in [
        r#"{"track_id":"t","vocab_size":0,"num_hidden_layers":48,"seed_tokens":1024}"#,
        r#"{"track_id":"t","vocab_size":1024,"num_hidden_layers":0,"seed_tokens":1024}"#,
        r#"{"track_id":"t","vocab_size":1024,"num_hidden_layers":48,"seed_tokens":0}"#,
    ] {
        let err = parse(body).unwrap_err();
        assert!(err.contains("must each be at least 1"), "{err}");
    }
}

#[test]
fn a_declared_batch_of_one_resolves_to_the_single_stream_width() {
    let single = Contract {
        scored_batch_size: Some(1),
        prefill_gain_exponent: Some(num(0.25)),
        decode_gain_exponent: Some(num(0.75)),
        ..none()
    };
    let resolved = scored_regime(&single, "t").expect("1 is a usable width");
    assert_eq!(resolved.value.scored_batch_size, 1);
    assert_eq!(resolved.source, ContractSource::Contract);
}

#[test]
fn a_batch_size_of_zero_is_refused_at_the_parse() {
    let err = parse(r#"{"track_id":"t","scored_batch_size":0}"#).unwrap_err();
    assert!(err.contains("scored_batch_size 0"), "{err}");
    assert!(err.contains("at least 1"), "{err}");
    assert!(err.contains("\"t\""), "the refusal must name the track: {err}");
    assert!(!err.contains("  "), "the message must carry no padding-space runs: {err}");
}

#[test]
fn a_negative_batch_size_is_refused_at_the_parse() {
    let err = parse(r#"{"track_id":"t","scored_batch_size":-1}"#).unwrap_err();
    assert!(err.contains("--contract parse failed"), "{err}");
}

// ---- further cases ----

#[test]
fn a_declared_batch_of_eight_resolves_and_seals_the_contract() {
    let batched = parse(
        r#"{"track_id":"batched-b8-test-v1","scored_batch_size":8,
             "prefill_gain_exponent":0.0,"decode_gain_exponent":1.0}"#,
    )
    .expect("8 is a usable width");
    let resolved = scored_regime(&batched, "batched-b8-test-v1").unwrap();
    assert_eq!(resolved.value.scored_batch_size, 8);
    assert_eq!(resolved.source, ContractSource::Contract);
    assert_eq!(sources(&batched, "batched-b8-test-v1").scored_regime, ContractSource::Contract);
}

#[test]
fn sources_seal_contract_or_device_and_never_table() {
    let silent = sources(&none(), "t");
    for s in [
        silent.scored_regime,
        silent.live_control_leg,
        silent.paired_flow,
        silent.official_baseline,
        silent.acceptance_bands,
        silent.scoring_weights,
        silent.window_shape,
        silent.model_shape,
    ] {
        assert_eq!(s, ContractSource::Device);
    }
    let live = parse(
        r#"{"track_id":"t","scores_against_live_control_leg":true,"paired_flow_retired":true,
             "prefill_band_up_tolerance":0.05,"prefill_band_down_tolerance":0.05,
             "decode_band_up_tolerance":0.02,"decode_band_down_tolerance":0.05,
             "decode_band_down_enabled":false,"prefill_band_down_enabled":false,
             "score_decode_weight":0.75,"score_prefill_weight":0.25,
             "correctness_steps":64,"benchmark_decode_steps":128,
             "local_submit_benchmark_decode_steps":1023,"official_prefill_warmup_runs":1,
             "vocab_size":248320,"num_hidden_layers":48,"seed_tokens":1024,
             "golden_model_type":"qwen4_exp_text"}"#,
    )
    .unwrap();
    let got = sources(&live, "t");
    assert_eq!(got.scored_regime, ContractSource::Device);
    assert_eq!(got.official_baseline, ContractSource::Device);
    for s in [
        got.live_control_leg,
        got.paired_flow,
        got.acceptance_bands,
        got.scoring_weights,
        got.window_shape,
        got.model_shape,
    ] {
        assert_eq!(s, ContractSource::Contract);
    }
}

#[test]
fn source_spellings_and_the_all_table_payload() {
    assert_eq!(ContractSource::Contract.key(), "contract");
    assert_eq!(ContractSource::Device.key(), "device");
    assert_eq!(ContractSource::Table.key(), "table");
    let all = ContractSources::all_table();
    assert_eq!(all.scored_regime, ContractSource::Table);
    assert_eq!(all.model_shape, ContractSource::Table);
}

#[test]
fn the_loaded_digest_covers_the_exact_certified_bytes() {
    let bytes = b"{\n  \"track_id\": \"qwen3.8-125b-a6b-mlx-v1\",\n  \"official_scoring_enabled\": true,\n  \"official_pairs\": 2,\n  \"decode_speedup_floor\": 0.95,\n  \"prefill_speedup_floor\": 0.95\n}\n";
    let contract = parse(std::str::from_utf8(bytes).unwrap()).unwrap();
    let loaded = LoadedContract::certified(bytes, contract).expect("a well-formed fixture loads");
    assert_eq!(loaded.sha256, sha256_hex(bytes));
    assert_eq!(loaded.sha256.len(), 64);
    assert_eq!(loaded.contract.official_pairs, Some(2));

    let mut edited = bytes.to_vec();
    let at = edited.windows(4).position(|w| w == b"0.95").unwrap();
    edited[at + 3] = b'0';
    let contract = parse(std::str::from_utf8(&edited).unwrap()).unwrap();
    let reloaded = LoadedContract::certified(&edited, contract).expect("0.90 is still a usable floor");
    assert_ne!(reloaded.sha256, loaded.sha256);

    let bad = Contract { official_pairs: Some(0), ..none() };
    let err = LoadedContract::certified(b"{}", bad).unwrap_err();
    assert!(err.contains("official_pairs: 0"), "{err}");
}

#[test]
fn declared_is_the_loaded_contract_or_a_silent_one() {
    let silent = bench_core::contract::declared(None);
    assert_eq!(silent, none());
    let c = Contract { official_pairs: Some(2), ..none() };
    let loaded = LoadedContract::certified(b"x", c).unwrap();
    assert_eq!(bench_core::contract::declared(Some(loaded)).official_pairs, Some(2));
}

#[test]
fn a_refusal_quotes_the_declared_number_as_written() {
    let err = parse(r#"{"track_id":"t","decode_speedup_floor":-0.5,"prefill_speedup_floor":0.95}"#)
        .unwrap_err();
    assert_eq!(
        err,
        "the --contract track fixture for \"t\" declares decode_speedup_floor: -0.5; a speedup floor must be finite and greater than 0 (David 2026-09-09 ruled 0.95/0.95)"
    );
    let err = parse(r#"{"official_pairs":0}"#).unwrap_err();
    assert_eq!(
        err,
        "the --contract track fixture for \"<no declared track_id>\" declares official_pairs: 0; the paired official run needs at least 1 pair (David 2026-09-09 ruled 2)"
    );
}

#[test]
fn a_certified_fixture_resolves_every_group_it_declares() {
    let c = parse(
        r#"{"track_id":"  qwen3.8-27b-mtp-v1  ","scored_batch_size":1,
             "prefill_gain_exponent":0.0,"decode_gain_exponent":1.0,
             "scores_against_live_control_leg":false,"paired_flow_retired":false,
             "official_baseline_prefill_seconds_per_token":0.00036751938916015625,
             "official_baseline_decode_seconds_per_token":0.01385621216015625,
             "prefill_band_up_tolerance":0.03,"prefill_band_down_tolerance":0.03,
             "decode_band_up_tolerance":0.01,"decode_band_down_tolerance":0.025,
             "decode_band_down_enabled":true,"prefill_band_down_enabled":true,
             "score_decode_weight":0.75,"score_prefill_weight":0.25,
             "vocab_size":248320,"num_hidden_layers":64,"seed_tokens":512,
             "golden_model_type":"qwen3_5_text"}"#,
    )
    .unwrap();
    for t in ["qwen3.8-27b-mtp-v1", "another-track"] {
        assert!(scored_regime(&c, t).is_ok());
        assert!(official_baseline(&c, t).is_ok());
        assert!(acceptance_bands(&c, t).is_ok());
        assert!(scoring_weights(&c, t).is_ok());
        assert!(model_identity(&c, t).is_ok());
        assert!(window_shape(&c, t).is_err());
    }
    let b = official_baseline(&c, "x").unwrap().value;
    assert_eq!(value_of(&b.prefill_seconds_per_token), 0.00036751938916015625);
    assert_eq!(value_of(&b.bands.decode_down_tolerance), 0.025);
    assert!(b.bands.prefill_down_enabled);
}
