use bench_core::number::FixtureNumber;
use bench_core::score::{LocalPhases, PhaseStatus};
use bench_core::track::{
    enforce_declared_track, refuse_retired_paired_flow, Platform, ScoredRegime,
    TrackModelIdentity, PAIRED_FLOW_RETIRED_FOR_TRACK, TRACK_ID,
};

#[test]
fn a_foreign_declared_track_refuses_naming_both() {
    const FOREIGN: &str = "gemma4-26b-a4b-mlx-v1";
    assert_ne!(FOREIGN, TRACK_ID);
    let err = enforce_declared_track(FOREIGN).unwrap_err();
    assert!(err.contains("track_id fence"), "{err}");
    assert!(err.contains(FOREIGN), "must name the declared track: {err}");
    assert!(err.contains(TRACK_ID), "must name the tree's track: {err}");

    assert!(enforce_declared_track(TRACK_ID).is_ok());
    assert!(enforce_declared_track(&format!("  {TRACK_ID}  ")).is_ok());
    assert!(enforce_declared_track(&format!("{TRACK_ID}-v2")).is_err());
    assert!(enforce_declared_track("").is_err());
}

#[test]
fn platform_resolves_from_the_canonical_track_id_shape() {
    assert_eq!(Platform::from_track_id("qwen3.8-125b-a6b-mlx-v1").unwrap(), Platform::Mlx);
    assert_eq!(Platform::from_track_id("qwen3.8-125b-a6b-cuda-v1").unwrap(), Platform::Cuda);
    assert_eq!(Platform::from_track_id(" qwen3.8-125b-a6b-cuda-v12 ").unwrap(), Platform::Cuda);
    for bad in [
        "",
        "qwen3.8-125b-a6b-v1",
        "qwen3.8-125b-a6b-spark-v1",
        "qwen3.8-125b-a6b-mlx",
        "qwen3.8-125b-a6b-mlx-v",
        "qwen3.8-125b-a6b-mlx-vX",
        "gemma4-26b-a4b-MLX-v1",
    ] {
        let err = Platform::from_track_id(bad).unwrap_err();
        assert!(err.contains("platform"), "{bad:?}: {err}");
    }
}

// ---- further cases ----

#[test]
fn the_platform_keys_are_the_track_id_tokens() {
    assert_eq!(Platform::Mlx.key(), "mlx");
    assert_eq!(Platform::Cuda.key(), "cuda");
    for p in [Platform::Mlx, Platform::Cuda] {
        assert_eq!(Platform::from_track_id(&format!("m-{}-v7", p.key())).unwrap(), p);
        assert_eq!(Platform::from_track_id(&format!("{}-v1", p.key())).unwrap(), p);
        assert_eq!(Platform::from_track_id(&format!("\t-{}-v0009\n", p.key())).unwrap(), p);
    }
}

#[test]
fn the_two_platform_refusals_read_exactly() {
    assert_eq!(
        Platform::from_track_id("qwen3.8-125b-a6b-mlx").unwrap_err(),
        "track_id \"qwen3.8-125b-a6b-mlx\" does not end in `-{platform}-v{N}`, so it names no platform; the platform keys the reference model and the official baseline and must be resolvable from the track id"
    );
    assert_eq!(
        Platform::from_track_id("qwen3.8-125b-a6b-spark-v1").unwrap_err(),
        "track_id \"qwen3.8-125b-a6b-spark-v1\" names platform \"spark\", which is not one of [\"mlx\", \"cuda\"]"
    );
}

#[test]
fn the_fence_message_is_exact() {
    assert_eq!(
        enforce_declared_track(" other-v1 ").unwrap_err(),
        "track_id fence: this benchd tree serves track \"qwen3.8-27b-mtp-v1\" but the run declares track \"other-v1\". The workflow-declared track id must be ONE value (constant≡contract≡env), and the official baseline pair is per-track — measuring or sealing \"other-v1\" with \"qwen3.8-27b-mtp-v1\"'s constants would mis-attribute the baseline. Run this track on its own release branch (docs/track-release-branches.md); refusing"
    );
    assert!(enforce_declared_track("\u{3000}qwen3.8-27b-mtp-v1\u{a0}").is_ok());
}

#[test]
fn a_retired_paired_flow_refuses_by_name() {
    assert!(refuse_retired_paired_flow("t", false).is_ok());
    let err = refuse_retired_paired_flow("  qwen3.8-125b-a6b-mlx-v1 ", true).unwrap_err();
    assert!(err.starts_with(PAIRED_FLOW_RETIRED_FOR_TRACK), "{err}");
    assert!(err.contains("track_id \"qwen3.8-125b-a6b-mlx-v1\" scores through the SINGLE-LEG"), "{err}");
}

#[test]
fn a_model_identity_is_built_from_its_four_values() {
    let id = TrackModelIdentity::new("qwen4_exp_text", 248_320, 48, 1_024);
    assert_eq!(id.golden_model_type, "qwen4_exp_text");
    assert_eq!(id.vocab_size, 248_320);
    assert_eq!(id.num_hidden_layers, 48);
    assert_eq!(id.seed_tokens, 1_024);
}

#[test]
fn the_prefill_axis_is_armed_unless_its_exponent_is_exactly_zero() {
    let regime = |e: f64| ScoredRegime {
        scored_batch_size: 1,
        prefill_gain_exponent: FixtureNumber::new(e.to_bits(), format!("{e}")),
        decode_gain_exponent: FixtureNumber::new(1.0f64.to_bits(), "1".to_string()),
    };
    assert!(!regime(0.0).prefill_is_scored());
    assert!(!regime(-0.0).prefill_is_scored());
    assert!(regime(0.25).prefill_is_scored());
    assert!(regime(-1.0).prefill_is_scored());
    assert!(regime(f64::NAN).prefill_is_scored());
}

#[test]
fn a_refusal_names_the_track_with_its_escapes() {
    let err = Platform::from_track_id("a\"b\n").unwrap_err();
    assert!(err.starts_with("track_id \"a\\\"b\\n\" does not end in"), "{err}");
    let err = enforce_declared_track("x\ty").unwrap_err();
    assert!(err.contains("the run declares track \"x\\ty\""), "{err}");
}

#[test]
fn nothing_has_run_in_a_fresh_phase_record() {
    let phases = LocalPhases::default();
    assert_eq!(phases.correctness, PhaseStatus::NotRun);
    assert_eq!(phases.correctness_checked_steps, Some(0));
    assert_eq!(phases.timing, PhaseStatus::NotRun);
    assert_eq!(PhaseStatus::default(), PhaseStatus::NotRun);
}
