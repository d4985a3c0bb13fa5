//! Fallback telemetry for the adaptive encoding pipeline.
//!
//! When a stage of adaptive preparation fails, the pipeline degrades to the
//! plain encoding path and records which stage failed, a bounded summary of
//! the error and a reason code. Every fallback is recorded; none is silent.

use vstd::prelude::*;
use vstd::string::StringSliceAdditionalSpecFns;
use crate::error::Error;
use crate::adaptive_ir::CanonicalSequence;
use crate::materialize::{FrameDecision, Materializer, decision_in_range};
use crate::palette_strategy::PaletteStrategy;
use crate::types::Frame;
use crate::text::{bool_text, decimal, first_chars, json_escape_spec, push_bool, push_decimal, push_escaped, take_chars};

verus! {

/// Stage in the adaptive bytes preparation pipeline.
#[derive(Debug, Clone, Copy, PartialEq, Eq, Structural)]
pub enum AdaptiveStage {
    /// Materialization stage (converting decisions to frames).
    Materialization,
    /// Palette realization stage (quantizing frames to palette indices).
    PaletteRealization,
    /// Pre-encode preparation (validation, metadata setup).
    PreEncodePrep,
}

impl AdaptiveStage {
    /// Human-readable name for this stage.
    pub open spec fn name_spec(&self) -> Seq<char> {
        match self {
            AdaptiveStage::Materialization => "materialization"@,
            AdaptiveStage::PaletteRealization => "palette_realization"@,
            AdaptiveStage::PreEncodePrep => "pre_encode_prep"@,
        }
    }

    /// Human-readable name for this stage.
    pub fn name(&self) -> (r: &'static str)
        ensures
            r@ == self.name_spec(),
    {
        match self {
            AdaptiveStage::Materialization => "materialization",
            AdaptiveStage::PaletteRealization => "palette_realization",
            AdaptiveStage::PreEncodePrep => "pre_encode_prep",
        }
    }
}

/// Reason code for fallback.
#[derive(Debug, Clone, Copy, PartialEq, Eq, Structural)]
pub enum FallbackReason {
    /// Materialization failed (invalid bbox, memory, etc.).
    MaterializationFailed,
    /// Palette realization failed (quantization, color mapping, etc.).
    PaletteRealizationFailed,
    /// Pre-encode validation failed.
    PreEncodePrepFailed,
    /// Unknown/unclassified failure.
    Unknown,
}

impl FallbackReason {
    /// Human-readable code for this reason.
    pub open spec fn code_spec(&self) -> Seq<char> {
        match self {
            FallbackReason::MaterializationFailed => "materialization_failed"@,
            FallbackReason::PaletteRealizationFailed => "palette_realization_failed"@,
            FallbackReason::PreEncodePrepFailed => "pre_encode_prep_failed"@,
            FallbackReason::Unknown => "unknown"@,
        }
    }

    /// Human-readable code for this reason.
    pub fn code(&self) -> (r: &'static str)
        ensures
            r@ == self.code_spec(),
    {
        match self {
            FallbackReason::MaterializationFailed => "materialization_failed",
            FallbackReason::PaletteRealizationFailed => "palette_realization_failed",
            FallbackReason::PreEncodePrepFailed => "pre_encode_prep_failed",
            FallbackReason::Unknown => "unknown",
        }
    }
}

/// The reason recorded when a stage fails.
pub open spec fn reason_for(stage: AdaptiveStage) -> FallbackReason {
    match stage {
        AdaptiveStage::Materialization => FallbackReason::MaterializationFailed,
        AdaptiveStage::PaletteRealization => FallbackReason::PaletteRealizationFailed,
        AdaptiveStage::PreEncodePrep => FallbackReason::PreEncodePrepFailed,
    }
}

/// Longest error summary kept, in characters.
pub const MAX_SUMMARY_CHARS: usize = 256;

/// An error summary: the error's message cut to its first 256 characters.
pub open spec fn summary_spec(e: Error) -> Seq<char> {
    take_chars(e.message_spec(), 256)
}

/// Telemetry recorded for adaptive bytes preparation.
#[derive(Debug)]
pub struct FallbackTelemetry {
    /// Stage that failed (if any).
    pub failed_stage: Option<AdaptiveStage>,
    /// Error summary (first 256 characters).
    pub error_summary: Option<String>,
    /// Whether fallback was used.
    pub fallback_used: bool,
    /// Fallback reason code.
    pub fallback_reason: FallbackReason,
    /// Number of frames processed before failure (if applicable).
    pub frames_processed: usize,
}

/// The JSON text of a telemetry record.
pub open spec fn telemetry_json(t: FallbackTelemetry) -> Seq<char> {
    "{\"adaptive_fallback\":{\n"@ + "  \"fallback_used\":"@ + bool_text(t.fallback_used) + ",\n"@
        + match t.failed_stage {
        Some(st) => "  \"failed_stage\":\""@ + st.name_spec() + "\",\n"@,
        None => Seq::empty(),
    } + "  \"fallback_reason\":\""@ + t.fallback_reason.code_spec() + "\",\n"@
        + match t.error_summary {
        Some(e) => "  \"error_summary\":\""@ + json_escape_spec(e@) + "\",\n"@,
        None => Seq::empty(),
    } + "  \"frames_processed\":"@ + decimal(t.frames_processed as nat) + "\n"@ + "}}\n"@
}

impl FallbackTelemetry {
    /// A success record: no failed stage, no error, no fallback.
    pub fn success(frames_processed: usize) -> (r: Self)
        ensures
            r.failed_stage is None,
            r.error_summary is None,
            !r.fallback_used,
            r.fallback_reason == FallbackReason::Unknown,
            r.frames_processed == frames_processed,
    {
        FallbackTelemetry {
            failed_stage: None,
            error_summary: None,
            fallback_used: false,
            fallback_reason: FallbackReason::Unknown,
            frames_processed,
        }
    }

    /// A fallback record for a failed stage: the stage, the error's message
    /// cut to its first 256 characters, and the stage's reason code.
    pub fn fallback(stage: AdaptiveStage, error: &Error, frames_processed: usize) -> (r: Self)
        ensures
            r.failed_stage == Some(stage),
            r.error_summary matches Some(s) && s@ == summary_spec(*error),
            r.fallback_used,
            r.fallback_reason == reason_for(stage),
            r.frames_processed == frames_processed,
    {
        let message = error.message();
        let summary = first_chars(message.as_str(), MAX_SUMMARY_CHARS);
        let fallback_reason = match stage {
            AdaptiveStage::Materialization => FallbackReason::MaterializationFailed,
            AdaptiveStage::PaletteRealization => FallbackReason::PaletteRealizationFailed,
            AdaptiveStage::PreEncodePrep => FallbackReason::PreEncodePrepFailed,
        };
        FallbackTelemetry {
            failed_stage: Some(stage),
            error_summary: Some(summary),
            fallback_used: true,
            fallback_reason,
            frames_processed,
        }
    }

    /// The telemetry as JSON for logging.
    pub fn to_json(&self) -> (r: String)
        ensures
            r@ == telemetry_json(*self),
    {
        let mut json = String::from_str("{\"adaptive_fallback\":{\n");
        json.append("  \"fallback_used\":");
        push_bool(&mut json, self.fallback_used);
        json.append(",\n");
        match self.failed_stage {
            Some(stage) => {
                json.append("  \"failed_stage\":\"");
                json.append(stage.name());
                json.append("\",\n");
            },
            None => {},
        }
        json.append("  \"fallback_reason\":\"");
        json.append(self.fallback_reason.code());
        json.append("\",\n");
        match &self.error_summary {
            Some(error) => {
                json.append("  \"error_summary\":\"");
                push_escaped(&mut json, error.as_str());
                json.append("\",\n");
            },
            None => {},
        }
        json.append("  \"frames_processed\":");
        push_decimal(&mut json, self.frames_processed);
        json.append("\n");
        json.append("}}\n");
        proof {
            assert(json@ =~= telemetry_json(*self));
        }
        json
    }
}

/// The text that opens the fallback reason of a failed stage.
pub open spec fn stage_reason_prefix(stage: AdaptiveStage) -> Seq<char> {
    match stage {
        AdaptiveStage::Materialization => "materialization failed: "@,
        AdaptiveStage::PaletteRealization => "palette realization failed: "@,
        AdaptiveStage::PreEncodePrep => "pre-encode validation failed: "@,
    }
}

/// The fallback for a failed stage: its reason text (the stage's prefix
/// followed by the error's message) and its telemetry record.
pub fn stage_fallback(stage: AdaptiveStage, error: &Error, frames_processed: usize) -> (r: (String, FallbackTelemetry))
    ensures
        r.0@ == stage_reason_prefix(stage) + error.message_spec(),
        r.1.failed_stage == Some(stage),
        r.1.error_summary matches Some(s) && s@ == summary_spec(*error),
        r.1.fallback_used,
        r.1.fallback_reason == reason_for(stage),
        r.1.frames_processed == frames_processed,
{
    let telemetry = FallbackTelemetry::fallback(stage, error, frames_processed);
    let prefix = match stage {
        AdaptiveStage::Materialization => "materialization failed: ",
        AdaptiveStage::PaletteRealization => "palette realization failed: ",
        AdaptiveStage::PreEncodePrep => "pre-encode validation failed: ",
    };
    let mut reason = String::from_str(prefix);
    let message = error.message();
    reason.append(message.as_str());
    (reason, telemetry)
}

/// Prepares the bytes of the adaptive path from the chosen decisions, and
/// records which stage failed when it falls back.
pub struct AdaptiveBytesPreparer {
    /// The per-frame decisions.
    pub decisions: Vec<FrameDecision>,
    /// The canonical sequence the decisions refer to.
    pub canonical_seq: CanonicalSequence,
}

impl AdaptiveBytesPreparer {
    /// A preparer for the given decisions and canonical sequence.
    pub fn new(decisions: Vec<FrameDecision>, canonical_seq: CanonicalSequence) -> (r: Self)
        ensures
            r.decisions@ == decisions@,
            r.canonical_seq == canonical_seq,
    {
        AdaptiveBytesPreparer { decisions, canonical_seq }
    }

    /// The palette strategy of the sequence: the first decision's, or a
    /// derived global palette when there is no decision.
    pub fn sequence_palette_strategy(&self) -> (r: PaletteStrategy)
        ensures
            r == (if self.decisions@.len() > 0 {
                self.decisions@[0].chosen_palette_strategy
            } else {
                PaletteStrategy::DeriveSequenceGlobalPreferred
            }),
    {
        if self.decisions.len() > 0 {
            self.decisions[0].chosen_palette_strategy
        } else {
            PaletteStrategy::DeriveSequenceGlobalPreferred
        }
    }

    /// The first stage of preparation: materialize the decided frames. When
    /// a decision names a frame past the end of the sequence, the fallback
    /// of the materialization stage is returned, with no frame processed.
    pub fn materialize_stage(&self) -> (r: Result<Vec<Frame>, (String, FallbackTelemetry)>)
        ensures
            r is Ok <==> forall|k: int|
                0 <= k < self.decisions@.len() ==> decision_in_range(
                    #[trigger] self.decisions@[k],
                    self.canonical_seq.frames@.len() as int,
                ),
            r matches Ok(v) ==> v@.len() == self.decisions@.len(),
            r matches Err(f) ==> f.1.failed_stage == Some(AdaptiveStage::Materialization) && f.1.fallback_used
                && f.1.fallback_reason == FallbackReason::MaterializationFailed && f.1.frames_processed == 0
                && exists|e: Error|
                    #![trigger e.message_spec()]
                    e is EncodeError && f.0@ == stage_reason_prefix(AdaptiveStage::Materialization) + e.message_spec()
                        && (f.1.error_summary matches Some(s) && s@ == summary_spec(e)),
    {
        match Materializer::materialize_sequence(self.decisions.as_slice(), &self.canonical_seq) {
            Ok(frames) => Ok(frames),
            Err(e) => {
                let f = stage_fallback(AdaptiveStage::Materialization, &e, 0);
                assert(e is EncodeError && f.0@ == stage_reason_prefix(AdaptiveStage::Materialization) + e.message_spec());
                Err(f)
            },
        }
    }
}

} // verus!
