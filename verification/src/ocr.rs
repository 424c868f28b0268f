//! OCR command contract (image sources, requests, status answers), engine
//! routing and the model/runtime paths.

use vstd::prelude::*;
use crate::error::AppError;
use crate::saf_tree::{join, join_path};
use crate::text::{chars_of, concat, str_eq};

verus! {

/// Decoded image handed over by the platform bridge (RGBA8 temp file).
#[derive(Debug, Clone, PartialEq, Eq)]
pub struct OcrImageSource {
    /// Absolute path of the raw RGBA8 file.
    pub path: String,
    /// Width after downscaling and EXIF rotation.
    pub width: u32,
    /// Height.
    pub height: u32,
}

/// Image of a recognize request.
#[derive(Debug, Clone, PartialEq, Eq)]
pub struct OcrImageInput {
    /// Path of the raw RGBA8 file.
    pub rgba_path: String,
    /// Width.
    pub width: u32,
    /// Height.
    pub height: u32,
}

/// Recognize request.
#[derive(Debug, Clone, PartialEq, Eq)]
pub struct OcrRecognizeInput {
    /// Engine id (default "offline").
    pub engine: Option<String>,
    /// The image.
    pub image: OcrImageInput,
    /// Longest side after the server's own downscale (default 1600).
    pub max_side: Option<u32>,
}

/// Text line bounding box in source image coordinates.
#[derive(Debug, Clone, Copy, PartialEq, Eq)]
pub struct OcrBBox {
    /// Left.
    pub x: u32,
    /// Top.
    pub y: u32,
    /// Width.
    pub w: u32,
    /// Height.
    pub h: u32,
}

/// Engine status answer.
#[derive(Debug, Clone, PartialEq, Eq)]
pub struct OcrEngineStatus {
    /// The runtime library is present (always true where none is probed).
    pub available: bool,
    /// The model directory exists and is not empty.
    pub models_present: bool,
    /// Bytes used by the models.
    pub models_bytes: u64,
    /// The resident engine is loaded.
    pub engine_loaded: bool,
    /// Engine ids that can be routed.
    pub supported_engines: Vec<String>,
}

/// Delete-models answer.
#[derive(Debug, Clone, Copy, PartialEq, Eq)]
pub struct OcrDeleteModelsOutput {
    /// Something was deleted.
    pub deleted: bool,
    /// Bytes freed.
    pub freed_bytes: u64,
}

/// Restore-models answer.
#[derive(Debug, Clone, Copy, PartialEq, Eq)]
pub struct OcrRestoreModelsOutput {
    /// The models were restored.
    pub restored: bool,
}

/// Run context of the offline engine.
#[derive(Debug, Clone, PartialEq, Eq)]
pub struct PpOcrContext {
    /// App data directory (models live in its `ocr_models`).
    pub data_dir: String,
    /// Full path of the runtime library, where it was probed.
    pub onnxruntime_so: Option<String>,
}

/// The offline PP-OCR engine.
#[derive(Debug, Clone, PartialEq, Eq)]
pub struct PpOcrEngine {
    /// Its context.
    pub ctx: PpOcrContext,
}

impl PpOcrEngine {
    /// Engine over `ctx`.
    pub fn new(ctx: PpOcrContext) -> (e: Self)
        ensures
            e.ctx == ctx,
    {
        PpOcrEngine { ctx }
    }

    /// Id reported in answers.
    pub fn engine_id(&self) -> (id: &'static str)
        ensures
            id@ == "offline"@,
    {
        "offline"
    }
}

/// Name of the model directory under the app data directory.
pub const MODELS_DIR_NAME: &'static str = "ocr_models";

/// File name of the ONNX runtime library.
pub const ONNXRUNTIME_SO_NAME: &'static str = "libonnxruntime.so";

/// Model directory under `data_dir`.
pub fn models_dir(data_dir: &str) -> (p: String)
    ensures
        p@ == join_path(data_dir@, MODELS_DIR_NAME@),
{
    let name = chars_of(MODELS_DIR_NAME);
    join(data_dir, name.as_slice())
}

/// Runtime library path in the native library directory.
pub fn onnxruntime_so_path(native_lib_dir: &str) -> (p: String)
    ensures
        p@ == join_path(native_lib_dir@, ONNXRUNTIME_SO_NAME@),
{
    let name = chars_of(ONNXRUNTIME_SO_NAME);
    join(native_lib_dir, name.as_slice())
}

/// Whether a resident engine is loaded. Only Android builds keep one; this
/// build has none.
pub fn resident_loaded() -> (r: bool)
    ensures
        !r,
{
    false
}

/// Releases the resident engine (nothing is resident in this build, so
/// there is nothing to release).
pub fn reset_resident() {
}

/// Routes an engine id: only "offline" is supported.
pub fn route_engine(engine: &str, data_dir: String, onnxruntime_so: Option<String>) -> (r: Result<PpOcrEngine, AppError>)
    ensures
        engine@ == "offline"@ ==> r == Ok::<PpOcrEngine, AppError>(
            PpOcrEngine { ctx: PpOcrContext { data_dir, onnxruntime_so } },
        ),
        engine@ != "offline"@ ==> (r matches Err(AppError::InvalidInput(m)) && m@
            == "plugin_ocr_recognize: unsupported engine '"@ + engine@ + "' (supported: offline)"@),
{
    if str_eq(engine, "offline") {
        Ok(PpOcrEngine::new(PpOcrContext { data_dir, onnxruntime_so }))
    } else {
        let a = concat("plugin_ocr_recognize: unsupported engine '", engine);
        Err(AppError::InvalidInput(concat(a.as_str(), "' (supported: offline)")))
    }
}

/// Engine status from what the caller found on disk: the runtime library is
/// available when it exists (or when no path was probed), the engine is
/// loaded when resident, and "offline" is the only engine.
pub fn engine_status(models_present: bool, models_bytes: u64, so_exists: Option<bool>) -> (s: OcrEngineStatus)
    ensures
        s.available == (match so_exists {
            Some(b) => b,
            None => true,
        }),
        s.models_present == models_present,
        s.models_bytes == models_bytes,
        !s.engine_loaded,
        s.supported_engines@.len() == 1,
        s.supported_engines@[0]@ == "offline"@,
{
    let available = match so_exists {
        Some(b) => b,
        None => true,
    };
    let mut engines: Vec<String> = Vec::new();
    engines.push("offline".to_owned());
    OcrEngineStatus {
        available,
        models_present,
        models_bytes,
        engine_loaded: resident_loaded(),
        supported_engines: engines,
    }
}

/// Greedy CTC decoding keeps step `k` of the best-label sequence when its
/// label is not the blank (0) and differs from the label of step `k - 1`.
pub open spec fn ctc_keep(labels: Seq<usize>, k: int) -> bool {
    labels[k] != 0 && (k == 0 || labels[k - 1] != labels[k])
}

/// The steps among the first `n` that greedy CTC decoding keeps, in order.
pub open spec fn ctc_steps(labels: Seq<usize>, n: int) -> Seq<usize>
    decreases n,
{
    if n <= 0 {
        Seq::empty()
    } else if ctc_keep(labels, n - 1) {
        ctc_steps(labels, n - 1).push((n - 1) as usize)
    } else {
        ctc_steps(labels, n - 1)
    }
}

/// Steps kept by greedy CTC decoding of the per-step best labels: blanks
/// dropped, repeats of the previous step's label merged.
pub fn ctc_kept_steps(labels: &[usize]) -> (steps: Vec<usize>)
    ensures
        steps@ == ctc_steps(labels@, labels@.len() as int),
{
    let mut steps: Vec<usize> = Vec::new();
    let mut k: usize = 0;
    while k < labels.len()
        invariant
            k <= labels@.len(),
            steps@ == ctc_steps(labels@, k as int),
        decreases labels@.len() - k,
    {
        if labels[k] != 0 && (k == 0 || labels[k - 1] != labels[k]) {
            steps.push(k);
        }
        k += 1;
    }
    steps
}

} // verus!
