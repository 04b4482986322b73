//! The Parakeet engine's model descriptions, and the modules around it:
//! the HuggingFace Hub API, MLX conversion, and the engine commands.
use vstd::prelude::*;

pub mod commands;
pub mod huggingface_api;
pub mod mlx_converter;

verus! {

/// Quantization of a model's weights.
#[derive(Debug, Clone, Copy, PartialEq, Eq, Structural)]
pub enum QuantizationType {
    FP32,
    Int8,
}

/// Where a model stands on this machine.
#[derive(Debug, Clone, PartialEq)]
pub enum ModelStatus {
    /// Downloaded and usable.
    Available,
    /// Not downloaded.
    Missing,
    /// Being downloaded.
    Downloading { progress: u8 },
    /// Its state could not be read.
    Error(String),
    /// The file is smaller than the model needs.
    Corrupted { file_size: u64, expected_min_size: u64 },
}

/// The mathematical value of a `ModelStatus`.
pub enum ModelStatusView {
    Available,
    Missing,
    Downloading { progress: u8 },
    Error(Seq<char>),
    Corrupted { file_size: u64, expected_min_size: u64 },
}

impl View for ModelStatus {
    type V = ModelStatusView;

    open spec fn view(&self) -> ModelStatusView {
        match self {
            ModelStatus::Available => ModelStatusView::Available,
            ModelStatus::Missing => ModelStatusView::Missing,
            ModelStatus::Downloading { progress } => ModelStatusView::Downloading {
                progress: *progress,
            },
            ModelStatus::Error(e) => ModelStatusView::Error(e@),
            ModelStatus::Corrupted { file_size, expected_min_size } => ModelStatusView::Corrupted {
                file_size: *file_size,
                expected_min_size: *expected_min_size,
            },
        }
    }
}

/// A model that an engine can load.
#[derive(Debug, Clone)]
pub struct ModelInfo {
    pub name: String,
    /// The model's file or directory.
    pub path: String,
    pub size_mb: u32,
    pub quantization: QuantizationType,
    pub runtime: String,
    pub speed: String,
    pub status: ModelStatus,
    pub description: String,
}

/// The model is downloaded and usable.
pub open spec fn is_available(m: ModelInfo) -> bool {
    m.status is Available
}

/// Whether `m` is downloaded and usable.
pub fn model_is_available(m: &ModelInfo) -> (r: bool)
    ensures
        r == is_available(*m),
{
    match m.status {
        ModelStatus::Available => true,
        _ => false,
    }
}

} // verus!
