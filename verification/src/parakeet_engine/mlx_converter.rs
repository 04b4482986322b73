//! MLX to ONNX conversion support.
//!
//! MLX models (Apple Silicon optimized) need to be converted to ONNX format
//! for cross-platform compatibility. This module decides:
//!
//! 1. Platform support (MLX only works on macOS + Apple Silicon)
//! 2. Whether a conversion can start, and the Python script it runs
//! 3. What the conversion's output means
//!
//! On Windows/Linux, MLX models are flagged as requiring conversion,
//! and users are guided to use ONNX-format models instead.
use vstd::prelude::*;

use crate::json::{JsonValue, JsonView};
use crate::text::{concat, contains, owned, replace_char, seq_contains, seq_replace_char, str_eq};

verus! {

/// Platform support status for MLX models.
#[derive(Debug, Clone, Copy, PartialEq, Eq, Structural)]
pub enum MlxPlatformSupport {
    /// macOS with Apple Silicon - full MLX support
    Supported,
    /// macOS with Intel - no MLX support
    UnsupportedIntelMac,
    /// Windows - no MLX support, conversion required
    UnsupportedWindows,
    /// Linux - no MLX support, conversion required
    UnsupportedLinux,
}

impl MlxPlatformSupport {
    /// The display text of the support status.
    pub open spec fn spec_text(self) -> Seq<char> {
        match self {
            MlxPlatformSupport::Supported => "Supported (macOS Apple Silicon)"@,
            MlxPlatformSupport::UnsupportedIntelMac => "Unsupported (Intel Mac)"@,
            MlxPlatformSupport::UnsupportedWindows => "Unsupported (Windows)"@,
            MlxPlatformSupport::UnsupportedLinux => "Unsupported (Linux)"@,
        }
    }

    /// The display text of the support status, as an owned string.
    pub fn to_display_string(&self) -> (s: String)
        ensures
            s@ == self.spec_text(),
    {
        match self {
            MlxPlatformSupport::Supported => owned("Supported (macOS Apple Silicon)"),
            MlxPlatformSupport::UnsupportedIntelMac => owned("Unsupported (Intel Mac)"),
            MlxPlatformSupport::UnsupportedWindows => owned("Unsupported (Windows)"),
            MlxPlatformSupport::UnsupportedLinux => owned("Unsupported (Linux)"),
        }
    }
}

/// Conversion status for model format conversion.
#[derive(Debug, Clone)]
pub enum ConversionStatus {
    /// Not started
    Pending,
    /// Conversion in progress
    InProgress { step: String, progress: u8 },
    /// Conversion completed successfully
    Completed { output_path: String },
    /// Conversion failed
    Failed { error: String },
    /// Conversion not possible on this platform
    NotSupported { reason: String },
}

/// The operating systems the application is built for, by the name that
/// `std::env::consts::OS` gives them.
pub open spec fn is_supported_os(os: Seq<char>) -> bool {
    os == "windows"@ || os == "linux"@ || os == "macos"@
}

/// MLX support on the operating system `os` and CPU architecture `arch`
/// (as `std::env::consts::OS` and `ARCH` name them).
pub open spec fn spec_mlx_platform_support(os: Seq<char>, arch: Seq<char>) -> MlxPlatformSupport {
    if os == "windows"@ {
        MlxPlatformSupport::UnsupportedWindows
    } else if os == "linux"@ {
        MlxPlatformSupport::UnsupportedLinux
    } else if arch == "aarch64"@ {
        MlxPlatformSupport::Supported
    } else {
        MlxPlatformSupport::UnsupportedIntelMac
    }
}

/// MLX platform support for the system with operating system `os` and CPU
/// architecture `arch`: only Apple Silicon Macs run MLX.
pub fn check_mlx_platform_support(os: &str, arch: &str) -> (r: MlxPlatformSupport)
    requires
        is_supported_os(os@),
    ensures
        r == spec_mlx_platform_support(os@, arch@),
{
    if str_eq(os, "windows") {
        MlxPlatformSupport::UnsupportedWindows
    } else if str_eq(os, "linux") {
        MlxPlatformSupport::UnsupportedLinux
    } else if str_eq(arch, "aarch64") {
        MlxPlatformSupport::Supported
    } else {
        MlxPlatformSupport::UnsupportedIntelMac
    }
}

/// The compatibility message for each support status.
pub open spec fn spec_compatibility_message(support: MlxPlatformSupport) -> Seq<char> {
    match support {
        MlxPlatformSupport::Supported =>
            "MLX models are supported on this system. They can be used directly or converted to ONNX for broader compatibility."@,
        MlxPlatformSupport::UnsupportedWindows =>
            "MLX models require macOS with Apple Silicon. On Windows, please use ONNX-format models instead, or convert the model to ONNX format on a compatible system."@,
        MlxPlatformSupport::UnsupportedLinux =>
            "MLX models require macOS with Apple Silicon. On Linux, please use ONNX-format models instead, or convert the model to ONNX format on a compatible system."@,
        MlxPlatformSupport::UnsupportedIntelMac =>
            "MLX models require Apple Silicon (M1/M2/M3/M4). On Intel Macs, please use ONNX-format models instead."@,
    }
}

/// A user-friendly message about MLX model compatibility on a platform with
/// the given support.
pub fn get_mlx_compatibility_message(support: MlxPlatformSupport) -> (r: String)
    ensures
        r@ == spec_compatibility_message(support),
{
    match support {
        MlxPlatformSupport::Supported => owned(
            "MLX models are supported on this system. They can be used directly or converted to ONNX for broader compatibility.",
        ),
        MlxPlatformSupport::UnsupportedWindows => owned(
            "MLX models require macOS with Apple Silicon. On Windows, please use ONNX-format models instead, or convert the model to ONNX format on a compatible system.",
        ),
        MlxPlatformSupport::UnsupportedLinux => owned(
            "MLX models require macOS with Apple Silicon. On Linux, please use ONNX-format models instead, or convert the model to ONNX format on a compatible system.",
        ),
        MlxPlatformSupport::UnsupportedIntelMac => owned(
            "MLX models require Apple Silicon (M1/M2/M3/M4). On Intel Macs, please use ONNX-format models instead.",
        ),
    }
}

/// The failure reported when Python is missing for an MLX conversion.
pub open spec fn mlx_python_missing_message() -> Seq<char> {
    "Python 3.10+ is required for MLX to ONNX conversion. Please install Python and the mlx-onnx library."@
}

/// The failure reported when the mlx-onnx library is missing.
pub open spec fn mlx_onnx_missing_message() -> Seq<char> {
    "The mlx-onnx library is required for conversion. Install it with: pip install mlx-onnx"@
}

/// The failure reported when Python is missing for a Safetensors conversion.
pub open spec fn safetensors_python_missing_message() -> Seq<char> {
    "Python 3.10+ is required for Safetensors to ONNX conversion. Please install Python with the transformers and onnx libraries."@
}

/// Whether an MLX to ONNX conversion can start. On a platform without MLX
/// support it fails with the platform's compatibility message as guidance;
/// otherwise it gives `None` when the conversion can run, or the failed
/// status to report when Python or the mlx-onnx library is missing.
pub fn mlx_conversion_precheck(
    support: MlxPlatformSupport,
    python_available: bool,
    mlx_onnx_available: bool,
) -> (r: Result<Option<ConversionStatus>, String>)
    ensures
        support != MlxPlatformSupport::Supported ==> (r matches Err(guidance) && guidance@
            == spec_compatibility_message(support)),
        support == MlxPlatformSupport::Supported && !python_available ==> (r matches Ok(
            Some(ConversionStatus::Failed { error }),
        ) && error@ == mlx_python_missing_message()),
        support == MlxPlatformSupport::Supported && python_available && !mlx_onnx_available ==> (
        r matches Ok(Some(ConversionStatus::Failed { error })) && error@
            == mlx_onnx_missing_message()),
        support == MlxPlatformSupport::Supported && python_available && mlx_onnx_available ==> r
            == Ok::<Option<ConversionStatus>, String>(None),
{
    if support != MlxPlatformSupport::Supported {
        return Err(get_mlx_compatibility_message(support));
    }
    if !python_available {
        return Ok(
            Some(
                ConversionStatus::Failed {
                    error: owned(
                        "Python 3.10+ is required for MLX to ONNX conversion. Please install Python and the mlx-onnx library.",
                    ),
                },
            ),
        );
    }
    if !mlx_onnx_available {
        return Ok(
            Some(
                ConversionStatus::Failed {
                    error: owned(
                        "The mlx-onnx library is required for conversion. Install it with: pip install mlx-onnx",
                    ),
                },
            ),
        );
    }
    Ok(None)
}

/// Whether a Safetensors to ONNX conversion can start: `None` when Python is
/// available, else the failure to report.
pub fn safetensors_conversion_precheck(python_available: bool) -> (r: Option<ConversionStatus>)
    ensures
        !python_available ==> (r matches Some(ConversionStatus::Failed { error }) && error@
            == safetensors_python_missing_message()),
        python_available ==> r is None,
{
    if !python_available {
        return Some(
            ConversionStatus::Failed {
                error: owned(
                    "Python 3.10+ is required for Safetensors to ONNX conversion. Please install Python with the transformers and onnx libraries.",
                ),
            },
        );
    }
    None
}

/// A path as the conversion scripts take it: with forward slashes.
pub open spec fn script_path(p: Seq<char>) -> Seq<char> {
    seq_replace_char(p, '\\', "/"@)
}

/// The Python script that converts the MLX model at `model_path` into
/// `output_dir`.
pub open spec fn spec_mlx_conversion_script(model_path: Seq<char>, output_dir: Seq<char>) -> Seq<char> {
    "\nimport sys\ntry:\n    from mlx_onnx import convert\n    convert(\""@ + script_path(model_path)
        + "\", \""@ + script_path(output_dir)
        + "\")\n    print(\"CONVERSION_SUCCESS\")\nexcept Exception as e:\n    print(f\"CONVERSION_ERROR: {e}\")\n    sys.exit(1)\n"@
}

/// Builds the Python script that converts an MLX model to ONNX.
pub fn mlx_conversion_script(model_path: &str, output_dir: &str) -> (r: String)
    ensures
        r@ == spec_mlx_conversion_script(model_path@, output_dir@),
{
    let m = replace_char(model_path, '\\', "/");
    let o = replace_char(output_dir, '\\', "/");
    let a = concat("\nimport sys\ntry:\n    from mlx_onnx import convert\n    convert(\"", m.as_str());
    let b = concat(a.as_str(), "\", \"");
    let c = concat(b.as_str(), o.as_str());
    let r = concat(
        c.as_str(),
        "\")\n    print(\"CONVERSION_SUCCESS\")\nexcept Exception as e:\n    print(f\"CONVERSION_ERROR: {e}\")\n    sys.exit(1)\n",
    );
    assert(r@ =~= spec_mlx_conversion_script(model_path@, output_dir@));
    r
}

/// The Python script that exports the Safetensors model at `model_path` to
/// `output_dir`/model.onnx.
pub open spec fn spec_safetensors_conversion_script(model_path: Seq<char>, output_dir: Seq<char>) -> Seq<
    char,
> {
    "\nimport sys\ntry:\n    from transformers import AutoModel, AutoConfig\n    import torch\n    import os\n\n    model_path = \""@
        + script_path(model_path) + "\"\n    output_dir = \""@ + script_path(output_dir)
        + "\"\n\n    # Load the model\n    config = AutoConfig.from_pretrained(model_path)\n    model = AutoModel.from_pretrained(model_path)\n    model.eval()\n\n    # Create dummy input based on model type\n    dummy_input = torch.randn(1, 16000 * 30)  # 30 seconds of audio at 16kHz\n\n    # Export to ONNX\n    output_path = os.path.join(output_dir, \"model.onnx\")\n    torch.onnx.export(\n        model,\n        dummy_input,\n        output_path,\n        opset_version=14,\n        input_names=[\"input\"],\n        output_names=[\"output\"],\n        dynamic_axes={\n            \"input\": {0: \"batch_size\", 1: \"sequence_length\"},\n            \"output\": {0: \"batch_size\"}\n        }\n    )\n    print(\"CONVERSION_SUCCESS\")\nexcept Exception as e:\n    print(f\"CONVERSION_ERROR: {e}\")\n    sys.exit(1)\n"@
}

/// Builds the Python script that converts a Safetensors model to ONNX.
pub fn safetensors_conversion_script(model_path: &str, output_dir: &str) -> (r: String)
    ensures
        r@ == spec_safetensors_conversion_script(model_path@, output_dir@),
{
    let m = replace_char(model_path, '\\', "/");
    let o = replace_char(output_dir, '\\', "/");
    let a = concat(
        "\nimport sys\ntry:\n    from transformers import AutoModel, AutoConfig\n    import torch\n    import os\n\n    model_path = \"",
        m.as_str(),
    );
    let b = concat(a.as_str(), "\"\n    output_dir = \"");
    let c = concat(b.as_str(), o.as_str());
    let r = concat(
        c.as_str(),
        "\"\n\n    # Load the model\n    config = AutoConfig.from_pretrained(model_path)\n    model = AutoModel.from_pretrained(model_path)\n    model.eval()\n\n    # Create dummy input based on model type\n    dummy_input = torch.randn(1, 16000 * 30)  # 30 seconds of audio at 16kHz\n\n    # Export to ONNX\n    output_path = os.path.join(output_dir, \"model.onnx\")\n    torch.onnx.export(\n        model,\n        dummy_input,\n        output_path,\n        opset_version=14,\n        input_names=[\"input\"],\n        output_names=[\"output\"],\n        dynamic_axes={\n            \"input\": {0: \"batch_size\", 1: \"sequence_length\"},\n            \"output\": {0: \"batch_size\"}\n        }\n    )\n    print(\"CONVERSION_SUCCESS\")\nexcept Exception as e:\n    print(f\"CONVERSION_ERROR: {e}\")\n    sys.exit(1)\n",
    );
    assert(r@ =~= spec_safetensors_conversion_script(model_path@, output_dir@));
    r
}

/// What a conversion run produced: it completed when the script exited
/// successfully and printed `CONVERSION_SUCCESS`; otherwise it failed with
/// the script's error output (its standard output when the error output is
/// empty).
pub fn conversion_outcome(exit_success: bool, stdout: &str, stderr: &str, output_dir: String) -> (r:
    ConversionStatus)
    ensures
        exit_success && seq_contains(stdout@, "CONVERSION_SUCCESS"@) ==> (r matches ConversionStatus::Completed { output_path } && output_path == output_dir),
        !(exit_success && seq_contains(stdout@, "CONVERSION_SUCCESS"@)) ==> (r matches ConversionStatus::Failed { error } && error@ == "Conversion failed: "@ + (if stderr@.len() == 0 {
            stdout@
        } else {
            stderr@
        })),
{
    if exit_success && contains(stdout, "CONVERSION_SUCCESS") {
        ConversionStatus::Completed { output_path: output_dir }
    } else {
        let msg = if stderr.is_empty() {
            stdout
        } else {
            stderr
        };
        ConversionStatus::Failed { error: concat("Conversion failed: ", msg) }
    }
}

/// A JSON string.
fn json_text(s: &str) -> (r: JsonValue)
    ensures
        r@ == JsonView::Str(s@),
{
    JsonValue::String(owned(s))
}

/// A JSON object member.
fn member(key: &str, value: JsonValue) -> (r: (String, JsonValue))
    ensures
        r.0@ == key@,
        r.1 == value,
{
    (owned(key), value)
}

/// The view of a conversion-capabilities object for `platform`.
pub open spec fn spec_conversion_capabilities(platform: MlxPlatformSupport) -> JsonView {
    let supported = platform == MlxPlatformSupport::Supported;
    JsonView::Object(
        seq![
            ("platform"@, JsonView::Str(platform.spec_text())),
            ("mlxSupported"@, JsonView::Bool(supported)),
            (
                "conversions"@,
                JsonView::Object(
                    seq![
                        (
                            "mlxToOnnx"@,
                            JsonView::Object(
                                seq![
                                    ("supported"@, JsonView::Bool(supported)),
                                    ("requirements"@, JsonView::Str("Python 3.10+, mlx-onnx library"@)),
                                    ("installCommand"@, JsonView::Str("pip install mlx-onnx"@)),
                                ],
                            ),
                        ),
                        (
                            "safetensorsToOnnx"@,
                            JsonView::Object(
                                seq![
                                    ("supported"@, JsonView::Bool(true)),
                                    (
                                        "requirements"@,
                                        JsonView::Str(
                                            "Python 3.10+, transformers, torch, onnx libraries"@,
                                        ),
                                    ),
                                    (
                                        "installCommand"@,
                                        JsonView::Str("pip install transformers torch onnx"@),
                                    ),
                                ],
                            ),
                        ),
                    ],
                ),
            ),
            (
                "recommendation"@,
                JsonView::Str(
                    if supported {
                        "MLX models can be used directly or converted to ONNX."@
                    } else {
                        "Use ONNX-format models for best compatibility on this platform."@
                    },
                ),
            ),
        ],
    )
}

/// Information about the available conversion tools on a platform with MLX
/// support `platform`.
pub fn get_conversion_capabilities(platform: MlxPlatformSupport) -> (r: JsonValue)
    ensures
        r@ == spec_conversion_capabilities(platform),
{
    let supported = platform == MlxPlatformSupport::Supported;
    let mlx = JsonValue::Object(
        vec![
            member("supported", JsonValue::Bool(supported)),
            member("requirements", json_text("Python 3.10+, mlx-onnx library")),
            member("installCommand", json_text("pip install mlx-onnx")),
        ],
    );
    let st = JsonValue::Object(
        vec![
            member("supported", JsonValue::Bool(true)),
            member("requirements", json_text("Python 3.10+, transformers, torch, onnx libraries")),
            member("installCommand", json_text("pip install transformers torch onnx")),
        ],
    );
    let conversions = JsonValue::Object(vec![member("mlxToOnnx", mlx), member("safetensorsToOnnx", st)]);
    let recommendation = if supported {
        json_text("MLX models can be used directly or converted to ONNX.")
    } else {
        json_text("Use ONNX-format models for best compatibility on this platform.")
    };
    let platform_text = platform.to_display_string();
    let r = JsonValue::Object(
        vec![
            member("platform", JsonValue::String(platform_text)),
            member("mlxSupported", JsonValue::Bool(supported)),
            member("conversions", conversions),
            member("recommendation", recommendation),
        ],
    );
    proof {
        let spec = spec_conversion_capabilities(platform);
        let top = spec->Object_0;
        let conv = top[2].1->Object_0;
        crate::json::lemma_members_view(mlx->Object_0@, mlx->Object_0@.len());
        assert(crate::json::members_view(mlx->Object_0@) =~= conv[0].1->Object_0);
        crate::json::lemma_members_view(st->Object_0@, st->Object_0@.len());
        assert(crate::json::members_view(st->Object_0@) =~= conv[1].1->Object_0);
        crate::json::lemma_members_view(conversions->Object_0@, conversions->Object_0@.len());
        assert(crate::json::members_view(conversions->Object_0@) =~= conv);
        crate::json::lemma_members_view(r->Object_0@, r->Object_0@.len());
        assert(crate::json::members_view(r->Object_0@) =~= top);
    }
    r
}

} // verus!
