//! NeMo transcription provider: routes transcription requests to the NeMo
//! engine, which runs the model in its Python sidecar.
use vstd::prelude::*;

use crate::text::{seq_trim, str_eq, trim};

verus! {

/// NeMo transcription provider, over a handle `E` to the NeMo engine.
pub struct NemoProvider<E> {
    engine: E,
}

impl<E> NemoProvider<E> {
    /// A provider that transcribes with `engine`.
    pub fn new(engine: E) -> (r: Self)
        ensures
            r.engine_spec() == engine,
    {
        Self { engine }
    }

    /// The engine the provider transcribes with.
    pub closed spec fn engine_spec(&self) -> E {
        self.engine
    }

    /// The engine the provider transcribes with.
    pub fn engine(&self) -> (r: &E)
        ensures
            *r == self.engine_spec(),
    {
        &self.engine
    }

    /// The provider's name.
    pub fn provider_name(&self) -> (r: &'static str)
        ensures
            r@ == "NeMo"@,
    {
        "NeMo"
    }
}

/// The NeMo RNNT model is English-only: a language preference other than
/// English or automatic detection is ignored (and warned about).
pub open spec fn spec_language_ignored(language: Option<Seq<char>>) -> bool {
    match language {
        Some(l) => l != "en"@ && l != "auto"@ && l != "auto-translate"@,
        None => false,
    }
}

/// Whether the language preference is ignored by the NeMo provider.
pub fn language_ignored(language: Option<&str>) -> (r: bool)
    ensures
        r == spec_language_ignored(
            match language {
                Some(l) => Some(l@),
                None => None,
            },
        ),
{
    match language {
        Some(l) => !str_eq(l, "en") && !str_eq(l, "auto") && !str_eq(l, "auto-translate"),
        None => false,
    }
}

/// The text of a transcript as the provider returns it: the sidecar's text
/// without surrounding whitespace.
pub fn transcript_text(raw: &str) -> (r: String)
    ensures
        r@ == seq_trim(raw@),
{
    trim(raw)
}

} // verus!
