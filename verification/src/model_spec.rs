//! Records of the models.dev catalogue that the registry reads.

use vstd::prelude::*;

verus! {

/// Per-model provider override: routes a model through another SDK package
/// than its provider's.
#[derive(Debug, Clone)]
pub struct ModelProviderOverride {
    pub npm: Option<String>,
}

/// Input/output modality declarations.
#[derive(Debug, Clone)]
pub struct Modalities {
    pub input: Vec<String>,
    pub output: Vec<String>,
}

/// Token limits for the model.
#[derive(Debug, Clone, Copy, PartialEq, Eq)]
pub struct ModelLimit {
    /// Maximum context window size in tokens.
    pub context: u64,
    /// Maximum output tokens.
    pub output: u64,
}

/// The SDK package a model is served through: its own override if it has
/// one, else its provider's.
pub fn model_npm<'a>(provider_npm: Option<&'a str>, model_override: Option<&'a ModelProviderOverride>) -> (r: Option<&'a str>)
    ensures
        match model_override {
            Some(o) if o.npm is Some => r matches Some(x) && x@ == o.npm->0@,
            _ => match provider_npm {
                Some(p) => r matches Some(x) && x@ == p@,
                None => r is None,
            },
        },
{
    match model_override {
        Some(o) => match &o.npm {
            Some(n) => return Some(n.as_str()),
            None => {},
        },
        None => {},
    }
    provider_npm
}

/// The text of an optional string.
pub open spec fn opt_text(o: Option<String>) -> Option<Seq<char>> {
    match o {
        Some(s) => Some(s@),
        None => None,
    }
}

/// The texts of a list of strings.
pub open spec fn texts(v: Seq<String>) -> Seq<Seq<char>> {
    v.map_values(|s: String| s@)
}

/// A copy of an optional string.
pub fn copy_opt(o: &Option<String>) -> (r: Option<String>)
    ensures
        opt_text(r) == opt_text(*o),
{
    match o {
        Some(s) => Some(s.clone()),
        None => None,
    }
}

/// A copy of a list of strings.
pub fn copy_texts(v: &Vec<String>) -> (r: Vec<String>)
    ensures
        texts(r@) == texts(v@),
{
    let mut r: Vec<String> = Vec::new();
    for i in 0..v.len()
        invariant
            r@ == v@.take(i as int),
    {
        r.push(v[i].clone());
        assert(r@ =~= v@.take(i + 1));
    }
    assert(v@.take(v.len() as int) =~= v@);
    r
}

/// A model entry within a provider. (Its pricing, which the catalogue gives
/// as floating-point numbers, is not kept.)
#[derive(Debug, Clone)]
pub struct ModelSpec {
    /// Model identifier, e.g. `gpt-4.1-nano`.
    pub id: String,
    /// Human-friendly display name.
    pub name: Option<String>,
    /// Model family grouping.
    pub family: Option<String>,
    /// Whether file/image attachments are supported.
    pub attachment: bool,
    /// Whether the model supports reasoning.
    pub reasoning: bool,
    /// Whether the model supports tool calling.
    pub tool_call: bool,
    /// Whether the model supports structured output.
    pub structured_output: bool,
    /// Whether the temperature parameter is accepted.
    pub temperature: bool,
    /// Knowledge cutoff date.
    pub knowledge: Option<String>,
    /// Model release date.
    pub release_date: Option<String>,
    /// Last update date.
    pub last_updated: Option<String>,
    /// Input/output modalities.
    pub modalities: Option<Modalities>,
    /// Whether the weights are openly available.
    pub open_weights: bool,
    /// Token limits.
    pub limit: Option<ModelLimit>,
    /// Per-model provider override.
    pub provider: Option<ModelProviderOverride>,
}

/// What a model entry says, as values.
pub struct ModelSpecView {
    pub id: Seq<char>,
    pub name: Option<Seq<char>>,
    pub family: Option<Seq<char>>,
    pub attachment: bool,
    pub reasoning: bool,
    pub tool_call: bool,
    pub structured_output: bool,
    pub temperature: bool,
    pub knowledge: Option<Seq<char>>,
    pub release_date: Option<Seq<char>>,
    pub last_updated: Option<Seq<char>>,
    /// Input and output modalities.
    pub modalities: Option<(Seq<Seq<char>>, Seq<Seq<char>>)>,
    pub open_weights: bool,
    pub limit: Option<ModelLimit>,
    /// The override, and the package it names.
    pub provider: Option<Option<Seq<char>>>,
}

impl View for ModelSpec {
    type V = ModelSpecView;

    open spec fn view(&self) -> ModelSpecView {
        ModelSpecView {
            id: self.id@,
            name: opt_text(self.name),
            family: opt_text(self.family),
            attachment: self.attachment,
            reasoning: self.reasoning,
            tool_call: self.tool_call,
            structured_output: self.structured_output,
            temperature: self.temperature,
            knowledge: opt_text(self.knowledge),
            release_date: opt_text(self.release_date),
            last_updated: opt_text(self.last_updated),
            modalities: match self.modalities {
                Some(m) => Some((texts(m.input@), texts(m.output@))),
                None => None,
            },
            open_weights: self.open_weights,
            limit: self.limit,
            provider: match self.provider {
                Some(p) => Some(opt_text(p.npm)),
                None => None,
            },
        }
    }
}

/// The package a model entry overrides its provider's with, if any.
pub open spec fn override_npm(m: ModelSpecView) -> Option<Seq<char>> {
    match m.provider {
        Some(Some(n)) => Some(n),
        _ => None,
    }
}

impl ModelSpec {
    /// A copy of the entry.
    pub fn copy(&self) -> (r: ModelSpec)
        ensures
            r@ == self@,
    {
        let modalities = match &self.modalities {
            Some(m) => Some(Modalities { input: copy_texts(&m.input), output: copy_texts(&m.output) }),
            None => None,
        };
        let provider = match &self.provider {
            Some(p) => Some(ModelProviderOverride { npm: copy_opt(&p.npm) }),
            None => None,
        };
        ModelSpec {
            id: self.id.clone(),
            name: copy_opt(&self.name),
            family: copy_opt(&self.family),
            attachment: self.attachment,
            reasoning: self.reasoning,
            tool_call: self.tool_call,
            structured_output: self.structured_output,
            temperature: self.temperature,
            knowledge: copy_opt(&self.knowledge),
            release_date: copy_opt(&self.release_date),
            last_updated: copy_opt(&self.last_updated),
            modalities,
            open_weights: self.open_weights,
            limit: self.limit,
            provider,
        }
    }

    /// The package this entry overrides its provider's with, if any.
    pub fn npm_override(&self) -> (r: Option<&String>)
        ensures
            match override_npm(self@) {
                Some(n) => r matches Some(x) && x@ == n,
                None => r is None,
            },
    {
        match &self.provider {
            Some(p) => match &p.npm {
                Some(n) => Some(n),
                None => None,
            },
            None => None,
        }
    }
}

/// A provider entry of the catalogue.
#[derive(Debug, Clone)]
pub struct ProviderSpec {
    /// Provider identifier, e.g. `openai`.
    pub id: String,
    /// Display name, e.g. `OpenAI`.
    pub name: String,
    /// Environment variable names for the API key.
    pub env: Vec<String>,
    /// Optional base API URL.
    pub api: Option<String>,
    /// SDK package name the provider's models are served through.
    pub npm: Option<String>,
    /// Link to provider documentation.
    pub doc: Option<String>,
    /// Models offered by this provider, under their identifiers.
    pub models: Vec<(String, ModelSpec)>,
}

/// What a provider entry says, as values.
pub struct ProviderSpecView {
    pub id: Seq<char>,
    pub name: Seq<char>,
    pub env: Seq<Seq<char>>,
    pub api: Option<Seq<char>>,
    pub npm: Option<Seq<char>>,
    pub doc: Option<Seq<char>>,
    pub models: Seq<(Seq<char>, ModelSpecView)>,
}

/// The views of keyed model entries.
pub open spec fn keyed_models(v: Seq<(String, ModelSpec)>) -> Seq<(Seq<char>, ModelSpecView)> {
    v.map_values(|p: (String, ModelSpec)| (p.0@, p.1@))
}

impl View for ProviderSpec {
    type V = ProviderSpecView;

    open spec fn view(&self) -> ProviderSpecView {
        ProviderSpecView {
            id: self.id@,
            name: self.name@,
            env: texts(self.env@),
            api: opt_text(self.api),
            npm: opt_text(self.npm),
            doc: opt_text(self.doc),
            models: keyed_models(self.models@),
        }
    }
}

impl ProviderSpec {
    /// A copy of the entry.
    pub fn copy(&self) -> (r: ProviderSpec)
        ensures
            r@ == self@,
    {
        let mut models: Vec<(String, ModelSpec)> = Vec::new();
        for i in 0..self.models.len()
            invariant
                models.len() == i,
                keyed_models(models@) == keyed_models(self.models@).take(i as int),
        {
            let ghost before = models@;
            models.push((self.models[i].0.clone(), self.models[i].1.copy()));
            assert forall|j: int| 0 <= j < i + 1 implies #[trigger] keyed_models(models@)[j] == keyed_models(
                self.models@,
            ).take(i + 1)[j] by {
                if j < i {
                    assert(models@[j] == before[j]);
                    assert(keyed_models(before)[j] == keyed_models(self.models@).take(i as int)[j]);
                }
            }
            assert(keyed_models(models@) =~= keyed_models(self.models@).take(i + 1));
        }
        assert(keyed_models(self.models@).take(self.models.len() as int) =~= keyed_models(self.models@));
        ProviderSpec {
            id: self.id.clone(),
            name: self.name.clone(),
            env: copy_texts(&self.env),
            api: copy_opt(&self.api),
            npm: copy_opt(&self.npm),
            doc: copy_opt(&self.doc),
            models,
        }
    }
}

} // verus!
