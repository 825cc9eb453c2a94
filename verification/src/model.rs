//! The registry of model variants and the facade over the loaded model.

use candle_core::{DType, Device, Tensor};
use candle_nn::VarBuilder;
use candle_transformers::models::gemma::{Config as Config1, Model as Model1};
use candle_transformers::models::gemma2::{Config as Config2, Model as Model2};
use candle_transformers::models::gemma3::{Config as Config3, Model as Model3};
use std::collections::HashMap;
use vstd::prelude::*;

verus! {

/// The architecture family of a variant. The family decides how the
/// generation loop feeds the model.
#[derive(Clone, Copy, Debug, PartialEq, Eq, Structural)]
pub enum Family {
    Gen1,
    Gen2,
    Gen3,
}

/// A selectable model variant.
#[allow(non_camel_case_types)]
#[derive(Clone, Copy, Debug, PartialEq, Eq, Structural)]
pub enum Which {
    Base2B,
    Base7B,
    Instruct2B,
    Instruct7B,
    InstructV1_1_2B,
    InstructV1_1_7B,
    CodeBase2B,
    CodeBase7B,
    CodeInstruct2B,
    CodeInstruct7B,
    BaseV2_2B,
    InstructV2_2B,
    BaseV2_9B,
    InstructV2_9B,
    BaseV3_1B,
    InstructV3_1B,
}

impl Which {
    /// The canonical repository identifier of the variant.
    pub open spec fn model_id(&self) -> Seq<char> {
        match *self {
            Which::InstructV1_1_2B => "google/gemma-1.1-2b-it"@,
            Which::InstructV1_1_7B => "google/gemma-1.1-7b-it"@,
            Which::Base2B => "google/gemma-2b"@,
            Which::Base7B => "google/gemma-7b"@,
            Which::Instruct2B => "google/gemma-2b-it"@,
            Which::Instruct7B => "google/gemma-7b-it"@,
            Which::CodeBase2B => "google/codegemma-2b"@,
            Which::CodeBase7B => "google/codegemma-7b"@,
            Which::CodeInstruct2B => "google/codegemma-2b-it"@,
            Which::CodeInstruct7B => "google/codegemma-7b-it"@,
            Which::BaseV2_2B => "google/gemma-2-2b"@,
            Which::InstructV2_2B => "google/gemma-2-2b-it"@,
            Which::BaseV2_9B => "google/gemma-2-9b"@,
            Which::InstructV2_9B => "google/gemma-2-9b-it"@,
            Which::BaseV3_1B => "google/gemma-3-1b-pt"@,
            Which::InstructV3_1B => "google/gemma-3-1b-it"@,
        }
    }

    /// Whether the variant was tuned to follow instructions.
    pub open spec fn instruct(&self) -> bool {
        match *self {
            Which::Base2B
            | Which::Base7B
            | Which::CodeBase2B
            | Which::CodeBase7B
            | Which::BaseV2_2B
            | Which::BaseV2_9B
            | Which::BaseV3_1B => false,
            _ => true,
        }
    }

    /// The architecture family that the variant's weights belong to.
    pub open spec fn architecture(&self) -> Family {
        match *self {
            Which::BaseV2_2B | Which::InstructV2_2B | Which::BaseV2_9B | Which::InstructV2_9B => {
                Family::Gen2
            },
            Which::BaseV3_1B | Which::InstructV3_1B => Family::Gen3,
            _ => Family::Gen1,
        }
    }

    /// Whether the variant belongs to the third architecture generation.
    pub open spec fn v3(&self) -> bool {
        *self == Which::BaseV3_1B || *self == Which::InstructV3_1B
    }

    /// The repository that the variant's files are fetched from.
    pub fn to_model_id(&self) -> (id: String)
        ensures
            id@ == self.model_id(),
    {
        match self {
            Self::InstructV1_1_2B => "google/gemma-1.1-2b-it".to_owned(),
            Self::InstructV1_1_7B => "google/gemma-1.1-7b-it".to_owned(),
            Self::Base2B => "google/gemma-2b".to_owned(),
            Self::Base7B => "google/gemma-7b".to_owned(),
            Self::Instruct2B => "google/gemma-2b-it".to_owned(),
            Self::Instruct7B => "google/gemma-7b-it".to_owned(),
            Self::CodeBase2B => "google/codegemma-2b".to_owned(),
            Self::CodeBase7B => "google/codegemma-7b".to_owned(),
            Self::CodeInstruct2B => "google/codegemma-2b-it".to_owned(),
            Self::CodeInstruct7B => "google/codegemma-7b-it".to_owned(),
            Self::BaseV2_2B => "google/gemma-2-2b".to_owned(),
            Self::InstructV2_2B => "google/gemma-2-2b-it".to_owned(),
            Self::BaseV2_9B => "google/gemma-2-9b".to_owned(),
            Self::InstructV2_9B => "google/gemma-2-9b-it".to_owned(),
            Self::BaseV3_1B => "google/gemma-3-1b-pt".to_owned(),
            Self::InstructV3_1B => "google/gemma-3-1b-it".to_owned(),
        }
    }

    /// Whether the variant was tuned to follow instructions.
    #[verifier::when_used_as_spec(instruct)]
    pub fn is_instruct_model(&self) -> (instruct: bool)
        ensures
            instruct == self.instruct(),
    {
        match self {
            Self::Base2B
            | Self::Base7B
            | Self::CodeBase2B
            | Self::CodeBase7B
            | Self::BaseV2_2B
            | Self::BaseV2_9B
            | Self::BaseV3_1B => false,
            _ => true,
        }
    }

    /// Whether the variant belongs to the third architecture generation.
    #[verifier::when_used_as_spec(v3)]
    pub fn is_v3_model(&self) -> (v3: bool)
        ensures
            v3 == self.v3(),
    {
        matches!(self, Self::BaseV3_1B | Self::InstructV3_1B)
    }

    /// The family whose configuration and weights the variant is loaded with.
    #[verifier::when_used_as_spec(architecture)]
    pub fn family(&self) -> (family: Family)
        ensures
            family == self.architecture(),
    {
        match self {
            Self::BaseV2_2B | Self::InstructV2_2B | Self::BaseV2_9B | Self::InstructV2_9B => {
                Family::Gen2
            },
            Self::BaseV3_1B | Self::InstructV3_1B => Family::Gen3,
            _ => Family::Gen1,
        }
    }

    /// Whether the weights come as one file rather than as an index of shards.
    pub fn has_single_weight_file(&self) -> (single: bool)
        ensures
            single == self.v3(),
    {
        self.is_v3_model()
    }
}

/// The text of a one-shot prompt as it is fed to a variant: the
/// instruction-tuned third-generation variant gets the text wrapped in a user
/// turn followed by the opening of the model's turn, every other variant gets
/// the text as it is.
pub open spec fn one_shot_prompt(which: Which, text: Seq<char>) -> Seq<char> {
    if which == Which::InstructV3_1B {
        "<start_of_turn> user\n"@ + text + "<end_of_turn>\n<start_of_turn> model\n"@
    } else {
        text
    }
}

/// Writes a one-shot prompt as the variant takes it.
pub fn format_prompt(which: Which, text: &str) -> (prompt: String)
    ensures
        prompt@ == one_shot_prompt(which, text@),
{
    match which {
        Which::InstructV3_1B => {
            let mut prompt = "<start_of_turn> user\n".to_owned();
            prompt.append(text);
            prompt.append("<end_of_turn>\n<start_of_turn> model\n");
            prompt
        },
        _ => text.to_owned(),
    }
}

/// The repository to fetch a variant from: the one given, else the variant's own.
pub fn resolve_model_id(given: Option<String>, which: Which) -> (id: String)
    ensures
        id@ == (match given {
            Some(name) => name@,
            None => which.model_id(),
        }),
{
    match given {
        Some(name) => name,
        None => which.to_model_id(),
    }
}

/// The third generation is exactly the family `Gen3`.
pub proof fn v3_is_third_family(which: Which)
    ensures
        which.v3() <==> which.architecture() == Family::Gen3,
{
}

/// `candle_core::Tensor`, carried through unread.
#[verifier::external_type_specification]
#[verifier::external_body]
pub struct ExTensor(Tensor);

/// `candle_core::Device`, carried through unread.
#[verifier::external_type_specification]
#[verifier::external_body]
pub struct ExDevice(Device);

/// `candle_core::DType`, carried through unread.
#[verifier::external_type_specification]
#[verifier::external_body]
pub struct ExDType(DType);

/// `candle_core::Error`, carried through unread.
#[verifier::external_type_specification]
#[verifier::external_body]
pub struct ExTensorError(candle_core::Error);

/// `candle_nn::Activation`, carried through unread.
#[verifier::external_type_specification]
#[verifier::external_body]
pub struct ExActivation(candle_nn::Activation);

/// `candle_transformers::models::gemma::Config`, with its public fields.
#[verifier::external_type_specification]
pub struct ExConfig1(Config1);

/// `candle_transformers::models::gemma2::Config`, with its public fields.
#[verifier::external_type_specification]
pub struct ExConfig2(Config2);

/// `candle_transformers::models::gemma3::Config`, with its public fields.
#[verifier::external_type_specification]
pub struct ExConfig3(Config3);

/// `candle_transformers::models::gemma::Model`, carried through unread.
#[verifier::external_type_specification]
#[verifier::external_body]
pub struct ExModel1(Model1);

/// `candle_transformers::models::gemma2::Model`, carried through unread.
#[verifier::external_type_specification]
#[verifier::external_body]
pub struct ExModel2(Model2);

/// `candle_transformers::models::gemma3::Model`, carried through unread.
#[verifier::external_type_specification]
#[verifier::external_body]
pub struct ExModel3(Model3);

/// How many layers a model may have. The models set the room for their
/// layers aside before they build them.
pub const MAX_LAYERS: usize = 65_536;

/// How far back a sliding window of attention may reach. The third family
/// adds the window to a position of the sequence.
pub const MAX_WINDOW: usize = 0x4000_0000;

/// How many heads of one kind a model may have, and how wide a head may be.
/// The models multiply the one by the other.
pub const MAX_WIDTH: usize = 32_768;

/// Whether the heads and the layers of a configuration can be built: the
/// query heads are shared out among the key-value heads, of which there must
/// be one at least, and the width of all heads of a kind is worked out.
pub open spec fn buildable(heads: usize, key_value_heads: usize, head_dim: usize, layers: usize) -> bool {
    &&& 0 < key_value_heads <= MAX_WIDTH
    &&& heads <= MAX_WIDTH
    &&& head_dim <= MAX_WIDTH
    &&& layers <= MAX_LAYERS
}

/// Whether a configuration of the first family can be built.
pub open spec fn buildable_gen1(config: Config1) -> bool {
    buildable(
        config.num_attention_heads,
        config.num_key_value_heads,
        config.head_dim,
        config.num_hidden_layers,
    )
}

/// Whether a configuration of the second family can be built: its sliding
/// window, if it has one, is added to a position of the sequence.
pub open spec fn buildable_gen2(config: Config2) -> bool {
    &&& buildable(
        config.num_attention_heads,
        config.num_key_value_heads,
        config.head_dim,
        config.num_hidden_layers,
    )
    &&& config.sliding_window matches Some(window) ==> window <= MAX_WINDOW
}

/// Whether a configuration of the third family can be built: every so many
/// layers one attends to the whole sequence, the others to a window, and
/// the memory of a layer that attends to the whole grows by the longest
/// sequence at a time, which must be a step forward.
pub open spec fn buildable_gen3(config: Config3) -> bool {
    &&& buildable(
        config.num_attention_heads,
        config.num_key_value_heads,
        config.head_dim,
        config.num_hidden_layers,
    )
    &&& config.sliding_window_pattern > 0
    &&& config.sliding_window <= MAX_WINDOW
    &&& config.max_position_embeddings > 0
}

/// Whether the heads and the layers of a configuration can be built.
pub fn can_build(heads: usize, key_value_heads: usize, head_dim: usize, layers: usize) -> (ok: bool)
    ensures
        ok == buildable(heads, key_value_heads, head_dim, layers),
{
    0 < key_value_heads && key_value_heads <= MAX_WIDTH && heads <= MAX_WIDTH && head_dim
        <= MAX_WIDTH && layers <= MAX_LAYERS
}

/// A model of the first family. The library builds every one itself, without
/// flash attention and from a configuration that it has checked.
pub struct Gen1 {
    model: Model1,
    position: usize,
    length: usize,
}

/// A model of the second family, built like one of the first.
pub struct Gen2 {
    model: Model2,
    position: usize,
    length: usize,
}

/// A model of the third family, built like one of the first.
pub struct Gen3 {
    model: Model3,
    position: usize,
    length: usize,
}

/// Calls `candle_transformers::models::gemma::Model::new` without flash
/// attention, on the weights behind `candle_nn::VarBuilder::from_tensors`.
/// The constructor divides by the number of key-value heads, multiplies the
/// heads by their width and sets room aside for the layers. Nothing is
/// claimed of the model that comes back.
#[verifier::external_body]
fn build_gen1(
    config: &Config1,
    weights: HashMap<String, Tensor>,
    dtype: DType,
    device: &Device,
) -> (r: Result<Gen1, candle_core::Error>)
    requires
        buildable_gen1(*config),
{
    let weights = VarBuilder::from_tensors(weights, dtype, device);
    Ok(Gen1 { model: Model1::new(false, config, weights)?, position: 0, length: 0 })
}

/// Calls `candle_transformers::models::gemma2::Model::new` without flash
/// attention, on the weights behind `candle_nn::VarBuilder::from_tensors`.
/// The constructor divides by the number of key-value heads, multiplies the
/// heads by their width and sets room aside for the layers; the model later
/// adds its sliding window to a position. Nothing is claimed of the model
/// that comes back.
#[verifier::external_body]
fn build_gen2(
    config: &Config2,
    weights: HashMap<String, Tensor>,
    dtype: DType,
    device: &Device,
) -> (r: Result<Gen2, candle_core::Error>)
    requires
        buildable_gen2(*config),
{
    let weights = VarBuilder::from_tensors(weights, dtype, device);
    Ok(Gen2 { model: Model2::new(false, config, weights)?, position: 0, length: 0 })
}

/// Calls `candle_transformers::models::gemma3::Model::new` without flash
/// attention, on the weights behind `candle_nn::VarBuilder::from_tensors`.
/// The constructor divides by the number of key-value heads and by the
/// pattern of the sliding windows, multiplies the heads by their width and
/// sets room aside for the layers; the model later adds its sliding window to
/// a position, and lets the memory of its layers grow by the longest
/// sequence of the configuration. Nothing is claimed of the model that comes
/// back.
#[verifier::external_body]
fn build_gen3(
    config: &Config3,
    weights: HashMap<String, Tensor>,
    dtype: DType,
    device: &Device,
) -> (r: Result<Gen3, candle_core::Error>)
    requires
        buildable_gen3(*config),
{
    let weights = VarBuilder::from_tensors(weights, dtype, device);
    Ok(Gen3 { model: Model3::new(false, config, weights)?, position: 0, length: 0 })
}

/// Runs `candle_transformers::models::gemma::Model::forward` on the ids as
/// one batch row (`Tensor::new`, then `unsqueeze(0)`). The model reads the
/// last position of its input, so the ids must not be empty. A `Gen1` is
/// made by `build_gen1` alone, so it runs without flash attention. Nothing
/// is claimed of the tensor that comes back.
#[verifier::external_body]
fn forward_gen1(model: &mut Gen1, ids: &[u32], position: usize, device: &Device) -> (r: Result<
    Tensor,
    candle_core::Error,
>)
    requires
        ids@.len() > 0,
        ids@.len() + position + MAX_WINDOW <= usize::MAX,
{
    let input = Tensor::new(ids, device)?.unsqueeze(0)?;
    model.model.forward(&input, position)
}

/// Runs `candle_transformers::models::gemma2::Model::forward` on the ids as
/// one batch row (`Tensor::new`, then `unsqueeze(0)`). The model reads the
/// last position of its input, so the ids must not be empty, and it adds its
/// sliding window to a position among the ids. A `Gen2` is made by
/// `build_gen2` alone, so it runs without flash attention and its window is
/// `MAX_WINDOW` at most. Nothing is claimed of the tensor that comes back.
#[verifier::external_body]
fn forward_gen2(model: &mut Gen2, ids: &[u32], position: usize, device: &Device) -> (r: Result<
    Tensor,
    candle_core::Error,
>)
    requires
        ids@.len() > 0,
        ids@.len() + position + MAX_WINDOW <= usize::MAX,
{
    let input = Tensor::new(ids, device)?.unsqueeze(0)?;
    model.model.forward(&input, position)
}

/// Runs `candle_transformers::models::gemma3::Model::forward` on the ids as
/// one batch row (`Tensor::new`, then `unsqueeze(0)`). The model reads the
/// last position of its input, so the ids must not be empty, and it adds its
/// sliding window to a position among the ids. A `Gen3` is made by
/// `build_gen3` alone, so it runs without flash attention and its window is
/// `MAX_WINDOW` at most. Nothing is claimed of the tensor that comes back.
#[verifier::external_body]
fn forward_gen3(model: &mut Gen3, ids: &[u32], position: usize, device: &Device) -> (r: Result<
    Tensor,
    candle_core::Error,
>)
    requires
        ids@.len() > 0,
        ids@.len() + position + MAX_WINDOW <= usize::MAX,
{
    let input = Tensor::new(ids, device)?.unsqueeze(0)?;
    model.model.forward(&input, position)
}

/// Why a model could not be loaded.
#[derive(Debug)]
pub enum ModelError {
    /// The configuration names no key-value head, too many or too wide
    /// heads, too many layers, too wide a window or, in the third family, no
    /// pattern of windows or no length of a sequence.
    Config,
    /// The weights do not fit the configuration.
    Weights(candle_core::Error),
}

/// Why a forward pass gave no scores.
#[derive(Debug)]
pub enum ForwardError {
    /// The window holds no token.
    Empty,
    /// The window ends beyond the positions that can be counted.
    TooLong,
    /// The computation failed.
    Compute(candle_core::Error),
}

/// Whether a window of `length` tokens at `position` can be handed to a
/// model: it holds a token, and its end and the widest window beyond it can
/// be counted.
pub open spec fn passable(length: nat, position: nat) -> bool {
    length > 0 && length + position + MAX_WINDOW <= usize::MAX
}

/// The loaded model: one of the three architecture families behind one
/// operation.
pub enum Model {
    V1(Gen1),
    V2(Gen2),
    V3(Gen3),
}

impl Model {
    /// The family of the weights that are loaded.
    pub open spec fn architecture(&self) -> Family {
        match self {
            Model::V1(_) => Family::Gen1,
            Model::V2(_) => Family::Gen2,
            Model::V3(_) => Family::Gen3,
        }
    }

    /// What the model was handed last: the position of the window and how
    /// many tokens the window held.
    pub closed spec fn handed(&self) -> (usize, usize) {
        match self {
            Model::V1(m) => (m.position, m.length),
            Model::V2(m) => (m.position, m.length),
            Model::V3(m) => (m.position, m.length),
        }
    }

    /// Builds a model of the first family from its configuration and its
    /// weights by name. A configuration that cannot be built is refused
    /// before anything is built.
    pub fn load_gen1(
        config: &Config1,
        weights: HashMap<String, Tensor>,
        dtype: DType,
        device: &Device,
    ) -> (r: Result<Model, ModelError>)
        ensures
            !buildable_gen1(*config) <==> r matches Err(ModelError::Config),
            r matches Ok(model) ==> model.architecture() == Family::Gen1,
    {
        if !can_build(
            config.num_attention_heads,
            config.num_key_value_heads,
            config.head_dim,
            config.num_hidden_layers,
        ) {
            return Err(ModelError::Config);
        }
        match build_gen1(config, weights, dtype, device) {
            Ok(model) => Ok(Model::V1(model)),
            Err(e) => Err(ModelError::Weights(e)),
        }
    }

    /// Builds a model of the second family from its configuration and its
    /// weights by name. A configuration that cannot be built is refused
    /// before anything is built.
    pub fn load_gen2(
        config: &Config2,
        weights: HashMap<String, Tensor>,
        dtype: DType,
        device: &Device,
    ) -> (r: Result<Model, ModelError>)
        ensures
            !buildable_gen2(*config) <==> r matches Err(ModelError::Config),
            r matches Ok(model) ==> model.architecture() == Family::Gen2,
    {
        let window_fits = match config.sliding_window {
            Some(window) => window <= MAX_WINDOW,
            None => true,
        };
        if !window_fits || !can_build(
            config.num_attention_heads,
            config.num_key_value_heads,
            config.head_dim,
            config.num_hidden_layers,
        ) {
            return Err(ModelError::Config);
        }
        match build_gen2(config, weights, dtype, device) {
            Ok(model) => Ok(Model::V2(model)),
            Err(e) => Err(ModelError::Weights(e)),
        }
    }

    /// Builds a model of the third family from its configuration and its
    /// weights by name. A configuration that cannot be built is refused
    /// before anything is built.
    pub fn load_gen3(
        config: &Config3,
        weights: HashMap<String, Tensor>,
        dtype: DType,
        device: &Device,
    ) -> (r: Result<Model, ModelError>)
        ensures
            !buildable_gen3(*config) <==> r matches Err(ModelError::Config),
            r matches Ok(model) ==> model.architecture() == Family::Gen3,
    {
        if config.sliding_window_pattern == 0 || config.sliding_window > MAX_WINDOW
            || config.max_position_embeddings == 0 || !can_build(
            config.num_attention_heads,
            config.num_key_value_heads,
            config.head_dim,
            config.num_hidden_layers,
        ) {
            return Err(ModelError::Config);
        }
        match build_gen3(config, weights, dtype, device) {
            Ok(model) => Ok(Model::V3(model)),
            Err(e) => Err(ModelError::Weights(e)),
        }
    }

    /// The position and the length of the window that the model was handed
    /// last.
    pub fn last_window(&self) -> (window: (usize, usize))
        ensures
            window == self.handed(),
    {
        match self {
            Model::V1(m) => (m.position, m.length),
            Model::V2(m) => (m.position, m.length),
            Model::V3(m) => (m.position, m.length),
        }
    }

    /// The family of the weights that are loaded.
    #[verifier::when_used_as_spec(architecture)]
    pub fn family(&self) -> (family: Family)
        ensures
            family == self.architecture(),
    {
        match self {
            Model::V1(_) => Family::Gen1,
            Model::V2(_) => Family::Gen2,
            Model::V3(_) => Family::Gen3,
        }
    }

    /// One forward pass over a window of token ids that starts at `position`
    /// of the sequence. A window that cannot be handed on is answered with
    /// its error and the model is left alone. Every other window is handed,
    /// at `position`, to the family that is loaded, which stays the same; a
    /// failure of the computation comes back as the error, and leaves the
    /// process running.
    pub fn forward(&mut self, ids: &[u32], position: usize, device: &Device) -> (r: Result<
        Tensor,
        ForwardError,
    >)
        ensures
            final(self).architecture() == old(self).architecture(),
            ids@.len() == 0 <==> r matches Err(ForwardError::Empty),
            ids@.len() > 0 && !passable(ids@.len(), position as nat) <==> r matches Err(
                ForwardError::TooLong,
            ),
            passable(ids@.len(), position as nat) ==> final(self).handed() == (
                position,
                ids@.len() as usize,
            ),
            !passable(ids@.len(), position as nat) ==> *final(self) == *old(self),
    {
        let length = ids.len();
        if length == 0 {
            return Err(ForwardError::Empty);
        }
        if position > usize::MAX - MAX_WINDOW || length > usize::MAX - MAX_WINDOW - position {
            return Err(ForwardError::TooLong);
        }
        let passed = match self {
            Model::V1(m) => {
                let passed = forward_gen1(m, ids, position, device);
                m.position = position;
                m.length = length;
                passed
            },
            Model::V2(m) => {
                let passed = forward_gen2(m, ids, position, device);
                m.position = position;
                m.length = length;
                passed
            },
            Model::V3(m) => {
                let passed = forward_gen3(m, ids, position, device);
                m.position = position;
                m.length = length;
                passed
            },
        };
        match passed {
            Ok(scores) => Ok(scores),
            Err(e) => Err(ForwardError::Compute(e)),
        }
    }
}

} // verus!
