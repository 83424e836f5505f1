//! The Granite family.
use vstd::prelude::*;

use crate::models::config::ModelConfig;
use crate::models::multimodal::{
    tiles_go_with_budget, MultiModalProtocol, PlaceholderProtocol, PrecomputedScaling, TokenBudget,
};

verus! {

/// What a Granite model with vision expects of images.
pub struct GraniteVisionMultiModal;

impl MultiModalProtocol for GraniteVisionMultiModal {
    fn vision_encoder(&self) -> (r: Option<&str>)
        ensures
            r matches Some(s) && s@ == "siglip2"@,
    {
        Some("siglip2")
    }

    fn image_placeholder(&self) -> (r: Option<PlaceholderProtocol>)
        ensures
            r == Some(PlaceholderProtocol { start: None, fill: 49152, end: None }),
    {
        Some(PlaceholderProtocol { start: None, fill: 49152, end: None })
    }

    fn image_token_budget(&self) -> (r: TokenBudget)
        ensures
            r == (TokenBudget::PerTile { tokens_per_tile: 729 }),
    {
        TokenBudget::PerTile { tokens_per_tile: 729 }
    }

    fn precomputed_scaling(&self) -> (r: PrecomputedScaling)
        ensures
            r == PrecomputedScaling::Unscaled,
    {
        PrecomputedScaling::Unscaled
    }

    fn valid_tile_counts(&self) -> (r: &[usize])
        ensures
            r@ == seq![1usize, 2, 3, 4, 5, 6],
    {
        &[1, 2, 3, 4, 5, 6]
    }
}

/// Granite cuts images, and has places for each tile.
pub proof fn granite_tiles(p: &GraniteVisionMultiModal, budget: TokenBudget, counts: &[usize])
    requires
        call_ensures(GraniteVisionMultiModal::image_token_budget, (p,), budget),
        call_ensures(GraniteVisionMultiModal::valid_tile_counts, (p,), counts),
    ensures
        tiles_go_with_budget(budget, counts@),
{
}

/// A Granite model.
pub struct GraniteArch {
    pub config: ModelConfig,
}

impl GraniteArch {
    /// The model with this configuration.
    pub fn from_config(config: ModelConfig) -> (r: GraniteArch)
        ensures
            r.config == config,
    {
        GraniteArch { config }
    }

    /// The family's name: the one that the configuration gives.
    pub fn family(&self) -> (r: &str)
        ensures
            r@ == self.config.model_type@,
    {
        self.config.model_type.as_str()
    }

    /// The configuration.
    pub fn config(&self) -> (r: &ModelConfig)
        ensures
            *r == self.config,
    {
        &self.config
    }

    /// What the model expects of images; nothing for a model without vision.
    pub fn multimodal(&self) -> (r: Option<&GraniteVisionMultiModal>)
        ensures
            r is Some == self.config.has_vision_config,
    {
        if self.config.has_vision_config {
            Some(&GraniteVisionMultiModal)
        } else {
            None
        }
    }
}

} // verus!
