//! What a language model expects of images and sounds that are put among its
//! tokens.
use vstd::prelude::*;

verus! {

/// What a run of embeddings was made of.
#[derive(Debug, Clone, Copy, PartialEq, Eq, Hash, Structural)]
pub enum Modality {
    Text,
    Image,
    Audio,
}

/// One item before it is encoded.
pub enum ModalInput<'a> {
    /// An image: rows of pixels, three bytes each.
    Image { rgb: &'a [u8], width: usize, height: usize },
    /// Sound with one channel: the bit patterns of its samples.
    Audio { samples: &'a [u32] },
}

/// The tokens that mark the place of an item: one `fill` for each of its
/// embeddings, between `start` and `end`.
#[derive(Debug, Clone, Copy)]
pub struct PlaceholderProtocol {
    pub start: Option<u32>,
    pub fill: u32,
    pub end: Option<u32>,
}

/// How many places one item takes.
#[derive(Debug, Clone, Copy)]
pub enum TokenBudget {
    /// Always as many.
    Fixed(usize),
    /// As many for each tile of the item.
    PerTile { tokens_per_tile: usize },
    /// As many as the encoder gives.
    Dynamic,
}

/// Whether the embeddings of an item are scaled once more.
#[derive(Debug, Clone, Copy, PartialEq, Eq, Structural)]
pub enum PrecomputedScaling {
    /// They are not.
    Unscaled,
    /// They are scaled as the embeddings of tokens are.
    SameAsTokens,
}

/// What a family of language models expects.  A family that states nothing
/// takes neither images nor sounds.
pub trait MultiModalProtocol {
    /// The encoder of images.
    fn vision_encoder(&self) -> (r: Option<&str>)
        default_ensures
            r is None,
    {
        None
    }

    /// The encoder of sounds.
    fn audio_encoder(&self) -> (r: Option<&str>)
        default_ensures
            r is None,
    {
        None
    }

    /// How an image is marked.
    fn image_placeholder(&self) -> (r: Option<PlaceholderProtocol>)
        default_ensures
            r is None,
    {
        None
    }

    /// How a sound is marked.
    fn audio_placeholder(&self) -> (r: Option<PlaceholderProtocol>)
        default_ensures
            r is None,
    {
        None
    }

    /// How many places an image takes.
    fn image_token_budget(&self) -> (r: TokenBudget)
        default_ensures
            r == TokenBudget::Dynamic,
    {
        TokenBudget::Dynamic
    }

    /// How the embeddings of an item are scaled.
    fn precomputed_scaling(&self) -> (r: PrecomputedScaling)
        default_ensures
            r == PrecomputedScaling::Unscaled,
    {
        PrecomputedScaling::Unscaled
    }

    /// The numbers of tiles that an image may be cut into; none for a family
    /// that does not cut images.
    fn valid_tile_counts(&self) -> (r: &[usize])
        default_ensures
            r@.len() == 0,
    {
        &[]
    }
}

/// A family that states nothing.
pub struct TextOnly;

impl MultiModalProtocol for TextOnly {

}

/// An image is cut into tiles exactly where it takes places for each tile.
pub open spec fn tiles_go_with_budget(budget: TokenBudget, counts: Seq<usize>) -> bool {
    counts.len() > 0 <==> budget is PerTile
}

/// A family that states nothing has no tiles and no places for each tile.
pub proof fn default_tiles(p: &TextOnly, budget: TokenBudget, counts: &[usize])
    requires
        call_ensures(TextOnly::image_token_budget, (p,), budget),
        call_ensures(TextOnly::valid_tile_counts, (p,), counts),
    ensures
        tiles_go_with_budget(budget, counts@),
        budget is Dynamic,
{
}

} // verus!
