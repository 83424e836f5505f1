//! The projector that joins Gemma 3's vision encoder to its language model.
use vstd::prelude::*;

use crate::error::{Fault, ModelError};
use crate::gguf::loader::{TensorMaps, Tensors};
use crate::tensor::{Grid, Matrix};
use crate::vision::safetensors_file::{
    gather, gathered, gathered_under_key, is_matrix_of, is_vector_of, last_of_key, Decoded,
};

verus! {

/// What the names of the projector's tensors start with.
pub const PROJECTOR_PREFIX: &'static str = "multi_modal_projector.";

/// The projector's weights.
#[derive(Debug)]
pub struct ProjectorWeights {
    /// One row for each number of the encoder, one column for each of the
    /// language model.
    pub input_projection: Matrix,
    /// The scale of each of the encoder's numbers.
    pub soft_emb_norm: Vec<u32>,
}

impl ProjectorWeights {
    /// The number of numbers that the encoder gives.
    pub fn vision_hidden(&self) -> (r: usize)
        ensures
            r == self.input_projection@.rows,
    {
        self.input_projection.rows
    }

    /// The number of numbers that the language model takes.
    pub fn text_hidden(&self) -> (r: usize)
        ensures
            r == self.input_projection@.cols,
    {
        self.input_projection.cols
    }
}

/// The key of the projection matrix.
pub open spec fn projection_key() -> Seq<char> {
    "mm_input_projection_weight"@
}

/// The key of the norm's scale.
pub open spec fn norm_key() -> Seq<char> {
    "mm_soft_emb_norm.weight"@
}

/// The projector that `m` holds, or what is missing.
pub open spec fn projector_of(m: TensorMaps) -> Result<(Grid, Seq<u32>), Fault> {
    if !m.matrices.dom().contains(projection_key()) {
        Err(Fault::Parse("missing multi_modal_projector.mm_input_projection_weight"@))
    } else if !m.vectors.dom().contains(norm_key()) {
        Err(Fault::Parse("missing multi_modal_projector.mm_soft_emb_norm.weight"@))
    } else {
        Ok((m.matrices[projection_key()], m.vectors[norm_key()]))
    }
}

/// The projector's weights, as plain values.
pub open spec fn projector_view(r: Result<ProjectorWeights, ModelError>) -> Result<
    (Grid, Seq<u32>),
    Fault,
> {
    match r {
        Ok(w) => Ok((w.input_projection@, w.soft_emb_norm@)),
        Err(e) => Err(e@),
    }
}

/// Takes the projector's weights out of the tables.
fn assemble_projector(tables: Tensors) -> (r: Result<ProjectorWeights, ModelError>)
    requires
        tables.wf(),
    ensures
        projector_view(r) == projector_of(tables@),
        r matches Ok(w) ==> w.input_projection.wf(),
{
    let mut matrices = tables.matrices;
    let mut vectors = tables.vectors;
    let input_projection = match matrices.remove("mm_input_projection_weight") {
        Some(m) => m,
        None => {
            return Err(
                ModelError::Parse(
                    "missing multi_modal_projector.mm_input_projection_weight".to_owned(),
                ),
            );
        },
    };
    assert(tables@.matrices.dom().contains(projection_key()));
    let soft_emb_norm = match vectors.remove("mm_soft_emb_norm.weight") {
        Some(v) => v,
        None => {
            return Err(
                ModelError::Parse(
                    "missing multi_modal_projector.mm_soft_emb_norm.weight".to_owned(),
                ),
            );
        },
    };
    Ok(ProjectorWeights { input_projection, soft_emb_norm })
}

/// The projector that a list of tensors holds.
pub open spec fn projector_from(tensors: Seq<Decoded>) -> Result<(Grid, Seq<u32>), Fault> {
    match gathered(tensors, None, tensors.len()) {
        Ok(g) => projector_of(g.maps),
        Err(e) => Err(e),
    }
}

/// The projection matrix and the norm's scale are the tensors that the files
/// hold under their own names.
pub proof fn projector_tensors_placed(tensors: Seq<Decoded>, w: (Grid, Seq<u32>), i: int)
    requires
        projector_from(tensors) == Ok::<(Grid, Seq<u32>), Fault>(w),
        0 <= i < tensors.len(),
        last_of_key(tensors, i),
    ensures
        ({
            let t = tensors[i];
            &&& t.shape@.len() == 2 && t.key@ == "mm_input_projection_weight"@ ==> is_matrix_of(
                t,
                w.0,
            )
            &&& t.shape@.len() == 1 && t.key@ == "mm_soft_emb_norm.weight"@ ==> is_vector_of(
                t,
                w.1,
            )
        }),
{
    let g = gathered(tensors, None, tensors.len())->Ok_0;
    gathered_under_key(tensors, None, tensors.len(), i, g);
}

/// The projector, from the tensors of all files whose names start with
/// [`PROJECTOR_PREFIX`].
pub fn load_projector_from_safetensors(tensors: &Vec<Decoded>) -> (r: Result<
    ProjectorWeights,
    ModelError,
>)
    ensures
        projector_view(r) == projector_from(tensors@),
        r matches Ok(w) ==> w.input_projection.wf(),
{
    match gather(tensors, None) {
        Ok(g) => assemble_projector(g.tables),
        Err(e) => Err(e),
    }
}

} // verus!
