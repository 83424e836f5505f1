//! The two-layer network that joins Granite's vision encoder to its language
//! model.
use vstd::prelude::*;

use crate::error::{Fault, ModelError};
use crate::gguf::loader::{TensorMaps, Tensors};
use crate::tensor::{Grid, Matrix};
use crate::vision::safetensors_file::{
    gather, gathered, gathered_under_key, is_matrix_of, is_vector_of, last_of_key, Decoded,
};

verus! {

/// The network's weights.
#[derive(Debug)]
pub struct MlpConnectorWeights {
    /// One row for each number between the layers, one column for each of the
    /// encoder.
    pub fc1_weight: Matrix,
    pub fc1_bias: Vec<u32>,
    /// One row for each number of the language model, one column for each
    /// between the layers.
    pub fc2_weight: Matrix,
    pub fc2_bias: Vec<u32>,
}

/// What [`MlpConnectorWeights`] holds, as plain values.
pub struct ConnectorView {
    pub fc1_weight: Grid,
    pub fc1_bias: Seq<u32>,
    pub fc2_weight: Grid,
    pub fc2_bias: Seq<u32>,
}

impl View for MlpConnectorWeights {
    type V = ConnectorView;

    open spec fn view(&self) -> ConnectorView {
        ConnectorView {
            fc1_weight: self.fc1_weight@,
            fc1_bias: self.fc1_bias@,
            fc2_weight: self.fc2_weight@,
            fc2_bias: self.fc2_bias@,
        }
    }
}

impl MlpConnectorWeights {
    /// The number of numbers that the encoder gives.
    pub fn vision_hidden(&self) -> (r: usize)
        ensures
            r == self@.fc1_weight.cols,
    {
        self.fc1_weight.cols
    }

    /// The number of numbers between the layers.
    pub fn intermediate_size(&self) -> (r: usize)
        ensures
            r == self@.fc1_weight.rows,
    {
        self.fc1_weight.rows
    }

    /// The number of numbers that the language model takes.
    pub fn text_hidden(&self) -> (r: usize)
        ensures
            r == self@.fc2_weight.rows,
    {
        self.fc2_weight.rows
    }
}

/// What is said when a tensor is missing.
pub open spec fn missing_part(key: Seq<char>) -> Fault {
    Fault::Parse("missing multi_modal_projector."@ + key)
}

/// The network that `m` holds, or what is missing first.
pub open spec fn connector_of(m: TensorMaps) -> Result<ConnectorView, Fault> {
    if !m.matrices.dom().contains("linear_1.weight"@) {
        Err(missing_part("linear_1.weight"@))
    } else if !m.vectors.dom().contains("linear_1.bias"@) {
        Err(missing_part("linear_1.bias"@))
    } else if !m.matrices.dom().contains("linear_2.weight"@) {
        Err(missing_part("linear_2.weight"@))
    } else if !m.vectors.dom().contains("linear_2.bias"@) {
        Err(missing_part("linear_2.bias"@))
    } else {
        Ok(
            ConnectorView {
                fc1_weight: m.matrices["linear_1.weight"@],
                fc1_bias: m.vectors["linear_1.bias"@],
                fc2_weight: m.matrices["linear_2.weight"@],
                fc2_bias: m.vectors["linear_2.bias"@],
            },
        )
    }
}

/// The network's weights, as plain values.
pub open spec fn connector_view(r: Result<MlpConnectorWeights, ModelError>) -> Result<
    ConnectorView,
    Fault,
> {
    match r {
        Ok(w) => Ok(w@),
        Err(e) => Err(e@),
    }
}

/// The error of a tensor that is missing.
fn missing_error(key: &str) -> (r: ModelError)
    ensures
        r@ == missing_part(key@),
{
    ModelError::Parse(crate::text::concat("missing multi_modal_projector.", key))
}

/// Takes the network's weights out of the tables.
fn assemble_connector(tables: Tensors) -> (r: Result<MlpConnectorWeights, ModelError>)
    requires
        tables.wf(),
    ensures
        connector_view(r) == connector_of(tables@),
        r matches Ok(w) ==> w.fc1_weight.wf() && w.fc2_weight.wf(),
{
    let mut matrices = tables.matrices;
    let mut vectors = tables.vectors;
    proof {
        reveal_strlit("linear_1.weight");
        reveal_strlit("linear_2.weight");
        reveal_strlit("linear_1.bias");
        reveal_strlit("linear_2.bias");
        assert("linear_1.weight"@[7] == '1' && "linear_2.weight"@[7] == '2');
        assert("linear_1.bias"@[7] == '1' && "linear_2.bias"@[7] == '2');
    }
    let fc1_weight = match matrices.remove("linear_1.weight") {
        Some(m) => m,
        None => {
            return Err(missing_error("linear_1.weight"));
        },
    };
    assert(tables@.matrices.dom().contains("linear_1.weight"@));
    let fc1_bias = match vectors.remove("linear_1.bias") {
        Some(v) => v,
        None => {
            return Err(missing_error("linear_1.bias"));
        },
    };
    let fc2_weight = match matrices.remove("linear_2.weight") {
        Some(m) => m,
        None => {
            return Err(missing_error("linear_2.weight"));
        },
    };
    assert(tables@.matrices.dom().contains("linear_2.weight"@));
    let fc2_bias = match vectors.remove("linear_2.bias") {
        Some(v) => v,
        None => {
            return Err(missing_error("linear_2.bias"));
        },
    };
    Ok(MlpConnectorWeights { fc1_weight, fc1_bias, fc2_weight, fc2_bias })
}

/// The network that a list of tensors holds.
pub open spec fn connector_from(tensors: Seq<Decoded>) -> Result<ConnectorView, Fault> {
    match gathered(tensors, None, tensors.len()) {
        Ok(g) => connector_of(g.maps),
        Err(e) => Err(e),
    }
}

/// Every weight and bias of the network is the tensor that the files hold
/// under its own name: the first layer's under `linear_1`, the second's under
/// `linear_2`.
pub proof fn connector_tensors_placed(tensors: Seq<Decoded>, w: ConnectorView, i: int)
    requires
        connector_from(tensors) == Ok::<ConnectorView, Fault>(w),
        0 <= i < tensors.len(),
        last_of_key(tensors, i),
    ensures
        ({
            let t = tensors[i];
            let matrix = t.shape@.len() == 2;
            let vector = t.shape@.len() == 1;
            &&& matrix && t.key@ == "linear_1.weight"@ ==> is_matrix_of(t, w.fc1_weight)
            &&& vector && t.key@ == "linear_1.bias"@ ==> is_vector_of(t, w.fc1_bias)
            &&& matrix && t.key@ == "linear_2.weight"@ ==> is_matrix_of(t, w.fc2_weight)
            &&& vector && t.key@ == "linear_2.bias"@ ==> is_vector_of(t, w.fc2_bias)
        }),
{
    let g = gathered(tensors, None, tensors.len())->Ok_0;
    gathered_under_key(tensors, None, tensors.len(), i, g);
}

/// The network, from the tensors of all files whose names start with
/// [`PROJECTOR_PREFIX`](crate::vision::projector::PROJECTOR_PREFIX).
pub fn load_mlp_connector_from_safetensors(tensors: &Vec<Decoded>) -> (r: Result<
    MlpConnectorWeights,
    ModelError,
>)
    ensures
        connector_view(r) == connector_from(tensors@),
        r matches Ok(w) ==> w.fc1_weight.wf() && w.fc2_weight.wf(),
{
    match gather(tensors, None) {
        Ok(g) => assemble_connector(g.tables),
        Err(e) => Err(e),
    }
}

} // verus!
