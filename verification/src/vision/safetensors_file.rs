//! Tensors in safetensors files: finding those with a prefix, and gathering
//! them by rank.
use vstd::prelude::*;

use crate::error::{Fault, ModelError};
use crate::gguf::loader::{TensorMaps, Tensors};
use crate::gguf::orient::{grids, rows_of};
use crate::gguf::reader::{le_u64, le_u64_of};
use crate::table::TextMap;
use crate::tensor::{shape_fault, Grid, Matrix};
use crate::text::{ends_with, has_prefix, has_suffix, same, strip_prefix};

verus! {

/// A tensor as it stands in a file.
#[derive(Debug)]
pub struct RawTensor {
    pub name: String,
    /// The name of the type of its elements.
    pub dtype: String,
    pub shape: Vec<usize>,
    pub data: Vec<u8>,
}

/// What a tensor in a file holds, as plain values.
pub struct RawView {
    pub dtype: Seq<char>,
    pub shape: Seq<usize>,
    pub data: Seq<u8>,
}

/// A tensor's name and what it holds.
pub struct NamedRaw {
    pub name: Seq<char>,
    pub content: RawView,
}

impl View for RawTensor {
    type V = NamedRaw;

    open spec fn view(&self) -> NamedRaw {
        NamedRaw {
            name: self.name@,
            content: RawView { dtype: self.dtype@, shape: self.shape@, data: self.data@ },
        }
    }
}

/// What a list of tensors holds.
pub open spec fn raws(v: Seq<RawTensor>) -> Seq<NamedRaw> {
    v.map_values(|t: RawTensor| t@)
}

/// `v` holds the entries of `m`, each once, in some order.
pub open spec fn lists(v: Seq<NamedRaw>, m: Map<Seq<char>, RawView>) -> bool {
    &&& forall|i: int, j: int|
        0 <= i < j < v.len() ==> (#[trigger] v[i]).name != (#[trigger] v[j]).name
    &&& forall|i: int|
        0 <= i < v.len() ==> m.dom().contains((#[trigger] v[i]).name) && m[v[i].name]
            == v[i].content
    &&& forall|k: Seq<char>| #[trigger]
        m.dom().contains(k) ==> exists|i: int| 0 <= i < v.len() && (#[trigger] v[i]).name == k
}

/// The tensors that the bytes of a safetensors file hold, each under its name;
/// nothing if they are not such a file.
pub uninterp spec fn safetensors_of(bytes: Seq<u8>) -> Option<Map<Seq<char>, RawView>>;

/// The bytes of the header of a safetensors file: its length stands in front
/// of it, in eight bytes.  Nothing if the file is too short for it.
pub open spec fn header_of(bytes: Seq<u8>) -> Option<Seq<u8>> {
    if bytes.len() >= 8 && le_u64(bytes, 0) <= bytes.len() - 8 {
        Some(bytes.subrange(8, 8 + le_u64(bytes, 0)))
    } else {
        None
    }
}

/// The number of bytes that the tensors of a safetensors header take; nothing
/// if it is not such a header.
pub uninterp spec fn header_data_len(header: Seq<u8>) -> Option<usize>;

/// `serde_json::from_slice` for a `safetensors::tensor::Metadata`, then
/// `Metadata::data_len`: where the last tensor of the header ends is a
/// function of the header's bytes.
#[verifier::external_body]
fn data_len(header: &[u8]) -> (r: Option<usize>)
    ensures
        r == header_data_len(header@),
{
    match serde_json::from_slice::<safetensors::tensor::Metadata>(header) {
        Ok(metadata) => Some(metadata.data_len()),
        Err(_) => None,
    }
}

/// What the header asks for, together with the whole file, fits in a machine
/// word.
pub open spec fn data_fits(bytes: Seq<u8>) -> bool {
    header_of(bytes) matches Some(header) ==> (header_data_len(header) matches Some(n) ==> n
        + bytes.len() <= usize::MAX)
}

/// `safetensors::SafeTensors::deserialize`, then `SafeTensors::tensors` and the
/// accessors of each `TensorView`: whether the bytes are a safetensors file,
/// and which tensors it holds, is a function of the bytes.  The order of the
/// tensors is not, nor is the text of an error; nothing is said of either.
/// The crate adds the header's length to where the tensors end without a
/// check, so that sum has to fit.
#[verifier::external_body]
fn parse_safetensors(bytes: &[u8]) -> (r: Result<Vec<RawTensor>, String>)
    requires
        data_fits(bytes@),
    ensures
        match r {
            Ok(v) => safetensors_of(bytes@) matches Some(m) && lists(raws(v@), m),
            Err(_) => safetensors_of(bytes@) is None,
        },
{
    let st = safetensors::SafeTensors::deserialize(bytes).map_err(|e| e.to_string())?;
    let convert = |(name, view): (String, safetensors::tensor::TensorView<'_>)| RawTensor {
        name,
        dtype: format!("{:?}", view.dtype()),
        shape: view.shape().to_vec(),
        data: view.data().to_vec(),
    };
    Ok(st.tensors().into_iter().map(convert).collect())
}

/// Whether what the header asks for, together with the whole file, fits in a
/// machine word.
fn check_data_fits(bytes: &[u8]) -> (r: bool)
    ensures
        r == data_fits(bytes@),
{
    if bytes.len() < 8 {
        return true;
    }
    let n: u64 = le_u64_of(bytes, 0);
    if n > (bytes.len() - 8) as u64 {
        return true;
    }
    let header = vstd::slice::slice_subrange(bytes, 8, 8 + n as usize);
    match data_len(header) {
        Some(end) => end <= usize::MAX - bytes.len(),
        None => true,
    }
}

/// The entries of `m` whose names start with `prefix`, under what follows it.
pub open spec fn under_prefix(m: Map<Seq<char>, RawView>, prefix: Seq<char>) -> Map<
    Seq<char>,
    RawView,
> {
    Map::new(|k: Seq<char>| m.dom().contains(prefix + k), |k: Seq<char>| m[prefix + k])
}

/// The tensors whose names start with `prefix`, without it, in their order.
pub open spec fn kept(v: Seq<NamedRaw>, prefix: Seq<char>) -> Seq<NamedRaw>
    decreases v.len(),
{
    if v.len() == 0 {
        Seq::empty()
    } else {
        let before = kept(v.drop_last(), prefix);
        let last = v.last();
        if has_prefix(last.name, prefix) {
            before.push(
                NamedRaw { name: last.name.skip(prefix.len() as int), content: last.content },
            )
        } else {
            before
        }
    }
}

/// The index in `v` of the tensor that stands at index `i` in [`kept`].
proof fn kept_from(v: Seq<NamedRaw>, prefix: Seq<char>, i: int) -> (j: int)
    requires
        0 <= i < kept(v, prefix).len(),
    ensures
        i <= j < v.len(),
        v[j].name == prefix + kept(v, prefix)[i].name,
        v[j].content == kept(v, prefix)[i].content,
    decreases v.len(),
{
    let before = kept(v.drop_last(), prefix);
    if i < before.len() {
        let j = kept_from(v.drop_last(), prefix, i);
        assert(v.drop_last()[j] == v[j]);
        j
    } else {
        kept_bounded(v.drop_last(), prefix);
        let name = v.last().name;
        assert(name =~= prefix + name.skip(prefix.len() as int));
        v.len() - 1
    }
}

/// No more tensors are kept than there are.
proof fn kept_bounded(v: Seq<NamedRaw>, prefix: Seq<char>)
    ensures
        kept(v, prefix).len() <= v.len(),
    decreases v.len(),
{
    if v.len() > 0 {
        kept_bounded(v.drop_last(), prefix);
    }
}

/// A tensor whose name starts with the prefix is kept.
proof fn kept_holds(v: Seq<NamedRaw>, prefix: Seq<char>, j: int) -> (i: int)
    requires
        0 <= j < v.len(),
        has_prefix(v[j].name, prefix),
    ensures
        0 <= i < kept(v, prefix).len(),
        kept(v, prefix)[i].name == v[j].name.skip(prefix.len() as int),
    decreases v.len(),
{
    if j < v.len() - 1 {
        assert(v.drop_last()[j] == v[j]);
        let i = kept_holds(v.drop_last(), prefix, j);
        i
    } else {
        kept(v, prefix).len() - 1
    }
}

/// What is kept of the entries of a table is the entries whose names start
/// with the prefix.
pub proof fn kept_lists(v: Seq<NamedRaw>, m: Map<Seq<char>, RawView>, prefix: Seq<char>)
    requires
        lists(v, m),
    ensures
        lists(kept(v, prefix), under_prefix(m, prefix)),
{
    let w = kept(v, prefix);
    let u = under_prefix(m, prefix);
    assert forall|i: int| 0 <= i < w.len() implies u.dom().contains((#[trigger] w[i]).name)
        && u[w[i].name] == w[i].content by {
        let j = kept_from(v, prefix, i);
        assert(m.dom().contains(v[j].name));
    }
    assert forall|i: int, j: int| 0 <= i < j < w.len() implies (#[trigger] w[i]).name != (
    #[trigger] w[j]).name by {
        kept_apart(v, prefix, i, j);
    }
    assert forall|k: Seq<char>| #[trigger] u.dom().contains(k) implies exists|i: int|
        0 <= i < w.len() && (#[trigger] w[i]).name == k by {
        assert(m.dom().contains(prefix + k));
        let j = choose|j: int| 0 <= j < v.len() && (#[trigger] v[j]).name == prefix + k;
        assert((prefix + k).take(prefix.len() as int) =~= prefix);
        assert((prefix + k).subrange(0, prefix.len() as int) =~= prefix);
        let i = kept_holds(v, prefix, j);
        assert((prefix + k).skip(prefix.len() as int) =~= k);
        assert(w[i].name == k);
    }
}

/// Two tensors that are kept come from two tensors, and keep different names.
proof fn kept_apart(v: Seq<NamedRaw>, prefix: Seq<char>, i: int, j: int)
    requires
        forall|a: int, b: int|
            0 <= a < b < v.len() ==> (#[trigger] v[a]).name != (#[trigger] v[b]).name,
        0 <= i < j < kept(v, prefix).len(),
    ensures
        kept(v, prefix)[i].name != kept(v, prefix)[j].name,
    decreases v.len(),
{
    let shorter = v.drop_last();
    let before = kept(shorter, prefix);
    if j < before.len() {
        assert forall|a: int, b: int| 0 <= a < b < shorter.len() implies (
        #[trigger] shorter[a]).name != (#[trigger] shorter[b]).name by {
            assert(shorter[a] == v[a] && shorter[b] == v[b]);
        }
        kept_apart(shorter, prefix, i, j);
    } else {
        let a = kept_from(shorter, prefix, i);
        assert(shorter[a] == v[a]);
        let b = v.len() - 1;
        assert(v[a].name != v[b].name);
        assert(v[b].name =~= prefix + v[b].name.skip(prefix.len() as int));
    }
}

/// The tensors of `raw` whose names start with `prefix`, without it.
pub fn tensors_under(raw: Vec<RawTensor>, prefix: &str) -> (r: Vec<RawTensor>)
    ensures
        raws(r@) == kept(raws(raw@), prefix@),
{
    let ghost all = raws(raw@);
    let mut rest = raw;
    let mut out: Vec<RawTensor> = Vec::new();
    assert(all.take(0) =~= Seq::<NamedRaw>::empty());
    assert(raws(out@) =~= Seq::<NamedRaw>::empty());
    let n: usize = rest.len();
    for i in 0..n
        invariant
            n == all.len(),
            rest@.len() == all.len(),
            forall|k: int| i <= k < rest@.len() ==> (#[trigger] rest@[k])@ == all[k],
            raws(out@) == kept(all.take(i as int), prefix@),
    {
        let mut tensor = RawTensor {
            name: String::new(),
            dtype: String::new(),
            shape: Vec::new(),
            data: Vec::new(),
        };
        std::mem::swap(&mut tensor, &mut rest[i]);
        assert(tensor@ == all[i as int]);
        assert(all.take(i + 1).drop_last() =~= all.take(i as int));
        let ghost before = out@;
        match strip_prefix(tensor.name.as_str(), prefix) {
            Some(key) => {
                tensor.name = key;
                out.push(tensor);
                assert(raws(out@) =~= raws(before).push(tensor@));
            },
            None => {},
        }
    }
    assert(all.take(all.len() as int) =~= all);
    out
}

/// The tensors of a safetensors file whose names start with `prefix`, without
/// it.  Fails if the bytes are not such a file, or if its header asks for more
/// than a machine word can count.
pub fn read_tensors(bytes: &[u8], prefix: &str) -> (r: Result<Vec<RawTensor>, ModelError>)
    ensures
        match r {
            Ok(v) => data_fits(bytes@) && (safetensors_of(bytes@) matches Some(m) && lists(
                raws(v@),
                under_prefix(m, prefix@),
            )),
            Err(e) => e@ is Parse && (!data_fits(bytes@) || safetensors_of(bytes@) is None),
        },
{
    if !check_data_fits(bytes) {
        return Err(ModelError::Parse("safetensors header asks for too many bytes".to_owned()));
    }
    match parse_safetensors(bytes) {
        Ok(raw) => {
            let ghost all = raws(raw@);
            let kept_tensors = tensors_under(raw, prefix);
            proof {
                kept_lists(all, safetensors_of(bytes@)->0, prefix@);
            }
            Ok(kept_tensors)
        },
        Err(text) => Err(ModelError::Parse(text)),
    }
}

/// Whether a file of this name is a safetensors file.
pub fn is_safetensors_name(name: &str) -> (r: bool)
    ensures
        r == (has_suffix(name@, ".safetensors"@) && name@.len() > ".safetensors"@.len()),
{
    ends_with(name, ".safetensors") && name.unicode_len() > ".safetensors".unicode_len()
}

/// A tensor with its numbers, or why they are not known.
pub struct Decoded {
    pub key: String,
    pub shape: Vec<usize>,
    pub numbers: Result<Vec<u32>, String>,
}

/// The tensors of one model part: matrices and vectors by key, and the one
/// tensor of rank four.
pub struct Gathered {
    pub tables: Tensors,
    pub patch: Option<(Vec<u32>, Vec<usize>)>,
}

/// What [`Gathered`] holds, as plain values.
pub struct GatheredView {
    pub maps: TensorMaps,
    pub patch: Option<(Seq<u32>, Seq<usize>)>,
}

/// The numbers and the shape of a tensor, as plain values.
pub open spec fn patch_view(p: Option<(Vec<u32>, Vec<usize>)>) -> Option<(Seq<u32>, Seq<usize>)> {
    match p {
        Some((data, shape)) => Some((data@, shape@)),
        None => None,
    }
}

impl View for Gathered {
    type V = GatheredView;

    open spec fn view(&self) -> GatheredView {
        GatheredView { maps: self.tables@, patch: patch_view(self.patch) }
    }
}

/// Nothing gathered.
pub open spec fn nothing() -> GatheredView {
    GatheredView {
        maps: TensorMaps { matrices: Map::empty(), vectors: Map::empty() },
        patch: None,
    }
}

/// What is gathered with one more tensor: a tensor of rank two is a matrix, one
/// of rank one a vector, and one of rank four under `patch_key` the patch
/// tensor; any other is left out.
pub open spec fn with_tensor(g: GatheredView, t: Decoded, patch_key: Option<Seq<char>>) -> Result<
    GatheredView,
    Fault,
> {
    match t.numbers {
        Err(e) => Err(Fault::Parse(e@)),
        Ok(numbers) => if t.shape@.len() == 4 && patch_key == Some(t.key@) {
            Ok(GatheredView { maps: g.maps, patch: Some((numbers@, t.shape@)) })
        } else if t.shape@.len() == 2 {
            match shape_fault(seq![t.shape@[0], t.shape@[1]], numbers@.len()) {
                Some(e) => Err(Fault::Parse(e)),
                None => Ok(
                    GatheredView {
                        maps: TensorMaps {
                            matrices: g.maps.matrices.insert(
                                t.key@,
                                Grid {
                                    rows: t.shape@[0] as nat,
                                    cols: t.shape@[1] as nat,
                                    data: numbers@,
                                },
                            ),
                            vectors: g.maps.vectors,
                        },
                        patch: g.patch,
                    },
                ),
            }
        } else if t.shape@.len() == 1 {
            Ok(
                GatheredView {
                    maps: TensorMaps {
                        matrices: g.maps.matrices,
                        vectors: g.maps.vectors.insert(t.key@, numbers@),
                    },
                    patch: g.patch,
                },
            )
        } else {
            Ok(g)
        },
    }
}

/// What is gathered of the first `n` tensors.
pub open spec fn gathered(ts: Seq<Decoded>, patch_key: Option<Seq<char>>, n: nat) -> Result<
    GatheredView,
    Fault,
>
    decreases n,
{
    if n == 0 {
        Ok(nothing())
    } else {
        match gathered(ts, patch_key, (n - 1) as nat) {
            Ok(g) => with_tensor(g, ts[n - 1], patch_key),
            Err(e) => Err(e),
        }
    }
}

/// Gathering that has failed keeps failing with the same error.
proof fn gathered_keeps_failing(
    ts: Seq<Decoded>,
    patch_key: Option<Seq<char>>,
    n: nat,
    m: nat,
)
    requires
        n <= m,
        gathered(ts, patch_key, n) is Err,
    ensures
        gathered(ts, patch_key, m) == gathered(ts, patch_key, n),
    decreases m,
{
    if n < m {
        gathered_keeps_failing(ts, patch_key, n, (m - 1) as nat);
    }
}

/// Gathering fails with a parse error.
pub proof fn gathering_fault_is_parse(ts: Seq<Decoded>, patch_key: Option<Seq<char>>, n: nat)
    ensures
        gathered(ts, patch_key, n) matches Err(e) ==> e is Parse,
    decreases n,
{
    if n > 0 {
        gathering_fault_is_parse(ts, patch_key, (n - 1) as nat);
    }
}

impl Gathered {
    /// The tables are sound.
    pub open spec fn wf(&self) -> bool {
        self.tables.wf()
    }

    /// Whether nothing was gathered.
    pub fn is_empty(&self) -> (r: bool)
        requires
            self.wf(),
        ensures
            r == (self@ == nothing()),
    {
        let r = self.tables.matrices.len() == 0 && self.tables.vectors.len() == 0
            && self.patch.is_none();
        proof {
            if r {
                assert(self@.maps.matrices =~= Map::<Seq<char>, Grid>::empty());
                assert(self@.maps.vectors =~= Map::<Seq<char>, Seq<u32>>::empty());
            } else if self@ == nothing() {
                if self.tables.matrices.entries@.len() > 0 {
                    self.tables.matrices.entry_in_map(0);
                    let k = self.tables.matrices.entries@[0].key@;
                    assert(grids(self.tables.matrices@).dom().contains(k));
                }
                if self.tables.vectors.entries@.len() > 0 {
                    self.tables.vectors.entry_in_map(0);
                    let k = self.tables.vectors.entries@[0].key@;
                    assert(rows_of(self.tables.vectors@).dom().contains(k));
                }
            }
        }
        r
    }

    /// Adds a tensor.
    fn store(&mut self, t: &Decoded, patch_key: Option<&str>) -> (r: Result<(), ModelError>)
        requires
            old(self).wf(),
        ensures
            final(self).wf(),
            match r {
                Ok(_) => with_tensor(old(self)@, *t, key_view(patch_key)) == Ok::<
                    GatheredView,
                    Fault,
                >(final(self)@),
                Err(e) => with_tensor(old(self)@, *t, key_view(patch_key)) == Err::<
                    GatheredView,
                    Fault,
                >(e@),
            },
    {
        let numbers = match &t.numbers {
            Ok(v) => vstd::slice::slice_to_vec(v.as_slice()),
            Err(e) => {
                return Err(ModelError::Parse(e.clone()));
            },
        };
        let ghost data = numbers@;
        let is_patch = match patch_key {
            Some(k) => t.shape.len() == 4 && same(t.key.as_str(), k),
            None => false,
        };
        if is_patch {
            let shape = vstd::slice::slice_to_vec(t.shape.as_slice());
            self.patch = Some((numbers, shape));
        } else if t.shape.len() == 2 {
            match Matrix::from_shape_vec(t.shape[0], t.shape[1], numbers) {
                Ok(m) => {
                    let ghost before = self.tables.matrices@;
                    let ghost grid = m@;
                    self.tables.matrices.insert(t.key.clone(), m);
                    assert(grids(self.tables.matrices@) =~= grids(before).insert(t.key@, grid));
                },
                Err(e) => {
                    return Err(ModelError::Parse(e));
                },
            }
        } else if t.shape.len() == 1 {
            let ghost before = self.tables.vectors@;
            self.tables.vectors.insert(t.key.clone(), numbers);
            assert(rows_of(self.tables.vectors@) =~= rows_of(before).insert(t.key@, data));
        }
        Ok(())
    }
}

/// The matrix has the tensor's two extents, rows first, and its numbers.
pub open spec fn is_matrix_of(t: Decoded, g: Grid) -> bool {
    &&& t.shape@.len() == 2
    &&& g.rows == t.shape@[0]
    &&& g.cols == t.shape@[1]
    &&& t.numbers matches Ok(v) && g.data == v@
}

/// The vector has the tensor's one extent and its numbers.
pub open spec fn is_vector_of(t: Decoded, x: Seq<u32>) -> bool {
    t.shape@.len() == 1 && (t.numbers matches Ok(v) && x == v@)
}

/// No tensor behind `i` has the same key.
pub open spec fn last_of_key(ts: Seq<Decoded>, i: int) -> bool {
    forall|j: int| i < j < ts.len() ==> (#[trigger] ts[j]).key@ != ts[i].key@
}

/// What is gathered under a key is the last tensor with that key: a matrix for
/// one of rank two, a vector for one of rank one, and the patch tensor for one
/// of rank four under the patch key.
pub proof fn gathered_under_key(
    ts: Seq<Decoded>,
    patch_key: Option<Seq<char>>,
    n: nat,
    i: int,
    g: GatheredView,
)
    requires
        0 <= i < n <= ts.len(),
        forall|j: int| i < j < n ==> (#[trigger] ts[j]).key@ != ts[i].key@,
        gathered(ts, patch_key, n) == Ok::<GatheredView, Fault>(g),
    ensures
        ts[i].shape@.len() == 2 ==> g.maps.matrices.dom().contains(ts[i].key@) && is_matrix_of(
            ts[i],
            g.maps.matrices[ts[i].key@],
        ),
        ts[i].shape@.len() == 1 ==> g.maps.vectors.dom().contains(ts[i].key@) && is_vector_of(
            ts[i],
            g.maps.vectors[ts[i].key@],
        ),
        ts[i].shape@.len() == 4 && patch_key == Some(ts[i].key@) ==> (g.patch matches Some(p) && p.1
            == ts[i].shape@ && (ts[i].numbers matches Ok(v) && p.0 == v@)),
    decreases n,
{
    let before = gathered(ts, patch_key, (n - 1) as nat);
    if i < n - 1 {
        gathered_under_key(ts, patch_key, (n - 1) as nat, i, before->Ok_0);
        assert(ts[n - 1].key@ != ts[i].key@);
    }
}

/// A key, as plain values.
pub open spec fn key_view(k: Option<&str>) -> Option<Seq<char>> {
    match k {
        Some(s) => Some(s@),
        None => None,
    }
}

/// Gathers tensors, in their order; later ones replace earlier ones under the
/// same key.
pub fn gather(tensors: &Vec<Decoded>, patch_key: Option<&str>) -> (r: Result<Gathered, ModelError>)
    ensures
        match r {
            Ok(g) => g.wf() && gathered(tensors@, key_view(patch_key), tensors@.len()) == Ok::<
                GatheredView,
                Fault,
            >(g@),
            Err(e) => gathered(tensors@, key_view(patch_key), tensors@.len()) == Err::<
                GatheredView,
                Fault,
            >(e@),
        },
{
    let mut out = Gathered {
        tables: Tensors { matrices: TextMap::new(), vectors: TextMap::new() },
        patch: None,
    };
    assert(out@.maps.matrices =~= Map::<Seq<char>, Grid>::empty());
    assert(out@.maps.vectors =~= Map::<Seq<char>, Seq<u32>>::empty());
    for i in 0..tensors.len()
        invariant
            out.wf(),
            gathered(tensors@, key_view(patch_key), i as nat) == Ok::<GatheredView, Fault>(out@),
    {
        match out.store(&tensors[i], patch_key) {
            Ok(_) => {},
            Err(e) => {
                proof {
                    gathered_keeps_failing(
                        tensors@,
                        key_view(patch_key),
                        (i + 1) as nat,
                        tensors@.len(),
                    );
                }
                return Err(e);
            },
        }
    }
    Ok(out)
}

/// A tensor is found under what follows the prefix of its name, as it stands in
/// the file; one whose name starts otherwise is not found.
pub proof fn found_without_prefix(m: Map<Seq<char>, RawView>, prefix: Seq<char>, rest: Seq<char>)
    ensures
        m.dom().contains(prefix + rest) ==> under_prefix(m, prefix).dom().contains(rest)
            && under_prefix(m, prefix)[rest] == m[prefix + rest],
        !m.dom().contains(prefix + rest) ==> !under_prefix(m, prefix).dom().contains(rest),
{
}

/// A file is a safetensors file if something stands before that ending.
pub proof fn safetensors_names(name: &str, stem: Seq<char>, r: bool)
    requires
        call_ensures(is_safetensors_name, (name,), r),
    ensures
        name@ == stem + ".safetensors"@ ==> r == (stem.len() > 0),
        r ==> has_suffix(name@, ".safetensors"@),
{
    let end = ".safetensors"@;
    if name@ == stem + end {
        assert(name@.subrange(name@.len() - end.len(), name@.len() as int) =~= end);
    }
}

} // verus!
