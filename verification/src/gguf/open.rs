//! Opening a model out of a directory: one file, or all files of a split.
//!
//! A directory is a table from file names to the files' bytes.
use vstd::prelude::*;

use crate::error::{Fault, ModelError};
use crate::gguf::parser::{header_of, infos_wf, meta, Header};
use crate::gguf::shards::{
    is_split_name, read_shard_name, shard_among_siblings, shard_fields, shard_file_name,
    shard_name,
};
use crate::gguf::types::{
    datum_u32, descs, shard_list, Datum, GgufFile, GgufTensorInfo, GgufValue, ShardInfo,
    TensorDesc,
};
use crate::path::{join_path, joined_path};
use crate::table::TextMap;
use crate::text::{concat, concat3, decimal, decimal_string, same, texts};

verus! {

/// The bytes of each file of a directory.
pub open spec fn contents(m: Map<Seq<char>, &[u8]>) -> Map<Seq<char>, Seq<u8>> {
    m.map_values(|b: &[u8]| b@)
}

/// No file is longer than a slice can be.
pub open spec fn files_fit(m: Map<Seq<char>, &[u8]>) -> bool {
    forall|k: Seq<char>| #[trigger] m.dom().contains(k) ==> m[k]@.len() <= isize::MAX
}

/// The 32-bit number that the metadata gives under `key`.
pub open spec fn meta_u32(m: Map<Seq<char>, Datum>, key: Seq<char>) -> Option<int> {
    if m.dom().contains(key) {
        datum_u32(m[key])
    } else {
        None
    }
}

/// Looks up a 32-bit number in the metadata.
pub fn metadata_u32(m: &TextMap<GgufValue>, key: &str) -> (r: Option<u32>)
    requires
        m.wf(),
    ensures
        match r {
            Some(n) => meta_u32(meta(m@), key@) == Some(n as int),
            None => meta_u32(meta(m@), key@) is None,
        },
{
    match m.get(key) {
        Some(v) => v.as_u32(),
        None => None,
    }
}

/// How many files the model is split over: what the metadata says, or else
/// what the file's name says.  Nothing where the file stands alone.
pub open spec fn split_total(m: Map<Seq<char>, Datum>, name: Seq<char>) -> Option<nat> {
    let declared = match meta_u32(m, "split.count"@) {
        Some(n) => n,
        None => 0,
    };
    if declared > 1 {
        Some(declared as nat)
    } else {
        match shard_fields(name) {
            Some(f) => if f.total > 1 {
                Some(f.total)
            } else {
                None
            },
            None => None,
        }
    }
}

/// The names of all files of the split that `name` belongs to, in order.
pub open spec fn sibling_names(
    parent: Seq<char>,
    name: Seq<char>,
    total: nat,
) -> Result<Seq<Seq<char>>, Fault> {
    match shard_fields(name) {
        None => Err(
            Fault::Parse(
                "multi-shard GGUF without canonical -NNNNN-of-NNNNN filename: "@ + joined_path(
                    parent,
                    name,
                ),
            ),
        ),
        Some(f) => if f.total != total {
            Err(
                Fault::Parse(
                    "shard total mismatch: split.count="@ + decimal(total)
                        + " but filename says of-"@ + decimal(f.total),
                ),
            )
        } else {
            Ok(Seq::new(total, |i: int| shard_name(f.prefix, (i + 1) as nat, total, f.width)))
        },
    }
}

/// The first name at or after `i` that the directory lacks.
pub open spec fn first_missing(
    names: Seq<Seq<char>>,
    dir: Set<Seq<char>>,
    i: int,
) -> Option<int>
    decreases names.len() - i,
{
    if i < 0 || i >= names.len() {
        None
    } else if !dir.contains(names[i]) {
        Some(i)
    } else {
        first_missing(names, dir, i + 1)
    }
}

/// The names of all files of the split, if the directory has them all.
pub open spec fn siblings_of(
    parent: Seq<char>,
    name: Seq<char>,
    total: nat,
    dir: Set<Seq<char>>,
) -> Result<Seq<Seq<char>>, Fault> {
    match sibling_names(parent, name, total) {
        Err(e) => Err(e),
        Ok(names) => match first_missing(names, dir, 0) {
            None => Ok(names),
            Some(i) => Err(
                Fault::Parse(
                    "multi-shard GGUF missing expected sibling: "@ + joined_path(parent, names[i])
                        + " (looking for shard "@ + decimal((i + 1) as nat) + " of "@ + decimal(
                        total,
                    ) + ")"@,
                ),
            ),
        },
    }
}

/// The names of all files of the split that `name` belongs to, in order: there
/// are `expected_total` of them.  Fails if the name is not a split file's, if
/// it speaks of another total, or if the directory lacks one of the files.
fn find_siblings(
    parent: &str,
    name: &str,
    expected_total: usize,
    dir: &TextMap<&[u8]>,
) -> (res: Result<Vec<String>, ModelError>)
    requires
        dir.wf(),
    ensures
        match res {
            Ok(v) => siblings_of(parent@, name@, expected_total as nat, dir@.dom()) == Ok::<
                Seq<Seq<char>>,
                Fault,
            >(texts(v@)) && v@.len() == expected_total && forall|i: int|
                0 <= i < v@.len() ==> dir@.dom().contains((#[trigger] v@[i])@),
            Err(e) => siblings_of(parent@, name@, expected_total as nat, dir@.dom()) == Err::<
                Seq<Seq<char>>,
                Fault,
            >(e@),
        },
{
    let file = match read_shard_name(name) {
        Some(f) => f,
        None => {
            let path = join_path(parent, name);
            return Err(
                ModelError::Parse(
                    concat(
                        "multi-shard GGUF without canonical -NNNNN-of-NNNNN filename: ",
                        path.as_str(),
                    ),
                ),
            );
        },
    };
    if file.total != expected_total {
        let want = decimal_string(expected_total as u64);
        let found = decimal_string(file.total as u64);
        let head = concat3(
            "shard total mismatch: split.count=",
            want.as_str(),
            " but filename says of-",
        );
        return Err(ModelError::Parse(concat(head.as_str(), found.as_str())));
    }
    let ghost total = expected_total as nat;
    let ghost names = Seq::new(
        total,
        |i: int| shard_name(file.prefix@, (i + 1) as nat, total, file.width as nat),
    );
    let mut out: Vec<String> = Vec::new();
    let mut i: usize = 0;
    assert(texts(out@) =~= names.take(0));
    while i < expected_total
        invariant
            0 <= i <= expected_total,
            total == expected_total,
            file.total == expected_total,
            dir.wf(),
            sibling_names(parent@, name@, total) == Ok::<Seq<Seq<char>>, Fault>(names),
            names.len() == total,
            forall|k: int|
                0 <= k < total ==> #[trigger] names[k] == shard_name(
                    file.prefix@,
                    (k + 1) as nat,
                    total,
                    file.width as nat,
                ),
            out@.len() == i,
            texts(out@) == names.take(i as int),
            first_missing(names, dir@.dom(), 0) == first_missing(names, dir@.dom(), i as int),
            forall|k: int| 0 <= k < i ==> dir@.dom().contains((#[trigger] out@[k])@),
        decreases expected_total - i,
    {
        let fname = shard_file_name(file.prefix.as_str(), i + 1, expected_total, file.width);
        assert(fname@ == names[i as int]);
        if !dir.contains_key(fname.as_str()) {
            let path = join_path(parent, fname.as_str());
            let number = decimal_string((i + 1) as u64);
            let count = decimal_string(expected_total as u64);
            let head = concat3(
                "multi-shard GGUF missing expected sibling: ",
                path.as_str(),
                " (looking for shard ",
            );
            let body = concat3(head.as_str(), number.as_str(), " of ");
            return Err(ModelError::Parse(concat3(body.as_str(), count.as_str(), ")")));
        }
        let ghost before = out@;
        let ghost text = fname@;
        out.push(fname);
        assert(texts(out@) =~= texts(before).push(text));
        i += 1;
        assert(texts(out@) =~= names.take(i as int));
    }
    assert(names.take(total as int) =~= names);
    Ok(out)
}

/// The paths of the files `names` in the directory `parent`.
pub open spec fn paths_of(parent: Seq<char>, names: Seq<Seq<char>>) -> Seq<Seq<char>> {
    names.map_values(|name: Seq<char>| joined_path(parent, name))
}

/// The paths of all files of the split that `name` belongs to, in order: there
/// are `expected_total` of them.  Fails if the name is not a split file's, if
/// it speaks of another total, or if the directory lacks one of the files.
pub fn discover_shard_siblings(
    parent: &str,
    name: &str,
    expected_total: usize,
    dir: &TextMap<&[u8]>,
) -> (res: Result<Vec<String>, ModelError>)
    requires
        dir.wf(),
    ensures
        match siblings_of(parent@, name@, expected_total as nat, dir@.dom()) {
            Ok(names) => res matches Ok(v) && texts(v@) == paths_of(parent@, names) && v@.len()
                == expected_total,
            Err(e) => res matches Err(f) && f@ == e,
        },
{
    let names = match find_siblings(parent, name, expected_total, dir) {
        Ok(v) => v,
        Err(e) => return Err(e),
    };
    let mut paths: Vec<String> = Vec::new();
    for i in 0..names.len()
        invariant
            paths@.len() == i,
            forall|k: int|
                0 <= k < i ==> (#[trigger] paths@[k])@ == joined_path(parent@, names@[k]@),
    {
        paths.push(join_path(parent, names[i].as_str()));
    }
    assert(texts(paths@) =~= paths_of(parent@, texts(names@)));
    Ok(paths)
}

/// The file that was named is one of its split's files: the one at its own
/// number.
pub proof fn siblings_hold_the_file(
    parent: Seq<char>,
    name: Seq<char>,
    total: nat,
    dir: Set<Seq<char>>,
)
    requires
        siblings_of(parent, name, total, dir) is Ok,
    ensures
        shard_fields(name) matches Some(f) && f.index < total && siblings_of(
            parent,
            name,
            total,
            dir,
        )->Ok_0[f.index as int] == name,
{
    assert(is_split_name(name));
    shard_among_siblings(name);
}

/// The description `t` in file `k` of the split.
pub open spec fn in_file(t: TensorDesc, k: nat) -> TensorDesc {
    TensorDesc { shard_idx: k, ..t }
}

/// The descriptions `ts` in file `k` of the split.
pub open spec fn all_placed(ts: Seq<TensorDesc>, k: nat) -> Seq<TensorDesc> {
    ts.map_values(|t: TensorDesc| in_file(t, k))
}

/// The tensors of the first `k` files, each with its file's number, and the
/// paths and data offsets of these files.
pub open spec fn gathered(
    parent: Seq<char>,
    names: Seq<Seq<char>>,
    files: Map<Seq<char>, Seq<u8>>,
    k: nat,
) -> Result<(Seq<TensorDesc>, Seq<(Seq<char>, u64)>), Fault>
    decreases k,
{
    if k == 0 {
        Ok((Seq::empty(), Seq::empty()))
    } else {
        match gathered(parent, names, files, (k - 1) as nat) {
            Err(e) => Err(e),
            Ok((tensors, shards)) => match header_of(files[names[k - 1]]) {
                Err(e) => Err(e),
                Ok(h) => Ok(
                    (
                        tensors + all_placed(h.tensors, (k - 1) as nat),
                        shards.push((joined_path(parent, names[k - 1]), h.data_offset as u64)),
                    ),
                ),
            },
        }
    }
}

/// What an opened model says.
pub struct Model {
    pub metadata: Map<Seq<char>, Datum>,
    pub tensors: Seq<TensorDesc>,
    pub data_offset: int,
    pub path: Seq<char>,
    pub shards: Seq<(Seq<char>, u64)>,
}

/// The model that the file `name` of the directory belongs to.
pub open spec fn model_of(
    parent: Seq<char>,
    name: Seq<char>,
    files: Map<Seq<char>, Seq<u8>>,
) -> Result<Model, Fault> {
    let path = joined_path(parent, name);
    if !files.dom().contains(name) {
        Err(Fault::Io)
    } else {
        match header_of(files[name]) {
            Err(e) => Err(e),
            Ok(h) => match split_total(h.metadata, name) {
                None => Ok(
                    Model {
                        metadata: h.metadata,
                        tensors: h.tensors,
                        data_offset: h.data_offset,
                        path,
                        shards: seq![(path, h.data_offset as u64)],
                    },
                ),
                Some(total) => match siblings_of(parent, name, total, files.dom()) {
                    Err(e) => Err(e),
                    Ok(names) => split_model(parent, path, h, names, total, files),
                },
            },
        }
    }
}

/// The model whose opened file has the header `h` and whose files are `names`.
pub open spec fn split_model(
    parent: Seq<char>,
    path: Seq<char>,
    h: Header,
    names: Seq<Seq<char>>,
    total: nat,
    files: Map<Seq<char>, Seq<u8>>,
) -> Result<Model, Fault> {
    match gathered(parent, names, files, total) {
        Err(e) => Err(e),
        Ok((tensors, shards)) => {
            let model = Model {
                metadata: h.metadata,
                tensors,
                data_offset: shards[0].1 as int,
                path,
                shards,
            };
            match meta_u32(h.metadata, "split.tensors.count"@) {
                None => Ok(model),
                Some(expected) => if tensors.len() == expected {
                    Ok(model)
                } else {
                    Err(
                        Fault::Parse(
                            "multi-shard tensor count mismatch: combined "@ + decimal(total)
                                + " shards yielded "@ + decimal(tensors.len())
                                + " tensors, but split.tensors.count = "@ + decimal(
                                expected as nat,
                            ),
                        ),
                    )
                },
            }
        },
    }
}

/// Every gathered tensor lies in one of the files that were gone through.
pub proof fn gathered_tensors_placed(
    parent: Seq<char>,
    names: Seq<Seq<char>>,
    files: Map<Seq<char>, Seq<u8>>,
    k: nat,
    i: int,
)
    requires
        gathered(parent, names, files, k) is Ok,
        0 <= i < gathered(parent, names, files, k)->Ok_0.0.len(),
    ensures
        gathered(parent, names, files, k)->Ok_0.0[i].shard_idx < k,
        gathered(parent, names, files, k)->Ok_0.1.len() == k,
    decreases k,
{
    if k > 0 {
        let before = gathered(parent, names, files, (k - 1) as nat)->Ok_0.0;
        gathered_shards_counted(parent, names, files, k);
        if i < before.len() {
            gathered_tensors_placed(parent, names, files, (k - 1) as nat, i);
        }
    }
}

/// There is one path and data offset for each file that was gone through.
proof fn gathered_shards_counted(
    parent: Seq<char>,
    names: Seq<Seq<char>>,
    files: Map<Seq<char>, Seq<u8>>,
    k: nat,
)
    requires
        gathered(parent, names, files, k) is Ok,
    ensures
        gathered(parent, names, files, k)->Ok_0.1.len() == k,
    decreases k,
{
    if k > 0 {
        gathered_shards_counted(parent, names, files, (k - 1) as nat);
    }
}

/// Once the first `k` files fail, so do the first `n`.
proof fn gathered_keeps_failing(
    parent: Seq<char>,
    names: Seq<Seq<char>>,
    files: Map<Seq<char>, Seq<u8>>,
    k: nat,
    n: nat,
)
    requires
        k <= n,
        gathered(parent, names, files, k) is Err,
    ensures
        gathered(parent, names, files, n) == gathered(parent, names, files, k),
    decreases n,
{
    if k < n {
        gathered_keeps_failing(parent, names, files, k, (n - 1) as nat);
    }
}

/// A copy of a description, put in file `k`.
fn placed_info(info: &GgufTensorInfo, k: usize) -> (r: GgufTensorInfo)
    requires
        info.dims@.len() == info.n_dims,
    ensures
        r@ == in_file(info@, k as nat),
        r.dims@.len() == r.n_dims,
{
    GgufTensorInfo {
        name: info.name.clone(),
        n_dims: info.n_dims,
        dims: vstd::slice::slice_to_vec(info.dims.as_slice()),
        tensor_type: info.tensor_type,
        offset: info.offset,
        shard_idx: k,
    }
}

/// Every tensor lies in one of the first `k` files.
pub open spec fn below_file(v: Seq<GgufTensorInfo>, k: int) -> bool {
    forall|i: int| 0 <= i < v.len() ==> (#[trigger] v[i]).shard_idx < k
}

/// Adds copies of `infos`, put in file `k`, to `out`.
fn add_infos(out: &mut Vec<GgufTensorInfo>, infos: &Vec<GgufTensorInfo>, k: usize)
    requires
        infos_wf(infos@),
        infos_wf(old(out)@),
        below_file(old(out)@, k as int),
    ensures
        infos_wf(final(out)@),
        below_file(final(out)@, k + 1),
        descs(final(out)@) == descs(old(out)@) + all_placed(descs(infos@), k as nat),
{
    let ghost start = out@;
    let mut i: usize = 0;
    assert(descs(out@) =~= descs(start) + all_placed(descs(infos@), k as nat).take(0));
    while i < infos.len()
        invariant
            0 <= i <= infos.len(),
            infos_wf(infos@),
            infos_wf(out@),
            below_file(out@, k + 1),
            descs(out@) == descs(start) + all_placed(descs(infos@), k as nat).take(i as int),
        decreases infos.len() - i,
    {
        let ghost before = out@;
        let info = placed_info(&infos[i], k);
        let ghost view = info@;
        out.push(info);
        i += 1;
        assert(descs(out@) =~= descs(before).push(view));
        assert(all_placed(descs(infos@), k as nat).take(i as int) =~= all_placed(
            descs(infos@),
            k as nat,
        ).take(i - 1).push(view));
        assert(descs(out@) =~= descs(start) + all_placed(descs(infos@), k as nat).take(i as int));
    }
    assert(all_placed(descs(infos@), k as nat).take(i as int) =~= all_placed(
        descs(infos@),
        k as nat,
    ));
}

/// The number of files that a model is split over.
fn count_shards(metadata: &TextMap<GgufValue>, name: &str) -> (r: Option<usize>)
    requires
        metadata.wf(),
    ensures
        match r {
            Some(n) => split_total(meta(metadata@), name@) == Some(n as nat),
            None => split_total(meta(metadata@), name@) is None,
        },
{
    let declared: u32 = match metadata_u32(metadata, "split.count") {
        Some(n) => n,
        None => 0,
    };
    if declared > 1 {
        return Some(declared as usize);
    }
    match read_shard_name(name) {
        Some(f) => if f.total > 1 {
            Some(f.total)
        } else {
            None
        },
        None => None,
    }
}

/// The header of the file that was opened.
pub open spec fn header_view(f: &GgufFile) -> Header {
    Header {
        metadata: meta(f.metadata@),
        tensors: descs(f.tensor_infos@),
        data_offset: f.data_offset as int,
    }
}

/// What an opened file says.
pub open spec fn model_view(f: &GgufFile) -> Model {
    Model {
        metadata: meta(f.metadata@),
        tensors: descs(f.tensor_infos@),
        data_offset: f.data_offset as int,
        path: f.path@,
        shards: shard_list(f.shards@),
    }
}

impl GgufFile {
    /// Opens the model that the file `name` belongs to.  A file that stands
    /// alone gives its own header.  A file of a split gives the tensors of all
    /// files in the order of the files, each tensor with its file's number,
    /// under the metadata of the file that was named; the data offset is that
    /// of the first file.
    pub fn open(parent: &str, name: &str, dir: &TextMap<&[u8]>) -> (res: Result<
        GgufFile,
        ModelError,
    >)
        requires
            dir.wf(),
            files_fit(dir@),
        ensures
            match res {
                Ok(f) => {
                    &&& f.wf()
                    &&& model_of(parent@, name@, contents(dir@)) == Ok::<Model, Fault>(
                        model_view(&f),
                    )
                    &&& f.shards@.len() > 0
                    &&& f.data_offset == f.shards@[0].data_offset
                    &&& f.path@ == joined_path(parent@, name@)
                },
                Err(e) => model_of(parent@, name@, contents(dir@)) == Err::<Model, Fault>(e@),
            },
    {
        let bytes: &[u8] = match dir.get(name) {
            Some(b) => *b,
            None => return Err(ModelError::Io),
        };
        let path = join_path(parent, name);
        let first = match GgufFile::open_single(path.as_str(), bytes) {
            Ok(f) => f,
            Err(e) => return Err(e),
        };
        assert(contents(dir@).dom() =~= dir@.dom());
        assert(shard_list(first.shards@).len() == first.shards@.len());
        assert(shard_list(first.shards@)[0] == (
            first.shards@[0].path@,
            first.shards@[0].data_offset,
        ));
        let total = match count_shards(&first.metadata, name) {
            Some(n) => n,
            None => return Ok(first),
        };
        let names = match find_siblings(parent, name, total, dir) {
            Ok(v) => v,
            Err(e) => return Err(e),
        };
        GgufFile::open_split(parent, name, dir, first, names)
    }

    /// Gathers the tensors of all files of a split, and where the files' data
    /// sections start.
    fn gather(parent: &str, name: &str, dir: &TextMap<&[u8]>, first: &GgufFile, names: &Vec<String>) -> (res:
        Result<(Vec<GgufTensorInfo>, Vec<ShardInfo>), ModelError>)
        requires
            dir.wf(),
            files_fit(dir@),
            first.wf(),
            dir@.dom().contains(name@),
            header_of(dir@[name@]@) == Ok::<Header, Fault>(header_view(first)),
            forall|i: int|
                0 <= i < names@.len() ==> dir@.dom().contains((#[trigger] names@[i])@),
        ensures
            match res {
                Ok((infos, shards)) => infos_wf(infos@) && below_file(infos@, names@.len() as int)
                    && shards@.len() == names@.len() && gathered(
                    parent@,
                    texts(names@),
                    contents(dir@),
                    names@.len(),
                ) == Ok::<(Seq<TensorDesc>, Seq<(Seq<char>, u64)>), Fault>(
                    (descs(infos@), shard_list(shards@)),
                ),
                Err(e) => gathered(parent@, texts(names@), contents(dir@), names@.len()) == Err::<
                    (Seq<TensorDesc>, Seq<(Seq<char>, u64)>),
                    Fault,
                >(e@),
            },
    {
        let ghost all = texts(names@);
        let ghost files = contents(dir@);
        let mut infos: Vec<GgufTensorInfo> = Vec::new();
        let mut shards: Vec<ShardInfo> = Vec::new();
        let mut i: usize = 0;
        assert(descs(infos@) =~= Seq::empty());
        assert(shard_list(shards@) =~= Seq::empty());
        while i < names.len()
            invariant
                0 <= i <= names.len(),
                all == texts(names@),
                files == contents(dir@),
                dir.wf(),
                files_fit(dir@),
                first.wf(),
                dir@.dom().contains(name@),
                header_of(dir@[name@]@) == Ok::<Header, Fault>(header_view(first)),
                forall|k: int|
                    0 <= k < names@.len() ==> dir@.dom().contains((#[trigger] names@[k])@),
                infos_wf(infos@),
                below_file(infos@, i as int),
                shards@.len() == i,
                gathered(parent@, all, files, i as nat) == Ok::<
                    (Seq<TensorDesc>, Seq<(Seq<char>, u64)>),
                    Fault,
                >((descs(infos@), shard_list(shards@))),
            decreases names.len() - i,
        {
            let fname = names[i].as_str();
            let ghost before = shards@;
            assert(all[i as int] == fname@);
            assert(dir@.dom().contains(names@[i as int]@));
            let path = join_path(parent, fname);
            if same(fname, name) {
                add_infos(&mut infos, &first.tensor_infos, i);
                shards.push(ShardInfo { path, data_offset: first.data_offset });
            } else {
                let bytes: &[u8] = match dir.get(fname) {
                    Some(b) => *b,
                    None => return Err(ModelError::Io),
                };
                let other = match GgufFile::open_single(path.as_str(), bytes) {
                    Ok(f) => f,
                    Err(e) => {
                        proof {
                            gathered_keeps_failing(
                                parent@,
                                all,
                                files,
                                (i + 1) as nat,
                                names@.len(),
                            );
                        }
                        return Err(e);
                    },
                };
                add_infos(&mut infos, &other.tensor_infos, i);
                shards.push(ShardInfo { path, data_offset: other.data_offset });
            }
            assert(shard_list(shards@) =~= shard_list(before).push(
                (path@, shards@[i as int].data_offset),
            ));
            i += 1;
        }
        Ok((infos, shards))
    }

    /// Gathers the tensors of all files of a split under the header of the
    /// file that was opened.
    fn open_split(
        parent: &str,
        name: &str,
        dir: &TextMap<&[u8]>,
        first: GgufFile,
        names: Vec<String>,
    ) -> (res: Result<GgufFile, ModelError>)
        requires
            dir.wf(),
            files_fit(dir@),
            first.wf(),
            dir@.dom().contains(name@),
            header_of(dir@[name@]@) == Ok::<Header, Fault>(header_view(&first)),
            first.path@ == joined_path(parent@, name@),
            names@.len() > 0,
            forall|i: int|
                0 <= i < names@.len() ==> dir@.dom().contains((#[trigger] names@[i])@),
        ensures
            ({
                let h = header_of(dir@[name@]@)->Ok_0;
                let want = split_model(
                    parent@,
                    first.path@,
                    h,
                    texts(names@),
                    names@.len(),
                    contents(dir@),
                );
                match res {
                    Ok(f) => {
                        &&& f.wf()
                        &&& want == Ok::<Model, Fault>(model_view(&f))
                        &&& f.shards@.len() > 0
                        &&& f.data_offset == f.shards@[0].data_offset
                        &&& f.path@ == first.path@
                    },
                    Err(e) => want == Err::<Model, Fault>(e@),
                }
            }),
    {
        let (infos, shards) = match GgufFile::gather(parent, name, dir, &first, &names) {
            Ok(x) => x,
            Err(e) => return Err(e),
        };
        if let Some(expected) = metadata_u32(&first.metadata, "split.tensors.count") {
            if infos.len() != expected as usize {
                let a = decimal_string(names.len() as u64);
                let b = decimal_string(infos.len() as u64);
                let c = decimal_string(expected as u64);
                let head = concat3(
                    "multi-shard tensor count mismatch: combined ",
                    a.as_str(),
                    " shards yielded ",
                );
                let body = concat3(
                    head.as_str(),
                    b.as_str(),
                    " tensors, but split.tensors.count = ",
                );
                return Err(ModelError::Parse(concat(body.as_str(), c.as_str())));
            }
        }
        assert(shard_list(shards@)[0] == (shards@[0].path@, shards@[0].data_offset));
        let data_offset: u64 = shards[0].data_offset;
        Ok(
            GgufFile {
                metadata: first.metadata,
                tensor_infos: infos,
                data_offset,
                path: first.path,
                shards,
            },
        )
    }
}

} // verus!
