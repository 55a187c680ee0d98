//! Reading the index of a GGUF file from its bytes.
use crate::alignment::{find_zero_alignment, has_zero_alignment};
use crate::gguf::{
    metadata_model, tensors_model, GgufIndex, IndexModel, GgmlDType, MetaKind, MetaModel, MetaValue,
    TensorInfo, TensorModel,
};
use crate::table::{has_name, name_position};
use candle_core::quantized::gguf_file;
use candle_core::quantized::GgmlDType as CandleDType;
use vstd::prelude::*;

verus! {

/// The parsed index as `candle_core` holds it.
#[verifier::external_type_specification]
#[verifier::external_body]
pub struct ExIndex(candle_core::quantized::gguf_file::Content);

/// The error of `candle_core`.
#[verifier::external_type_specification]
#[verifier::external_body]
pub struct ExCandleError(candle_core::Error);

/// What `gguf_file::Content::read` finds in a file of these bytes, where it
/// accepts them.
pub uninterp spec fn gguf_content(bytes: Seq<u8>) -> Option<IndexModel>;

/// The metadata that a parsed index holds.
pub uninterp spec fn index_metadata(index: gguf_file::Content) -> Map<Seq<char>, MetaModel>;

/// The tensor descriptions that a parsed index holds.
pub uninterp spec fn index_tensors(index: gguf_file::Content) -> Map<Seq<char>, TensorModel>;

/// The data offset that a parsed index holds.
pub uninterp spec fn index_offset(index: gguf_file::Content) -> u64;

/// Calls `candle_core::quantized::gguf_file::Content::read` on the bytes. The
/// contract says that whether they are accepted, and what the index then holds,
/// depends on the bytes alone. Files whose alignment in effect is zero, by which that
/// function would divide, are left out. What an error says is not stated.
#[verifier::external_body]
fn read_index(bytes: &[u8]) -> (index: Result<gguf_file::Content, candle_core::Error>)
    requires
        !has_zero_alignment(bytes@),
    ensures
        match index {
            Ok(c) => gguf_content(bytes@) == Some(
                IndexModel {
                    metadata: index_metadata(c),
                    tensor_infos: index_tensors(c),
                    tensor_data_offset: index_offset(c),
                },
            ),
            Err(_) => gguf_content(bytes@) is None,
        },
{
    gguf_file::Content::read(&mut std::io::Cursor::new(bytes))
}

/// The text of a `candle_core::Error`, of which nothing is stated.
#[verifier::external_body]
fn error_text(error: &candle_core::Error) -> (text: String) {
    error.to_string()
}

/// Lists the metadata of a parsed `gguf_file::Content`, in no particular order.
/// The contract says that each key comes once, with its value.
#[verifier::external_body]
fn metadata_entries(index: &gguf_file::Content) -> (entries: Vec<(String, MetaValue)>)
    ensures
        metadata_model(entries@) == index_metadata(*index),
        distinct_names(entries@),
{
    index.metadata.iter().map(|(key, value)| {
        let kind = match value {
            gguf_file::Value::U32(n) => MetaKind::U32(*n),
            gguf_file::Value::F32(x) => MetaKind::F32Bits(x.to_bits()),
            gguf_file::Value::Bool(b) => MetaKind::Bool(*b),
            gguf_file::Value::String(s) => MetaKind::Text(s.clone()),
            _ => MetaKind::Other,
        };
        (key.clone(), MetaValue { kind, debug: format!("{value:?}") })
    }).collect()
}

/// Lists the tensors of a parsed `gguf_file::Content`, in no particular order.
/// The contract says that each name comes once, with its description.
#[verifier::external_body]
fn tensor_entries(index: &gguf_file::Content) -> (entries: Vec<(String, TensorInfo)>)
    ensures
        tensors_model(entries@) == index_tensors(*index),
        distinct_names(entries@),
{
    index.tensor_infos.iter().map(|(name, info)| {
        let ggml_dtype = match info.ggml_dtype {
            CandleDType::F32 => GgmlDType::F32, CandleDType::F16 => GgmlDType::F16,
            CandleDType::BF16 => GgmlDType::BF16, CandleDType::Q4_0 => GgmlDType::Q4_0,
            CandleDType::Q4_1 => GgmlDType::Q4_1, CandleDType::Q5_0 => GgmlDType::Q5_0,
            CandleDType::Q5_1 => GgmlDType::Q5_1, CandleDType::Q8_0 => GgmlDType::Q8_0,
            CandleDType::Q8_1 => GgmlDType::Q8_1, CandleDType::Q2K => GgmlDType::Q2K,
            CandleDType::Q3K => GgmlDType::Q3K, CandleDType::Q4K => GgmlDType::Q4K,
            CandleDType::Q5K => GgmlDType::Q5K, CandleDType::Q6K => GgmlDType::Q6K,
            CandleDType::Q8K => GgmlDType::Q8K,
        };
        (name.clone(), TensorInfo { ggml_dtype, dims: info.shape.dims().to_vec(), offset: info.offset })
    }).collect()
}

/// The data offset of a parsed `gguf_file::Content`.
#[verifier::external_body]
fn data_offset(index: &gguf_file::Content) -> (offset: u64)
    ensures
        offset == index_offset(*index),
{
    index.tensor_data_offset
}

/// Whether bytes are no file whose index can be read.
pub open spec fn unreadable(bytes: Seq<u8>) -> bool {
    has_zero_alignment(bytes) || gguf_content(bytes) is None
}

/// Whether a message is a reason behind `prefix`, whatever the reason says.
pub open spec fn says_behind(prefix: Seq<char>, msg: Seq<char>) -> bool {
    exists|reason: Seq<char>| msg == #[trigger] (prefix + reason)
}

/// Whether no two entries share a name.
pub open spec fn distinct_names<V>(entries: Seq<(String, V)>) -> bool {
    forall|i: int, j: int|
        0 <= i < j < entries.len() ==> (#[trigger] entries[i]).0@ != (#[trigger] entries[j]).0@
}

proof fn lemma_metadata_grows(entries: Seq<(String, MetaValue)>, m: int)
    requires
        distinct_names(entries),
        0 <= m < entries.len(),
    ensures
        metadata_model(entries.skip(m)) == metadata_model(entries.skip(m + 1)).insert(
            entries[m].0@,
            entries[m].1@,
        ),
{
    let whole = entries.skip(m);
    let rest = entries.skip(m + 1);
    let name0 = entries[m].0@;
    assert(whole[0] == entries[m]);
    assert forall|name: Seq<char>| #![auto]
        has_name(whole, name) == (name == name0 || has_name(rest, name)) by {
        if has_name(rest, name) {
            let p = name_position(rest, name);
            assert(whole[p + 1].0@ == name);
        }
        if has_name(whole, name) && name != name0 {
            let p = name_position(whole, name);
            assert(rest[p - 1].0@ == name);
        }
        if name == name0 {
            assert(whole[0].0@ == name);
        }
    }
    assert forall|name: Seq<char>| has_name(whole, name) implies #[trigger] metadata_model(whole)[name]
        == metadata_model(rest).insert(name0, entries[m].1@)[name] by {
        let p = name_position(whole, name);
        assert(whole[p] == entries[m + p]);
        if name == name0 {
            assert(p == 0);
        } else {
            assert(has_name(rest, name));
            let q = name_position(rest, name);
            assert(rest[q] == entries[m + 1 + q]);
            assert(p == q + 1);
        }
    }
    assert(metadata_model(whole) =~= metadata_model(rest).insert(name0, entries[m].1@));
}

proof fn lemma_tensors_grow(entries: Seq<(String, TensorInfo)>, m: int)
    requires
        distinct_names(entries),
        0 <= m < entries.len(),
    ensures
        tensors_model(entries.skip(m)) == tensors_model(entries.skip(m + 1)).insert(
            entries[m].0@,
            entries[m].1@,
        ),
{
    let whole = entries.skip(m);
    let rest = entries.skip(m + 1);
    let name0 = entries[m].0@;
    assert(whole[0] == entries[m]);
    assert forall|name: Seq<char>| #![auto]
        has_name(whole, name) == (name == name0 || has_name(rest, name)) by {
        if has_name(rest, name) {
            let p = name_position(rest, name);
            assert(whole[p + 1].0@ == name);
        }
        if has_name(whole, name) && name != name0 {
            let p = name_position(whole, name);
            assert(rest[p - 1].0@ == name);
        }
        if name == name0 {
            assert(whole[0].0@ == name);
        }
    }
    assert forall|name: Seq<char>| has_name(whole, name) implies #[trigger] tensors_model(whole)[name]
        == tensors_model(rest).insert(name0, entries[m].1@)[name] by {
        let p = name_position(whole, name);
        assert(whole[p] == entries[m + p]);
        if name == name0 {
            assert(p == 0);
        } else {
            assert(has_name(rest, name));
            let q = name_position(rest, name);
            assert(rest[q] == entries[m + 1 + q]);
            assert(p == q + 1);
        }
    }
    assert(tensors_model(whole) =~= tensors_model(rest).insert(name0, entries[m].1@));
}

impl GgufIndex {
    /// Brings listed metadata and tensors into name order.
    pub fn from_entries(
        metadata: Vec<(String, MetaValue)>,
        tensors: Vec<(String, TensorInfo)>,
        tensor_data_offset: u64,
    ) -> (content: GgufIndex)
        requires
            distinct_names(metadata@),
            distinct_names(tensors@),
        ensures
            content.wf(),
            content@ == (IndexModel {
                metadata: metadata_model(metadata@),
                tensor_infos: tensors_model(tensors@),
                tensor_data_offset: tensor_data_offset,
            }),
    {
        let ghost all_metadata = metadata@;
        let ghost all_tensors = tensors@;
        let mut metadata = metadata;
        let mut tensors = tensors;
        let mut content = GgufIndex::empty();
        proof {
            assert(all_metadata.skip(all_metadata.len() as int) =~= Seq::empty());
            assert(all_tensors.skip(all_tensors.len() as int) =~= Seq::empty());
            assert(metadata_model(Seq::empty()) =~= Map::empty());
            assert(tensors_model(Seq::empty()) =~= Map::empty());
            assert(all_metadata.take(all_metadata.len() as int) =~= all_metadata);
            assert(all_tensors.take(all_tensors.len() as int) =~= all_tensors);
            assert(all_metadata.skip(0) =~= all_metadata);
            assert(all_tensors.skip(0) =~= all_tensors);
        }
        while metadata.len() > 0
            invariant
                content.wf(),
                distinct_names(all_metadata),
                metadata@.len() <= all_metadata.len(),
                metadata@ == all_metadata.take(metadata@.len() as int),
                content@.metadata == metadata_model(all_metadata.skip(metadata@.len() as int)),
                content@.tensor_infos == Map::<Seq<char>, TensorModel>::empty(),
            decreases metadata@.len(),
        {
            let ghost m = metadata@.len() - 1;
            if let Some(entry) = metadata.pop() {
                proof {
                    assert(entry == all_metadata[m]);
                    lemma_metadata_grows(all_metadata, m);
                    assert(metadata@ =~= all_metadata.take(m));
                }
                content.set_meta(entry.0, entry.1);
            }
        }
        while tensors.len() > 0
            invariant
                content.wf(),
                distinct_names(all_tensors),
                tensors@.len() <= all_tensors.len(),
                tensors@ == all_tensors.take(tensors@.len() as int),
                content@.tensor_infos == tensors_model(all_tensors.skip(tensors@.len() as int)),
                content@.metadata == metadata_model(all_metadata),
            decreases tensors@.len(),
        {
            let ghost m = tensors@.len() - 1;
            if let Some(entry) = tensors.pop() {
                proof {
                    assert(entry == all_tensors[m]);
                    lemma_tensors_grow(all_tensors, m);
                    assert(tensors@ =~= all_tensors.take(m));
                }
                content.set_tensor(entry.0, entry.1);
            }
        }
        content.tensor_data_offset = tensor_data_offset;
        content
    }

    /// Reads the index of a GGUF file from its bytes. A file whose alignment in effect is
    /// zero is refused.
    pub fn read(bytes: &[u8]) -> (content: Result<GgufIndex, String>)
        ensures
            match content {
                Ok(c) => c.wf() && !has_zero_alignment(bytes@) && gguf_content(bytes@) == Some(c@),
                Err(_) => unreadable(bytes@),
            },
    {
        if find_zero_alignment(bytes) {
            return Err("gguf: alignment is zero".to_owned());
        }
        match read_index(bytes) {
            Ok(index) => {
                let metadata = metadata_entries(&index);
                let tensors = tensor_entries(&index);
                let offset = data_offset(&index);
                Ok(GgufIndex::from_entries(metadata, tensors, offset))
            },
            Err(error) => Err(error_text(&error)),
        }
    }
}

/// An index holds each of its entries under the entry's name, and nothing else.
pub proof fn law_indexes_hold_their_entries(
    metadata: Seq<(String, MetaValue)>,
    tensors: Seq<(String, TensorInfo)>,
    i: int,
    name: Seq<char>,
)
    requires
        distinct_names(metadata),
        distinct_names(tensors),
    ensures
        0 <= i < metadata.len() ==> metadata_model(metadata).dom().contains(metadata[i].0@)
            && metadata_model(metadata)[metadata[i].0@] == metadata[i].1@,
        0 <= i < tensors.len() ==> tensors_model(tensors).dom().contains(tensors[i].0@)
            && tensors_model(tensors)[tensors[i].0@] == tensors[i].1@,
        metadata_model(metadata).dom().contains(name) ==> exists|k: int|
            0 <= k < metadata.len() && (#[trigger] metadata[k]).0@ == name,
        tensors_model(tensors).dom().contains(name) ==> exists|k: int|
            0 <= k < tensors.len() && (#[trigger] tensors[k]).0@ == name,
{
    if 0 <= i < metadata.len() {
        let k = name_position(metadata, metadata[i].0@);
        assert(metadata[i].0@ == metadata[i].0@);
        assert(metadata[k].0@ == metadata[i].0@);
    }
    if 0 <= i < tensors.len() {
        let k = name_position(tensors, tensors[i].0@);
        assert(tensors[i].0@ == tensors[i].0@);
        assert(tensors[k].0@ == tensors[i].0@);
    }
}

} // verus!
