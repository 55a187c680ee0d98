//! The index of a GGUF file: its metadata and tensor descriptions, held by name.
use crate::table::NameTable;
use crate::table::{entries_map, has_name, name_position};
use vstd::prelude::*;

verus! {

/// Block formats in which GGUF tensors are stored.
#[derive(Debug, Clone, Copy, PartialEq, Eq, Structural)]
pub enum GgmlDType {
    F32,
    F16,
    BF16,
    Q4_0,
    Q4_1,
    Q5_0,
    Q5_1,
    Q8_0,
    Q8_1,
    Q2K,
    Q3K,
    Q4K,
    Q5K,
    Q6K,
    Q8K,
    IQ2XXS,
    IQ2XS,
    IQ2S,
    IQ3XXS,
    IQ3S,
    IQ4XS,
}

/// The name of a block format.
pub open spec fn dtype_text(dtype: GgmlDType) -> Seq<char> {
    match dtype {
        GgmlDType::F32 => "F32"@,
        GgmlDType::F16 => "F16"@,
        GgmlDType::BF16 => "BF16"@,
        GgmlDType::Q4_0 => "Q4_0"@,
        GgmlDType::Q4_1 => "Q4_1"@,
        GgmlDType::Q5_0 => "Q5_0"@,
        GgmlDType::Q5_1 => "Q5_1"@,
        GgmlDType::Q8_0 => "Q8_0"@,
        GgmlDType::Q8_1 => "Q8_1"@,
        GgmlDType::Q2K => "Q2K"@,
        GgmlDType::Q3K => "Q3K"@,
        GgmlDType::Q4K => "Q4K"@,
        GgmlDType::Q5K => "Q5K"@,
        GgmlDType::Q6K => "Q6K"@,
        GgmlDType::Q8K => "Q8K"@,
        GgmlDType::IQ2XXS => "IQ2XXS"@,
        GgmlDType::IQ2XS => "IQ2XS"@,
        GgmlDType::IQ2S => "IQ2S"@,
        GgmlDType::IQ3XXS => "IQ3XXS"@,
        GgmlDType::IQ3S => "IQ3S"@,
        GgmlDType::IQ4XS => "IQ4XS"@,
    }
}

/// Elements per block of a format.
pub open spec fn block_elems(dtype: GgmlDType) -> nat {
    match dtype {
        GgmlDType::F32 | GgmlDType::F16 | GgmlDType::BF16 => 1,
        GgmlDType::Q4_0
        | GgmlDType::Q4_1
        | GgmlDType::Q5_0
        | GgmlDType::Q5_1
        | GgmlDType::Q8_0
        | GgmlDType::Q8_1 => 32,
        _ => 256,
    }
}

/// Bytes per block of a format.
pub open spec fn block_bytes(dtype: GgmlDType) -> nat {
    match dtype {
        GgmlDType::F32 => 4,
        GgmlDType::F16 | GgmlDType::BF16 => 2,
        GgmlDType::Q4_0 => 18,
        GgmlDType::Q4_1 => 20,
        GgmlDType::Q5_0 => 22,
        GgmlDType::Q5_1 => 24,
        GgmlDType::Q8_0 => 34,
        GgmlDType::Q8_1 => 36,
        GgmlDType::Q2K => 84,
        GgmlDType::Q3K => 110,
        GgmlDType::Q4K => 144,
        GgmlDType::Q5K => 176,
        GgmlDType::Q6K => 210,
        GgmlDType::Q8K => 292,
        GgmlDType::IQ2XXS => 66,
        GgmlDType::IQ2XS => 74,
        GgmlDType::IQ2S => 82,
        GgmlDType::IQ3XXS => 98,
        GgmlDType::IQ3S => 110,
        GgmlDType::IQ4XS => 136,
    }
}

impl GgmlDType {
    /// The format's name.
    pub fn name(&self) -> (name: &'static str)
        ensures
            name@ == dtype_text(*self),
    {
        match self {
            GgmlDType::F32 => "F32",
            GgmlDType::F16 => "F16",
            GgmlDType::BF16 => "BF16",
            GgmlDType::Q4_0 => "Q4_0",
            GgmlDType::Q4_1 => "Q4_1",
            GgmlDType::Q5_0 => "Q5_0",
            GgmlDType::Q5_1 => "Q5_1",
            GgmlDType::Q8_0 => "Q8_0",
            GgmlDType::Q8_1 => "Q8_1",
            GgmlDType::Q2K => "Q2K",
            GgmlDType::Q3K => "Q3K",
            GgmlDType::Q4K => "Q4K",
            GgmlDType::Q5K => "Q5K",
            GgmlDType::Q6K => "Q6K",
            GgmlDType::Q8K => "Q8K",
            GgmlDType::IQ2XXS => "IQ2XXS",
            GgmlDType::IQ2XS => "IQ2XS",
            GgmlDType::IQ2S => "IQ2S",
            GgmlDType::IQ3XXS => "IQ3XXS",
            GgmlDType::IQ3S => "IQ3S",
            GgmlDType::IQ4XS => "IQ4XS",
        }
    }

    /// Elements per block.
    pub fn block_size(&self) -> (n: usize)
        ensures
            n == block_elems(*self),
            n > 0,
    {
        match self {
            GgmlDType::F32 | GgmlDType::F16 | GgmlDType::BF16 => 1,
            GgmlDType::Q4_0
            | GgmlDType::Q4_1
            | GgmlDType::Q5_0
            | GgmlDType::Q5_1
            | GgmlDType::Q8_0
            | GgmlDType::Q8_1 => 32,
            _ => 256,
        }
    }

    /// Bytes per block.
    pub fn type_size(&self) -> (n: usize)
        ensures
            n == block_bytes(*self),
            n > 0,
    {
        match self {
            GgmlDType::F32 => 4,
            GgmlDType::F16 | GgmlDType::BF16 => 2,
            GgmlDType::Q4_0 => 18,
            GgmlDType::Q4_1 => 20,
            GgmlDType::Q5_0 => 22,
            GgmlDType::Q5_1 => 24,
            GgmlDType::Q8_0 => 34,
            GgmlDType::Q8_1 => 36,
            GgmlDType::Q2K => 84,
            GgmlDType::Q3K => 110,
            GgmlDType::Q4K => 144,
            GgmlDType::Q5K => 176,
            GgmlDType::Q6K => 210,
            GgmlDType::Q8K => 292,
            GgmlDType::IQ2XXS => 66,
            GgmlDType::IQ2XS => 74,
            GgmlDType::IQ2S => 82,
            GgmlDType::IQ3XXS => 98,
            GgmlDType::IQ3S => 110,
            GgmlDType::IQ4XS => 136,
        }
    }
}

/// What a metadata value is, as far as the runtime reads it. A 32-bit float is
/// held by its bits.
#[derive(Debug)]
pub enum MetaKind {
    U32(u32),
    F32Bits(u32),
    Bool(bool),
    Text(String),
    Other,
}

/// A metadata value and its notation for debugging.
#[derive(Debug)]
pub struct MetaValue {
    pub kind: MetaKind,
    pub debug: String,
}

/// The model of a [`MetaKind`].
pub enum KindModel {
    U32(u32),
    F32Bits(u32),
    Bool(bool),
    Text(Seq<char>),
    Other,
}

/// The model of a [`MetaValue`].
pub struct MetaModel {
    pub kind: KindModel,
    pub debug: Seq<char>,
}

impl View for MetaValue {
    type V = MetaModel;

    open spec fn view(&self) -> MetaModel {
        MetaModel {
            kind: match self.kind {
                MetaKind::U32(n) => KindModel::U32(n),
                MetaKind::F32Bits(n) => KindModel::F32Bits(n),
                MetaKind::Bool(b) => KindModel::Bool(b),
                MetaKind::Text(s) => KindModel::Text(s@),
                MetaKind::Other => KindModel::Other,
            },
            debug: self.debug@,
        }
    }
}

impl MetaModel {
    /// The value as a 32-bit unsigned integer.
    pub open spec fn as_u32(self) -> Option<u32> {
        match self.kind {
            KindModel::U32(n) => Some(n),
            _ => None,
        }
    }

    /// The bits of the value as a 32-bit float.
    pub open spec fn as_float_bits(self) -> Option<u32> {
        match self.kind {
            KindModel::F32Bits(n) => Some(n),
            _ => None,
        }
    }

    /// The value as a truth value.
    pub open spec fn as_bool(self) -> Option<bool> {
        match self.kind {
            KindModel::Bool(b) => Some(b),
            _ => None,
        }
    }

    /// The value as text.
    pub open spec fn as_text(self) -> Option<Seq<char>> {
        match self.kind {
            KindModel::Text(s) => Some(s),
            _ => None,
        }
    }
}

impl MetaValue {
    /// The value, where it is a 32-bit unsigned integer.
    pub fn to_u32(&self) -> (n: Option<u32>)
        ensures
            n == self@.as_u32(),
    {
        match &self.kind {
            MetaKind::U32(n) => Some(*n),
            _ => None,
        }
    }

    /// The bits of the value, where it is a 32-bit float.
    pub fn to_float_bits(&self) -> (n: Option<u32>)
        ensures
            n == self@.as_float_bits(),
    {
        match &self.kind {
            MetaKind::F32Bits(n) => Some(*n),
            _ => None,
        }
    }

    /// The value, where it is a truth value.
    pub fn to_bool(&self) -> (b: Option<bool>)
        ensures
            b == self@.as_bool(),
    {
        match &self.kind {
            MetaKind::Bool(b) => Some(*b),
            _ => None,
        }
    }

    /// The value, where it is text.
    pub fn to_text(&self) -> (s: Option<&str>)
        ensures
            match s {
                Some(text) => self@.as_text() == Some(text@),
                None => self@.as_text() is None,
            },
    {
        match &self.kind {
            MetaKind::Text(s) => Some(s.as_str()),
            _ => None,
        }
    }
}

/// Where a tensor lies in the file and how it is stored.
#[derive(Debug)]
pub struct TensorInfo {
    pub ggml_dtype: GgmlDType,
    pub dims: Vec<usize>,
    pub offset: u64,
}

/// The model of a [`TensorInfo`].
pub struct TensorModel {
    pub ggml_dtype: GgmlDType,
    pub dims: Seq<usize>,
    pub offset: u64,
}

impl View for TensorInfo {
    type V = TensorModel;

    open spec fn view(&self) -> TensorModel {
        TensorModel { ggml_dtype: self.ggml_dtype, dims: self.dims@, offset: self.offset }
    }
}

/// The index of a GGUF file.
#[derive(Debug)]
pub struct GgufIndex {
    pub metadata: NameTable<MetaValue>,
    pub tensor_infos: NameTable<TensorInfo>,
    pub tensor_data_offset: u64,
}

/// The model of a [`GgufIndex`].
pub struct IndexModel {
    pub metadata: Map<Seq<char>, MetaModel>,
    pub tensor_infos: Map<Seq<char>, TensorModel>,
    pub tensor_data_offset: u64,
}

/// The metadata of `entries`, by name.
pub open spec fn metadata_model(entries: Seq<(String, MetaValue)>) -> Map<Seq<char>, MetaModel> {
    Map::new(
        |name: Seq<char>| has_name(entries, name),
        |name: Seq<char>| entries[name_position(entries, name)].1@,
    )
}

/// The tensors of `entries`, by name.
pub open spec fn tensors_model(entries: Seq<(String, TensorInfo)>) -> Map<Seq<char>, TensorModel> {
    Map::new(
        |name: Seq<char>| has_name(entries, name),
        |name: Seq<char>| entries[name_position(entries, name)].1@,
    )
}

impl View for GgufIndex {
    type V = IndexModel;

    open spec fn view(&self) -> IndexModel {
        IndexModel {
            metadata: metadata_model(self.metadata.entries@),
            tensor_infos: tensors_model(self.tensor_infos.entries@),
            tensor_data_offset: self.tensor_data_offset,
        }
    }
}

impl GgufIndex {
    /// Both tables are in order.
    pub open spec fn wf(&self) -> bool {
        self.metadata.wf() && self.tensor_infos.wf()
    }

    /// An index without metadata or tensors.
    pub fn empty() -> (index: Self)
        ensures
            index.wf(),
            index@.metadata == Map::<Seq<char>, MetaModel>::empty(),
            index@.tensor_infos == Map::<Seq<char>, TensorModel>::empty(),
            index@.tensor_data_offset == 0,
    {
        let index = GgufIndex {
            metadata: NameTable::new(),
            tensor_infos: NameTable::new(),
            tensor_data_offset: 0,
        };
        proof {
            assert(index.metadata@.dom() =~= Set::empty());
            assert(index.tensor_infos@.dom() =~= Set::empty());
            assert forall|name: Seq<char>| !has_name(index.metadata.entries@, name) by {
                assert(!index.metadata@.dom().contains(name));
            }
            assert forall|name: Seq<char>| !has_name(index.tensor_infos.entries@, name) by {
                assert(!index.tensor_infos@.dom().contains(name));
            }
            assert(index@.metadata =~= Map::<Seq<char>, MetaModel>::empty());
            assert(index@.tensor_infos =~= Map::<Seq<char>, TensorModel>::empty());
        }
        index
    }

    /// The metadata value under `key`.
    pub fn meta(&self, key: &str) -> (value: Option<&MetaValue>)
        requires
            self.wf(),
        ensures
            match value {
                Some(v) => self@.metadata.dom().contains(key@) && v@ == self@.metadata[key@],
                None => !self@.metadata.dom().contains(key@),
            },
    {
        self.metadata.get(key)
    }

    /// The description of the tensor called `name`.
    pub fn tensor(&self, name: &str) -> (info: Option<&TensorInfo>)
        requires
            self.wf(),
        ensures
            match info {
                Some(t) => self@.tensor_infos.dom().contains(name@) && t@
                    == self@.tensor_infos[name@],
                None => !self@.tensor_infos.dom().contains(name@),
            },
    {
        self.tensor_infos.get(name)
    }

    /// Sets a metadata value.
    pub fn set_meta(&mut self, key: String, value: MetaValue)
        requires
            old(self).wf(),
        ensures
            final(self).wf(),
            final(self)@ == (IndexModel {
                metadata: old(self)@.metadata.insert(key@, value@),
                ..old(self)@
            }),
    {
        let ghost before = self.metadata@;
        let ghost before_model = self@;
        self.metadata.insert(key, value);
        proof {
            lemma_metadata_model(self.metadata.entries@);
            lemma_metadata_model(old(self).metadata.entries@);
            assert(self@.metadata =~= before_model.metadata.insert(key@, value@));
        }
    }

    /// Sets the description of a tensor.
    pub fn set_tensor(&mut self, name: String, info: TensorInfo)
        requires
            old(self).wf(),
        ensures
            final(self).wf(),
            final(self)@ == (IndexModel {
                tensor_infos: old(self)@.tensor_infos.insert(name@, info@),
                ..old(self)@
            }),
    {
        let ghost before_model = self@;
        self.tensor_infos.insert(name, info);
        proof {
            lemma_tensors_model(self.tensor_infos.entries@);
            lemma_tensors_model(old(self).tensor_infos.entries@);
            assert(self@.tensor_infos =~= before_model.tensor_infos.insert(name@, info@));
        }
    }
}

/// The metadata model is the entries' map, value by value.
proof fn lemma_metadata_model(entries: Seq<(String, MetaValue)>)
    ensures
        metadata_model(entries) == entries_map(entries).map_values(|v: MetaValue| v@),
{
    assert(metadata_model(entries) =~= entries_map(entries).map_values(|v: MetaValue| v@));
}

/// The tensor model is the entries' map, value by value.
proof fn lemma_tensors_model(entries: Seq<(String, TensorInfo)>)
    ensures
        tensors_model(entries) == entries_map(entries).map_values(|v: TensorInfo| v@),
{
    assert(tensors_model(entries) =~= entries_map(entries).map_values(|v: TensorInfo| v@));
}

/// Formats are told apart by their names.
pub proof fn law_formats_have_their_own_names(a: GgmlDType, b: GgmlDType)
    requires
        dtype_text(a) == dtype_text(b),
    ensures
        a == b,
{
    reveal_strlit("F32");
    reveal_strlit("F16");
    reveal_strlit("BF16");
    reveal_strlit("Q4_0");
    reveal_strlit("Q4_1");
    reveal_strlit("Q5_0");
    reveal_strlit("Q5_1");
    reveal_strlit("Q8_0");
    reveal_strlit("Q8_1");
    reveal_strlit("Q2K");
    reveal_strlit("Q3K");
    reveal_strlit("Q4K");
    reveal_strlit("Q5K");
    reveal_strlit("Q6K");
    reveal_strlit("Q8K");
    reveal_strlit("IQ2XXS");
    reveal_strlit("IQ2XS");
    reveal_strlit("IQ2S");
    reveal_strlit("IQ3XXS");
    reveal_strlit("IQ3S");
    reveal_strlit("IQ4XS");
    let x = dtype_text(a);
    let y = dtype_text(b);
    assert(x.len() == y.len());
    assert(x.len() >= 3);
    assert(x[0] == y[0] && x[1] == y[1] && x[2] == y[2]);
    if x.len() > 3 {
        assert(x[3] == y[3]);
    }
    if x.len() > 4 {
        assert(x[4] == y[4]);
    }
    if x.len() > 5 {
        assert(x[5] == y[5]);
    }
}

/// How many bits each element takes in its block's codes, and how many bytes of scales,
/// signs and other data the block has besides. Some formats code elements together, and
/// their bits are counted for eight elements.
pub open spec fn block_parts(dtype: GgmlDType) -> (nat, nat) {
    match dtype {
        GgmlDType::F32 => (256, 0),
        GgmlDType::F16 | GgmlDType::BF16 => (128, 0),
        GgmlDType::Q4_0 => (32, 2),
        GgmlDType::Q4_1 => (32, 2 + 2),
        GgmlDType::Q5_0 => (32 + 8, 2),
        GgmlDType::Q5_1 => (32 + 8, 2 + 2),
        GgmlDType::Q8_0 => (64, 2),
        GgmlDType::Q8_1 => (64, 2 + 2),
        GgmlDType::Q2K => (16, 16 + 2 + 2),
        GgmlDType::Q3K => (16 + 8, 12 + 2),
        GgmlDType::Q4K => (32, 12 + 2 + 2),
        GgmlDType::Q5K => (32 + 8, 12 + 2 + 2),
        GgmlDType::Q6K => (32 + 16, 16 + 2),
        GgmlDType::Q8K => (64, 32 + 4),
        GgmlDType::IQ2XXS => (16, 2),
        GgmlDType::IQ2XS => (16, 8 + 2),
        GgmlDType::IQ2S => (16 + 2, 8 + 2),
        GgmlDType::IQ3XXS => (16 + 8, 2),
        GgmlDType::IQ3S => (16 + 2 + 8, 4 + 2),
        GgmlDType::IQ4XS => (32, 4 + 2 + 2),
    }
}

/// A block's bytes are the codes of its elements and what it has besides.
pub proof fn law_blocks_hold_their_parts(dtype: GgmlDType)
    ensures
        64 * block_bytes(dtype) == block_elems(dtype) * block_parts(dtype).0 + 64 * block_parts(
            dtype,
        ).1,
        block_elems(dtype) == 1 <==> dtype == GgmlDType::F32 || dtype == GgmlDType::F16 || dtype
            == GgmlDType::BF16,
        block_elems(dtype) == 1 ==> 8 * block_bytes(dtype) == block_parts(dtype).0 / 8,
{
    let n = block_elems(dtype);
    let bits = block_parts(dtype).0;
    assert(n * bits == if n == 1 {
        bits
    } else if n == 32 {
        32 * bits
    } else {
        256 * bits
    }) by (nonlinear_arith)
        requires
            n == 1 || n == 32 || n == 256,
    ;
}

} // verus!
