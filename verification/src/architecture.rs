//! Which architecture a GGUF index declares, and the fingerprint of a model.
use crate::gguf::{dtype_text, GgmlDType, GgufIndex, MetaModel, TensorInfo, TensorModel};
use crate::table::NameTable;
use crate::table::same_text;
use crate::text::{hex, push_hex};
use crate::validation::concat2;
use std::collections::hash_map::DefaultHasher;
use std::hash::Hasher;
use vstd::prelude::*;

verus! {

/// Runtime architecture selection.
#[derive(Debug, Clone, Copy, PartialEq, Eq, Structural)]
pub enum Architecture {
    /// Dense Qwen3.5/Qwen3.6 hybrid DeltaNet/attention trunk (`general.architecture=qwen35`).
    DenseQwen35,
    /// MoE Qwen3.6 35B-A3B (`general.architecture=qwen35moe`).
    Qwen35Moe,
}

/// The prefix of an architecture's metadata keys.
pub open spec fn prefix_text(arch: Architecture) -> Seq<char> {
    match arch {
        Architecture::DenseQwen35 => "qwen35"@,
        Architecture::Qwen35Moe => "qwen35moe"@,
    }
}

/// The architecture that the metadata declares, or why there is none.
pub open spec fn declared_architecture(md: Map<Seq<char>, MetaModel>) -> Result<
    Architecture,
    Seq<char>,
> {
    if !md.dom().contains("general.architecture"@) {
        Err("missing general.architecture"@)
    } else {
        match md["general.architecture"@].as_text() {
            None => Err("general.architecture not a string"@),
            Some(text) => if text == "qwen35"@ {
                Ok(Architecture::DenseQwen35)
            } else if text == "qwen35moe"@ {
                Ok(Architecture::Qwen35Moe)
            } else {
                Err(
                    "unsupported architecture: '"@ + text
                        + "' — supported: qwen35, qwen35moe"@,
                )
            },
        }
    }
}

impl Architecture {
    /// Reads the architecture from the `general.architecture` metadata value.
    pub fn from_metadata(index: &GgufIndex) -> (arch: Result<Self, String>)
        requires
            index.wf(),
        ensures
            match arch {
                Ok(a) => declared_architecture(index@.metadata) == Ok::<Architecture, Seq<char>>(a),
                Err(msg) => declared_architecture(index@.metadata) == Err::<
                    Architecture,
                    Seq<char>,
                >(msg@),
            },
    {
        match index.meta("general.architecture") {
            None => Err("missing general.architecture".to_owned()),
            Some(value) => match value.to_text() {
                None => Err("general.architecture not a string".to_owned()),
                Some(text) => {
                    if same_text(text, "qwen35") {
                        Ok(Architecture::DenseQwen35)
                    } else if same_text(text, "qwen35moe") {
                        Ok(Architecture::Qwen35Moe)
                    } else {
                        let mut msg = concat2("unsupported architecture: '", text);
                        msg.append("' — supported: qwen35, qwen35moe");
                        Err(msg)
                    }
                },
            },
        }
    }

    /// The prefix of the architecture's metadata keys.
    pub fn metadata_prefix(&self) -> (prefix: &'static str)
        ensures
            prefix@ == prefix_text(*self),
    {
        match self {
            Architecture::DenseQwen35 => "qwen35",
            Architecture::Qwen35Moe => "qwen35moe",
        }
    }
}

/// Stable fingerprint of architecture metadata and tensor manifest. It does not
/// depend on where the file lies.
#[derive(Debug)]
pub struct ModelFingerprint {
    pub hash: String,
}

/// A tensor as the fingerprint sees it.
pub struct ManifestEntry {
    pub name: Seq<char>,
    pub dtype: GgmlDType,
    pub dims: Seq<usize>,
}

/// The tensors of a table in name order.
pub open spec fn manifest(entries: Seq<(String, TensorInfo)>) -> Seq<ManifestEntry> {
    Seq::new(
        entries.len(),
        |i: int|
            ManifestEntry {
                name: entries[i].0@,
                dtype: entries[i].1@.ggml_dtype,
                dims: entries[i].1@.dims,
            },
    )
}

/// The bytes of a text and the byte that ends it.
pub open spec fn text_writes(text: Seq<char>) -> Seq<Seq<u8>> {
    seq![vstd::utf8::encode_utf8(text), seq![255u8]]
}

/// The eight bytes of a number, lowest first.
pub open spec fn number_bytes(n: nat) -> Seq<u8> {
    Seq::new(8, |i: int| ((n / byte_weight(i)) % 256) as u8)
}

/// The weight of the byte at position `i`.
pub open spec fn byte_weight(i: int) -> nat {
    if i == 0 {
        1
    } else if i == 1 {
        0x100
    } else if i == 2 {
        0x10000
    } else if i == 3 {
        0x1000000
    } else if i == 4 {
        0x100000000
    } else if i == 5 {
        0x10000000000
    } else if i == 6 {
        0x1000000000000
    } else {
        0x100000000000000
    }
}

/// The bytes of `numbers`, one after the other.
pub open spec fn numbers_bytes(numbers: Seq<usize>) -> Seq<u8>
    decreases numbers.len(),
{
    if numbers.len() == 0 {
        Seq::empty()
    } else {
        numbers_bytes(numbers.drop_last()) + number_bytes(numbers.last() as nat)
    }
}

/// What a metadata key adds to the hashed data: itself and its value, where it
/// is there.
pub open spec fn meta_writes(md: Map<Seq<char>, MetaModel>, key: Seq<char>) -> Seq<Seq<u8>> {
    if md.dom().contains(key) {
        text_writes(key) + text_writes(md[key].debug)
    } else {
        Seq::empty()
    }
}

/// What a tensor adds to the hashed data.
pub open spec fn tensor_writes(entry: ManifestEntry) -> Seq<Seq<u8>> {
    text_writes(entry.name) + text_writes(dtype_text(entry.dtype)) + seq![
        number_bytes(entry.dims.len()),
        numbers_bytes(entry.dims),
    ]
}

/// What the tensors of a manifest add to the hashed data.
pub open spec fn manifest_writes(entries: Seq<ManifestEntry>) -> Seq<Seq<u8>>
    decreases entries.len(),
{
    if entries.len() == 0 {
        Seq::empty()
    } else {
        manifest_writes(entries.drop_last()) + tensor_writes(entries.last())
    }
}

/// What the keys of the mixture-of-experts architecture add to the hashed data.
pub open spec fn expert_writes(arch: Architecture, md: Map<Seq<char>, MetaModel>) -> Seq<Seq<u8>> {
    match arch {
        Architecture::Qwen35Moe => meta_writes(md, "qwen35moe.expert_count"@) + meta_writes(
            md,
            "qwen35moe.expert_used_count"@,
        ) + meta_writes(md, "qwen35moe.shared_expert_count"@),
        Architecture::DenseQwen35 => Seq::empty(),
    }
}

/// All data that the fingerprint hashes.
pub open spec fn fingerprint_writes(
    arch: Architecture,
    md: Map<Seq<char>, MetaModel>,
    tensors: Seq<ManifestEntry>,
    file_size: u64,
) -> Seq<Seq<u8>> {
    let p = prefix_text(arch);
    text_writes(p) + meta_writes(md, "general.architecture"@) + meta_writes(
        md,
        "general.file_type"@,
    ) + meta_writes(md, "general.name"@) + meta_writes(md, "tokenizer.ggml.model"@) + meta_writes(
        md,
        p + ".block_count"@,
    ) + meta_writes(md, p + ".context_length"@) + meta_writes(md, p + ".embedding_length"@)
        + meta_writes(md, p + ".feed_forward_length"@) + meta_writes(
        md,
        p + ".attention.head_count"@,
    ) + meta_writes(md, p + ".attention.head_count_kv"@) + meta_writes(
        md,
        p + ".attention.key_length"@,
    ) + meta_writes(md, p + ".attention.value_length"@) + expert_writes(arch, md) + manifest_writes(
        tensors,
    ) + seq![number_bytes(file_size as nat)]
}

/// The fingerprint's text.
pub open spec fn fingerprint_text(
    arch: Architecture,
    md: Map<Seq<char>, MetaModel>,
    tensors: Seq<ManifestEntry>,
    file_size: u64,
) -> Seq<char> {
    "qwen35-profile-"@ + hex(
        <DefaultHasher as vstd::std_specs::hash::DefaultHasherAdditionalSpecFns>::spec_finish(
            fingerprint_writes(arch, md, tensors, file_size),
        ) as nat,
        16,
    )
}

fn hash_text(h: &mut DefaultHasher, text: &str)
    ensures
        final(h)@ == old(h)@ + text_writes(text@),
{
    h.write(text.as_bytes());
    let end: Vec<u8> = vec![255];
    h.write(end.as_slice());
    assert(end@ =~= seq![255u8]);
    assert(h@ =~= old(h)@ + text_writes(text@));
}

fn push_number(bytes: &mut Vec<u8>, n: u64)
    ensures
        final(bytes)@ == old(bytes)@ + number_bytes(n as nat),
{
    bytes.push((n % 256) as u8);
    bytes.push(((n / 0x100) % 256) as u8);
    bytes.push(((n / 0x10000) % 256) as u8);
    bytes.push(((n / 0x1000000) % 256) as u8);
    bytes.push(((n / 0x100000000) % 256) as u8);
    bytes.push(((n / 0x10000000000) % 256) as u8);
    bytes.push(((n / 0x1000000000000) % 256) as u8);
    bytes.push(((n / 0x100000000000000) % 256) as u8);
    assert(bytes@ =~= old(bytes)@ + number_bytes(n as nat));
}

fn hash_number(h: &mut DefaultHasher, n: u64)
    ensures
        final(h)@ == old(h)@ + seq![number_bytes(n as nat)],
{
    let mut bytes: Vec<u8> = Vec::new();
    push_number(&mut bytes, n);
    assert(bytes@ =~= number_bytes(n as nat));
    h.write(bytes.as_slice());
    assert(h@ =~= old(h)@ + seq![number_bytes(n as nat)]);
}

fn hash_dims(h: &mut DefaultHasher, dims: &Vec<usize>)
    ensures
        final(h)@ == old(h)@ + seq![number_bytes(dims@.len()), numbers_bytes(dims@)],
{
    hash_number(h, dims.len() as u64);
    let mut bytes: Vec<u8> = Vec::new();
    let mut i: usize = 0;
    while i < dims.len()
        invariant
            i <= dims@.len(),
            bytes@ == numbers_bytes(dims@.take(i as int)),
        decreases dims@.len() - i,
    {
        push_number(&mut bytes, dims[i] as u64);
        proof {
            assert(dims@.take(i + 1).drop_last() =~= dims@.take(i as int));
        }
        i += 1;
    }
    assert(dims@.take(dims@.len() as int) =~= dims@);
    h.write(bytes.as_slice());
    assert(h@ =~= old(h)@ + seq![number_bytes(dims@.len()), numbers_bytes(dims@)]);
}

fn hash_meta(h: &mut DefaultHasher, index: &GgufIndex, key: &str)
    requires
        index.wf(),
    ensures
        final(h)@ == old(h)@ + meta_writes(index@.metadata, key@),
{
    if let Some(value) = index.meta(key) {
        hash_text(h, key);
        hash_text(h, value.debug.as_str());
    }
    assert(h@ =~= old(h)@ + meta_writes(index@.metadata, key@));
}

fn hash_prefixed(h: &mut DefaultHasher, index: &GgufIndex, prefix: &str, suffix: &str)
    requires
        index.wf(),
    ensures
        final(h)@ == old(h)@ + meta_writes(index@.metadata, prefix@ + suffix@),
{
    let key = concat2(prefix, suffix);
    hash_meta(h, index, key.as_str());
}

fn hash_manifest(h: &mut DefaultHasher, tensors: &NameTable<TensorInfo>)
    ensures
        final(h)@ == old(h)@ + manifest_writes(manifest(tensors.entries@)),
{
    let ghost all = manifest(tensors.entries@);
    let mut i: usize = 0;
    assert(h@ =~= old(h)@ + manifest_writes(all.take(0)));
    while i < tensors.entries.len()
        invariant
            i <= tensors.entries@.len(),
            all == manifest(tensors.entries@),
            h@ == old(h)@ + manifest_writes(all.take(i as int)),
        decreases tensors.entries@.len() - i,
    {
        let entry = &tensors.entries[i];
        hash_text(h, entry.0.as_str());
        hash_text(h, entry.1.ggml_dtype.name());
        hash_dims(h, &entry.1.dims);
        proof {
            assert(all.take(i + 1).drop_last() =~= all.take(i as int));
            assert(all.take(i + 1).last() == all[i as int]);
            assert(h@ =~= old(h)@ + manifest_writes(all.take(i + 1)));
        }
        i += 1;
    }
    assert(all.take(all.len() as int) =~= all);
}

impl ModelFingerprint {
    /// Hashes the architecture, its metadata, the tensor manifest and the file's size.
    pub fn compute(arch: Architecture, index: &GgufIndex, file_size: u64) -> (fingerprint: Self)
        requires
            index.wf(),
        ensures
            fingerprint.hash@ == fingerprint_text(
                arch,
                index@.metadata,
                manifest(index.tensor_infos.entries@),
                file_size,
            ),
    {
        let mut h = DefaultHasher::new();
        let prefix = arch.metadata_prefix();
        let ghost md = index@.metadata;
        hash_text(&mut h, prefix);
        assert(h@ =~= text_writes(prefix@));
        hash_meta(&mut h, index, "general.architecture");
        hash_meta(&mut h, index, "general.file_type");
        hash_meta(&mut h, index, "general.name");
        hash_meta(&mut h, index, "tokenizer.ggml.model");
        hash_prefixed(&mut h, index, prefix, ".block_count");
        hash_prefixed(&mut h, index, prefix, ".context_length");
        hash_prefixed(&mut h, index, prefix, ".embedding_length");
        hash_prefixed(&mut h, index, prefix, ".feed_forward_length");
        hash_prefixed(&mut h, index, prefix, ".attention.head_count");
        hash_prefixed(&mut h, index, prefix, ".attention.head_count_kv");
        hash_prefixed(&mut h, index, prefix, ".attention.key_length");
        hash_prefixed(&mut h, index, prefix, ".attention.value_length");
        let ghost before = h@;
        match arch {
            Architecture::Qwen35Moe => {
                hash_meta(&mut h, index, "qwen35moe.expert_count");
                hash_meta(&mut h, index, "qwen35moe.expert_used_count");
                hash_meta(&mut h, index, "qwen35moe.shared_expert_count");
            },
            Architecture::DenseQwen35 => {},
        }
        assert(h@ =~= before + expert_writes(arch, md));
        hash_manifest(&mut h, &index.tensor_infos);
        hash_number(&mut h, file_size);
        let mut hash = "qwen35-profile-".to_owned();
        push_hex(&mut hash, h.finish(), 16);
        ModelFingerprint { hash }
    }
}

/// Whether the fingerprint covers a metadata key.
pub open spec fn fingerprinted(arch: Architecture, key: Seq<char>) -> bool {
    let p = prefix_text(arch);
    ||| key == "general.architecture"@
    ||| key == "general.file_type"@
    ||| key == "general.name"@
    ||| key == "tokenizer.ggml.model"@
    ||| key == p + ".block_count"@
    ||| key == p + ".context_length"@
    ||| key == p + ".embedding_length"@
    ||| key == p + ".feed_forward_length"@
    ||| key == p + ".attention.head_count"@
    ||| key == p + ".attention.head_count_kv"@
    ||| key == p + ".attention.key_length"@
    ||| key == p + ".attention.value_length"@
    ||| arch == Architecture::Qwen35Moe && {
        ||| key == "qwen35moe.expert_count"@
        ||| key == "qwen35moe.expert_used_count"@
        ||| key == "qwen35moe.shared_expert_count"@
    }
}

/// Whether two files say the same under every key that the fingerprint covers.
pub open spec fn metadata_agrees(
    arch: Architecture,
    a: Map<Seq<char>, MetaModel>,
    b: Map<Seq<char>, MetaModel>,
) -> bool {
    forall|key: Seq<char>| #[trigger]
        fingerprinted(arch, key) ==> {
            &&& a.dom().contains(key) == b.dom().contains(key)
            &&& a.dom().contains(key) ==> a[key].debug == b[key].debug
        }
}

/// Whether two files have tensors of the same names, formats and sizes.
pub open spec fn manifests_agree(
    a: Map<Seq<char>, TensorModel>,
    b: Map<Seq<char>, TensorModel>,
) -> bool {
    &&& a.dom() == b.dom()
    &&& forall|name: Seq<char>| #[trigger]
        a.dom().contains(name) ==> a[name].ggml_dtype == b[name].ggml_dtype && a[name].dims
            == b[name].dims
}

proof fn lemma_same_writes(
    arch: Architecture,
    a: Map<Seq<char>, MetaModel>,
    b: Map<Seq<char>, MetaModel>,
    key: Seq<char>,
)
    requires
        metadata_agrees(arch, a, b),
        fingerprinted(arch, key),
    ensures
        meta_writes(a, key) == meta_writes(b, key),
{
}

/// The fingerprint is reproducible: it depends on the architecture, its metadata, the
/// tensors' names, formats and sizes, and the file's size alone. Other metadata, where
/// the tensors lie and how the index came about play no part.
pub proof fn law_fingerprint_reproducible(
    arch: Architecture,
    a: GgufIndex,
    b: GgufIndex,
    file_size: u64,
)
    requires
        a.wf(),
        b.wf(),
        metadata_agrees(arch, a@.metadata, b@.metadata),
        manifests_agree(a@.tensor_infos, b@.tensor_infos),
    ensures
        fingerprint_text(arch, a@.metadata, manifest(a.tensor_infos.entries@), file_size)
            == fingerprint_text(arch, b@.metadata, manifest(b.tensor_infos.entries@), file_size),
{
    let left = a.tensor_infos.entries@;
    let right = b.tensor_infos.entries@;
    crate::table::lemma_same_names(left, right, |name: Seq<char>| a@.tensor_infos.dom().contains(name));
    assert forall|i: int| 0 <= i < left.len() implies #[trigger] manifest(left)[i] == manifest(right)[i] by {
        crate::table::lemma_entry_position(left, i);
        crate::table::lemma_entry_position(right, i);
        let name = left[i].0@;
        assert(a@.tensor_infos.dom().contains(name));
        assert(a@.tensor_infos[name] == left[i].1@);
        assert(b@.tensor_infos[name] == right[i].1@);
    }
    assert(manifest(left) =~= manifest(right));
    let p = prefix_text(arch);
    let x = a@.metadata;
    let y = b@.metadata;
    lemma_same_writes(arch, x, y, "general.architecture"@);
    lemma_same_writes(arch, x, y, "general.file_type"@);
    lemma_same_writes(arch, x, y, "general.name"@);
    lemma_same_writes(arch, x, y, "tokenizer.ggml.model"@);
    lemma_same_writes(arch, x, y, p + ".block_count"@);
    lemma_same_writes(arch, x, y, p + ".context_length"@);
    lemma_same_writes(arch, x, y, p + ".embedding_length"@);
    lemma_same_writes(arch, x, y, p + ".feed_forward_length"@);
    lemma_same_writes(arch, x, y, p + ".attention.head_count"@);
    lemma_same_writes(arch, x, y, p + ".attention.head_count_kv"@);
    lemma_same_writes(arch, x, y, p + ".attention.key_length"@);
    lemma_same_writes(arch, x, y, p + ".attention.value_length"@);
    if arch == Architecture::Qwen35Moe {
        lemma_same_writes(arch, x, y, "qwen35moe.expert_count"@);
        lemma_same_writes(arch, x, y, "qwen35moe.expert_used_count"@);
        lemma_same_writes(arch, x, y, "qwen35moe.shared_expert_count"@);
    }
}

/// The eight bytes of a number are its digits in base 256, the lowest first.
pub proof fn law_number_bytes_are_little_endian(n: u64)
    ensures
        number_bytes(n as nat).len() == 8,
        n == number_bytes(n as nat)[0] + 0x100 * number_bytes(n as nat)[1] + 0x10000 * number_bytes(
            n as nat,
        )[2] + 0x1000000 * number_bytes(n as nat)[3] + 0x100000000 * number_bytes(n as nat)[4]
            + 0x10000000000 * number_bytes(n as nat)[5] + 0x1000000000000 * number_bytes(
            n as nat,
        )[6] + 0x100000000000000 * number_bytes(n as nat)[7],
{
    let m = n as nat;
    let a = m / 0x100;
    let b = m / 0x10000;
    let c = m / 0x1000000;
    let d = m / 0x100000000;
    let e = m / 0x10000000000;
    let f = m / 0x1000000000000;
    let g = m / 0x100000000000000;
    assert(b == a / 256 && c == b / 256 && d == c / 256 && e == d / 256 && f == e / 256 && g == f
        / 256);
    assert(g < 256);
}

/// Whether a key's name and value stand in a list of writes, one behind the other.
#[verifier::opaque]
pub open spec fn writes_key(all: Seq<Seq<u8>>, name: Seq<char>, value: Seq<char>) -> bool {
    exists|i: int|
        0 <= i && i + 3 < all.len() && #[trigger] all[i] == vstd::utf8::encode_utf8(name) && all[i
            + 1] == seq![255u8] && all[i + 2] == vstd::utf8::encode_utf8(value) && all[i + 3]
            == seq![255u8]
}

proof fn lemma_key_step(
    before: Seq<Seq<u8>>,
    md: Map<Seq<char>, MetaModel>,
    next: Seq<char>,
    key: Seq<char>,
)
    requires
        md.dom().contains(key),
        next == key || writes_key(before, key, md[key].debug),
    ensures
        writes_key(before + meta_writes(md, next), key, md[key].debug),
{
    reveal(writes_key);
    let all = before + meta_writes(md, next);
    if next == key {
        let i = before.len() as int;
        assert(all[i] == vstd::utf8::encode_utf8(key));
        assert(all[i + 1] == seq![255u8]);
        assert(all[i + 2] == vstd::utf8::encode_utf8(md[key].debug));
        assert(all[i + 3] == seq![255u8]);
    } else {
        lemma_key_kept(before, meta_writes(md, next), key, md[key].debug);
    }
}

proof fn lemma_key_kept(
    before: Seq<Seq<u8>>,
    more: Seq<Seq<u8>>,
    name: Seq<char>,
    value: Seq<char>,
)
    requires
        writes_key(before, name, value),
    ensures
        writes_key(before + more, name, value),
{
    reveal(writes_key);
    let i = choose|i: int|
        0 <= i && i + 3 < before.len() && #[trigger] before[i] == vstd::utf8::encode_utf8(name)
            && before[i + 1] == seq![255u8] && before[i + 2] == vstd::utf8::encode_utf8(value)
            && before[i + 3] == seq![255u8];
    let all = before + more;
    assert(all[i] == before[i]);
    assert(all[i + 1] == before[i + 1]);
    assert(all[i + 2] == before[i + 2]);
    assert(all[i + 3] == before[i + 3]);
}

/// The fingerprint covers every key that it should: where the file has one, its name and
/// its value are hashed, one behind the other.
pub proof fn law_fingerprint_covers_its_keys(
    arch: Architecture,
    md: Map<Seq<char>, MetaModel>,
    tensors: Seq<ManifestEntry>,
    file_size: u64,
    key: Seq<char>,
)
    requires
        fingerprinted(arch, key),
        md.dom().contains(key),
    ensures
        writes_key(fingerprint_writes(arch, md, tensors, file_size), key, md[key].debug),
{
    let p = prefix_text(arch);
    let s0 = text_writes(p);
    let s1 = s0 + meta_writes(md, "general.architecture"@);
    if key == "general.architecture"@ || writes_key(s0, key, md[key].debug) {
        lemma_key_step(s0, md, "general.architecture"@, key);
    }
    let s2 = s1 + meta_writes(md, "general.file_type"@);
    if key == "general.file_type"@ || writes_key(s1, key, md[key].debug) {
        lemma_key_step(s1, md, "general.file_type"@, key);
    }
    let s3 = s2 + meta_writes(md, "general.name"@);
    if key == "general.name"@ || writes_key(s2, key, md[key].debug) {
        lemma_key_step(s2, md, "general.name"@, key);
    }
    let s4 = s3 + meta_writes(md, "tokenizer.ggml.model"@);
    if key == "tokenizer.ggml.model"@ || writes_key(s3, key, md[key].debug) {
        lemma_key_step(s3, md, "tokenizer.ggml.model"@, key);
    }
    let s5 = s4 + meta_writes(md, p + ".block_count"@);
    if key == p + ".block_count"@ || writes_key(s4, key, md[key].debug) {
        lemma_key_step(s4, md, p + ".block_count"@, key);
    }
    let s6 = s5 + meta_writes(md, p + ".context_length"@);
    if key == p + ".context_length"@ || writes_key(s5, key, md[key].debug) {
        lemma_key_step(s5, md, p + ".context_length"@, key);
    }
    let s7 = s6 + meta_writes(md, p + ".embedding_length"@);
    if key == p + ".embedding_length"@ || writes_key(s6, key, md[key].debug) {
        lemma_key_step(s6, md, p + ".embedding_length"@, key);
    }
    let s8 = s7 + meta_writes(md, p + ".feed_forward_length"@);
    if key == p + ".feed_forward_length"@ || writes_key(s7, key, md[key].debug) {
        lemma_key_step(s7, md, p + ".feed_forward_length"@, key);
    }
    let s9 = s8 + meta_writes(md, p + ".attention.head_count"@);
    if key == p + ".attention.head_count"@ || writes_key(s8, key, md[key].debug) {
        lemma_key_step(s8, md, p + ".attention.head_count"@, key);
    }
    let s10 = s9 + meta_writes(md, p + ".attention.head_count_kv"@);
    if key == p + ".attention.head_count_kv"@ || writes_key(s9, key, md[key].debug) {
        lemma_key_step(s9, md, p + ".attention.head_count_kv"@, key);
    }
    let s11 = s10 + meta_writes(md, p + ".attention.key_length"@);
    if key == p + ".attention.key_length"@ || writes_key(s10, key, md[key].debug) {
        lemma_key_step(s10, md, p + ".attention.key_length"@, key);
    }
    let s12 = s11 + meta_writes(md, p + ".attention.value_length"@);
    if key == p + ".attention.value_length"@ || writes_key(s11, key, md[key].debug) {
        lemma_key_step(s11, md, p + ".attention.value_length"@, key);
    }
    let s13 = s12 + expert_writes(arch, md);
    if writes_key(s12, key, md[key].debug) {
        lemma_key_kept(s12, expert_writes(arch, md), key, md[key].debug);
    } else {
        let a = "qwen35moe.expert_count"@;
        let b = "qwen35moe.expert_used_count"@;
        let c = "qwen35moe.shared_expert_count"@;
        let t1 = s12 + meta_writes(md, a);
        let t2 = t1 + meta_writes(md, b);
        let t3 = t2 + meta_writes(md, c);
        if key == a {
            lemma_key_step(s12, md, a, key);
        }
        if key == a || key == b {
            lemma_key_step(t1, md, b, key);
        }
        lemma_key_step(t2, md, c, key);
        assert(t3 =~= s13);
    }
    let s14 = s13 + manifest_writes(tensors);
    lemma_key_kept(s13, manifest_writes(tensors), key, md[key].debug);
    lemma_key_kept(s14, seq![number_bytes(file_size as nat)], key, md[key].debug);
}

/// The fingerprint covers every tensor: name, format and sizes of each are hashed, in the
/// order of the names, and last of all the file's size.
pub proof fn law_fingerprint_covers_its_tensors(
    arch: Architecture,
    md: Map<Seq<char>, MetaModel>,
    tensors: Seq<ManifestEntry>,
    file_size: u64,
    i: int,
)
    requires
        0 <= i < tensors.len(),
    ensures
        ({
            let all = fingerprint_writes(arch, md, tensors, file_size);
            let at = all.len() - 1 - 6 * (tensors.len() - i);
            let entry = tensors[i];
            &&& all.last() == number_bytes(file_size as nat)
            &&& at >= 0
            &&& all[at] == vstd::utf8::encode_utf8(entry.name)
            &&& all[at + 2] == vstd::utf8::encode_utf8(dtype_text(entry.dtype))
            &&& all[at + 4] == number_bytes(entry.dims.len())
            &&& all[at + 5] == numbers_bytes(entry.dims)
        }),
{
    let all = fingerprint_writes(arch, md, tensors, file_size);
    lemma_manifest_places(tensors, tensors.len(), i);
    let own = manifest_writes(tensors);
    assert(tensors.take(tensors.len() as int) =~= tensors);
    let front = all.len() - 1 - own.len();
    assert(all.subrange(front, front + own.len()) =~= own);
    let at = 6 * i;
    assert(all[front + at] == own[at]);
    assert(all[front + at + 2] == own[at + 2]);
    assert(all[front + at + 4] == own[at + 4]);
    assert(all[front + at + 5] == own[at + 5]);
}

proof fn lemma_manifest_places(tensors: Seq<ManifestEntry>, n: nat, i: int)
    requires
        0 <= i < n <= tensors.len(),
    ensures
        manifest_writes(tensors.take(n as int)).len() == 6 * n,
        ({
            let own = manifest_writes(tensors.take(n as int));
            let entry = tensors[i];
            &&& own[6 * i] == vstd::utf8::encode_utf8(entry.name)
            &&& own[6 * i + 2] == vstd::utf8::encode_utf8(dtype_text(entry.dtype))
            &&& own[6 * i + 4] == number_bytes(entry.dims.len())
            &&& own[6 * i + 5] == numbers_bytes(entry.dims)
        }),
    decreases n,
{
    let part = tensors.take(n as int);
    assert(part.drop_last() =~= tensors.take(n - 1));
    assert(part.last() == tensors[n - 1]);
    if n == 1 {
        assert(tensors.take(0) =~= Seq::empty());
        assert(manifest_writes(tensors.take(0)).len() == 0);
    } else {
        lemma_manifest_places(tensors, (n - 1) as nat, if i < n - 1 {
            i
        } else {
            0
        });
    }
}

} // verus!
