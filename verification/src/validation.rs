//! Collecting every problem of a GGUF index before any is reported.
use crate::gguf::{dtype_text, GgmlDType, GgufIndex, KindModel, MetaModel, TensorModel};
use crate::text::{
    bracketed, decimal, decimals, join, joined, push_decimal, push_list, views,
};
use vstd::prelude::*;

verus! {

/// Aggregated validation errors: all problems are reported at once.
#[derive(Debug)]
pub struct ValidationErrors {
    pub errors: Vec<String>,
}

impl View for ValidationErrors {
    type V = Seq<Seq<char>>;

    open spec fn view(&self) -> Seq<Seq<char>> {
        views(self.errors@)
    }
}

impl Default for ValidationErrors {
    fn default() -> (errs: Self)
        ensures
            errs@ == Seq::<Seq<char>>::empty(),
    {
        let errs = ValidationErrors { errors: Vec::new() };
        assert(errs@ =~= Seq::<Seq<char>>::empty());
        errs
    }
}

/// The message for a metadata key that is not there.
pub open spec fn missing_key_text(key: Seq<char>) -> Seq<char> {
    "missing metadata key: "@ + key
}

/// The message for a tensor that is not there.
pub open spec fn missing_tensor_text(name: Seq<char>) -> Seq<char> {
    "missing required tensor: "@ + name
}

/// The report on `errors`, all in one message.
pub open spec fn report_text(errors: Seq<Seq<char>>) -> Seq<char> {
    "GGUF validation failed ("@ + decimal(errors.len()) + " error(s)): "@ + joined(errors, "; "@)
}

impl ValidationErrors {
    /// Adds a message.
    pub fn push(&mut self, msg: String)
        ensures
            final(self)@ == old(self)@.push(msg@),
    {
        self.errors.push(msg);
        assert(self@ =~= old(self)@.push(msg@));
    }

    /// Adds the message for a missing metadata key.
    pub fn push_missing(&mut self, key: &str)
        ensures
            final(self)@ == old(self)@.push(missing_key_text(key@)),
    {
        let mut msg = "missing metadata key: ".to_owned();
        msg.append(key);
        self.push(msg);
    }

    /// Adds the message for a missing tensor.
    pub fn push_tensor_missing(&mut self, name: &str)
        ensures
            final(self)@ == old(self)@.push(missing_tensor_text(name@)),
    {
        let mut msg = "missing required tensor: ".to_owned();
        msg.append(name);
        self.push(msg);
    }

    /// Whether there is no message.
    pub fn is_empty(&self) -> (empty: bool)
        ensures
            empty == (self@.len() == 0),
    {
        self.errors.len() == 0
    }

    /// Success, or one message that holds all of them.
    pub fn into_result(self) -> (result: Result<(), String>)
        ensures
            match result {
                Ok(()) => self@.len() == 0,
                Err(msg) => self@.len() > 0 && msg@ == report_text(self@),
            },
    {
        if self.is_empty() {
            Ok(())
        } else {
            let mut msg = "GGUF validation failed (".to_owned();
            push_decimal(&mut msg, self.errors.len() as u64);
            msg.append(" error(s)): ");
            let all = join(&self.errors, "; ");
            msg.append(all.as_str());
            Err(msg)
        }
    }
}

/// The 32-bit unsigned integer under `key`.
pub open spec fn u32_at(md: Map<Seq<char>, MetaModel>, key: Seq<char>) -> Option<usize> {
    if md.dom().contains(key) {
        match md[key].as_u32() {
            Some(n) => Some(n as usize),
            None => None,
        }
    } else {
        None
    }
}

/// The bits of the 32-bit float under `key`.
pub open spec fn float_bits_at(md: Map<Seq<char>, MetaModel>, key: Seq<char>) -> Option<u32> {
    if md.dom().contains(key) {
        md[key].as_float_bits()
    } else {
        None
    }
}

/// The truth value under `key`.
pub open spec fn bool_at(md: Map<Seq<char>, MetaModel>, key: Seq<char>) -> Option<bool> {
    if md.dom().contains(key) {
        md[key].as_bool()
    } else {
        None
    }
}

/// The value of `opt`, or `default`.
pub open spec fn value_or<T>(opt: Option<T>, default: T) -> T {
    match opt {
        Some(v) => v,
        None => default,
    }
}

/// What is wrong with `key` as a required 32-bit unsigned integer.
pub open spec fn u32_errors(md: Map<Seq<char>, MetaModel>, key: Seq<char>) -> Seq<Seq<char>> {
    if !md.dom().contains(key) {
        seq![missing_key_text(key)]
    } else if md[key].as_u32() is None {
        seq!["metadata key "@ + key + " is not a u32"@]
    } else {
        seq![]
    }
}

/// What is wrong with `key` as a required 32-bit float.
pub open spec fn float_errors(md: Map<Seq<char>, MetaModel>, key: Seq<char>) -> Seq<Seq<char>> {
    if !md.dom().contains(key) {
        seq![missing_key_text(key)]
    } else if md[key].as_float_bits() is None {
        seq!["metadata key "@ + key + " is not an f32"@]
    } else {
        seq![]
    }
}

/// What is wrong with `name` as a required tensor.
pub open spec fn tensor_errors(
    tensors: Map<Seq<char>, TensorModel>,
    name: Seq<char>,
) -> Seq<Seq<char>> {
    if tensors.dom().contains(name) {
        seq![]
    } else {
        seq![missing_tensor_text(name)]
    }
}

/// The names of `dtypes`.
pub open spec fn dtype_texts(dtypes: Seq<GgmlDType>) -> Seq<Seq<char>> {
    Seq::new(dtypes.len(), |i: int| dtype_text(dtypes[i]))
}

/// What is wrong with `name` as a tensor of this shape in one of these formats.
pub open spec fn contract_errors(
    tensors: Map<Seq<char>, TensorModel>,
    name: Seq<char>,
    shape: Seq<usize>,
    dtypes: Seq<GgmlDType>,
) -> Seq<Seq<char>> {
    if !tensors.dom().contains(name) {
        seq![missing_tensor_text(name)]
    } else {
        let info = tensors[name];
        let wrong_shape: Seq<Seq<char>> = if info.dims != shape {
            seq![
                "tensor "@ + name + " shape "@ + bracketed(decimals(info.dims)) + ", expected "@
                    + bracketed(decimals(shape)),
            ]
        } else {
            seq![]
        };
        let wrong_dtype: Seq<Seq<char>> = if !dtypes.contains(info.ggml_dtype) {
            seq![
                "tensor "@ + name + " dtype "@ + dtype_text(info.ggml_dtype) + ", expected one of "@
                    + bracketed(dtype_texts(dtypes)),
            ]
        } else {
            seq![]
        };
        wrong_shape + wrong_dtype
    }
}

/// Joins two texts.
pub fn concat2(a: &str, b: &str) -> (out: String)
    ensures
        out@ == a@ + b@,
{
    let mut out = a.to_owned();
    out.append(b);
    out
}

/// Reads a required 32-bit unsigned integer.
pub fn md_u32(index: &GgufIndex, key: &str, errs: &mut ValidationErrors) -> (n: Option<usize>)
    requires
        index.wf(),
    ensures
        n == u32_at(index@.metadata, key@),
        final(errs)@ == old(errs)@ + u32_errors(index@.metadata, key@),
{
    match index.meta(key) {
        Some(v) => match v.to_u32() {
            Some(n) => {
                assert(errs@ =~= old(errs)@ + u32_errors(index@.metadata, key@));
                Some(n as usize)
            },
            None => {
                let mut msg = concat2("metadata key ", key);
                msg.append(" is not a u32");
                errs.push(msg);
                assert(errs@ =~= old(errs)@ + u32_errors(index@.metadata, key@));
                None
            },
        },
        None => {
            errs.push_missing(key);
            assert(errs@ =~= old(errs)@ + u32_errors(index@.metadata, key@));
            None
        },
    }
}

/// Reads an optional 32-bit unsigned integer.
pub fn md_u32_opt(index: &GgufIndex, key: &str) -> (n: Option<usize>)
    requires
        index.wf(),
    ensures
        n == u32_at(index@.metadata, key@),
{
    match index.meta(key) {
        Some(v) => match v.to_u32() {
            Some(n) => Some(n as usize),
            None => None,
        },
        None => None,
    }
}

/// Reads the bits of an optional 32-bit float.
pub fn md_float_opt(index: &GgufIndex, key: &str, default: u32) -> (bits: u32)
    requires
        index.wf(),
    ensures
        bits == value_or(float_bits_at(index@.metadata, key@), default),
{
    match index.meta(key) {
        Some(v) => match v.to_float_bits() {
            Some(bits) => bits,
            None => default,
        },
        None => default,
    }
}

/// Reads the bits of a required 32-bit float.
pub fn md_float_req(index: &GgufIndex, key: &str, errs: &mut ValidationErrors) -> (bits: Option<u32>)
    requires
        index.wf(),
    ensures
        bits == float_bits_at(index@.metadata, key@),
        final(errs)@ == old(errs)@ + float_errors(index@.metadata, key@),
{
    match index.meta(key) {
        Some(v) => match v.to_float_bits() {
            Some(bits) => {
                assert(errs@ =~= old(errs)@ + float_errors(index@.metadata, key@));
                Some(bits)
            },
            None => {
                let mut msg = concat2("metadata key ", key);
                msg.append(" is not an f32");
                errs.push(msg);
                assert(errs@ =~= old(errs)@ + float_errors(index@.metadata, key@));
                None
            },
        },
        None => {
            errs.push_missing(key);
            assert(errs@ =~= old(errs)@ + float_errors(index@.metadata, key@));
            None
        },
    }
}

/// Reads an optional truth value.
pub fn md_bool_opt(index: &GgufIndex, key: &str) -> (b: Option<bool>)
    requires
        index.wf(),
    ensures
        b == bool_at(index@.metadata, key@),
{
    match index.meta(key) {
        Some(v) => v.to_bool(),
        None => None,
    }
}

/// Checks that a tensor is there.
pub fn require_tensor(index: &GgufIndex, name: &str, errs: &mut ValidationErrors)
    requires
        index.wf(),
    ensures
        final(errs)@ == old(errs)@ + tensor_errors(index@.tensor_infos, name@),
{
    if index.tensor(name).is_none() {
        errs.push_tensor_missing(name);
    }
    assert(errs@ =~= old(errs)@ + tensor_errors(index@.tensor_infos, name@));
}

/// Whether two shapes are the same.
fn same_dims(a: &Vec<usize>, b: &[usize]) -> (same: bool)
    ensures
        same == (a@ == b@),
{
    if a.len() != b.len() {
        return false;
    }
    let mut i: usize = 0;
    while i < a.len()
        invariant
            i <= a@.len(),
            a@.len() == b@.len(),
            forall|k: int| 0 <= k < i ==> a@[k] == #[trigger] b@[k],
        decreases a@.len() - i,
    {
        if a[i] != b[i] {
            assert(a@[i as int] != b@[i as int]);
            return false;
        }
        i += 1;
    }
    assert(a@ =~= b@);
    true
}

/// Whether `dtype` is among `dtypes`.
pub fn has_dtype(dtypes: &[GgmlDType], dtype: GgmlDType) -> (found: bool)
    ensures
        found == dtypes@.contains(dtype),
{
    let mut i: usize = 0;
    while i < dtypes.len()
        invariant
            i <= dtypes@.len(),
            forall|k: int| 0 <= k < i ==> #[trigger] dtypes@[k] != dtype,
        decreases dtypes@.len() - i,
    {
        if dtypes[i] == dtype {
            assert(dtypes@[i as int] == dtype);
            return true;
        }
        i += 1;
    }
    false
}

/// Appends the names of `dtypes` in brackets.
fn push_dtypes(out: &mut String, dtypes: &[GgmlDType])
    ensures
        final(out)@ == old(out)@ + bracketed(dtype_texts(dtypes@)),
{
    let ghost start = old(out)@;
    proof {
        reveal_strlit("[");
        reveal_strlit("]");
        reveal_strlit(", ");
        assert(", "@ =~= seq![',', ' ']);
        assert("["@ =~= seq!['[']);
        assert("]"@ =~= seq![']']);
    }
    out.append("[");
    let mut i: usize = 0;
    while i < dtypes.len()
        invariant
            i <= dtypes.len(),
            ", "@ == seq![',', ' '],
            out@ == start + seq!['['] + joined(dtype_texts(dtypes@.take(i as int)), seq![',', ' ']),
        decreases dtypes.len() - i,
    {
        let ghost after = dtype_texts(dtypes@.take(i + 1));
        proof {
            assert(after.drop_last() =~= dtype_texts(dtypes@.take(i as int)));
            assert(after.last() == dtype_text(dtypes@[i as int]));
        }
        if i > 0 {
            out.append(", ");
        }
        out.append(dtypes[i].name());
        proof {
            if i == 0 {
                assert(joined(after, seq![',', ' ']) =~= dtype_text(dtypes@[0]));
            }
            assert(out@ =~= start + seq!['['] + joined(after, seq![',', ' ']));
        }
        i += 1;
    }
    proof {
        assert(dtypes@.take(dtypes@.len() as int) =~= dtypes@);
    }
    out.append("]");
    proof {
        assert(out@ =~= start + bracketed(dtype_texts(dtypes@)));
    }
}

/// Checks that a tensor is there, with this shape and in one of these formats.
pub fn require_tensor_contract(
    index: &GgufIndex,
    name: &str,
    shape: &[usize],
    dtypes: &[GgmlDType],
    errs: &mut ValidationErrors,
)
    requires
        index.wf(),
    ensures
        final(errs)@ == old(errs)@ + contract_errors(index@.tensor_infos, name@, shape@, dtypes@),
{
    let ghost expected = contract_errors(index@.tensor_infos, name@, shape@, dtypes@);
    match index.tensor(name) {
        None => {
            errs.push_tensor_missing(name);
        },
        Some(info) => {
            if !same_dims(&info.dims, shape) {
                let mut msg = concat2("tensor ", name);
                msg.append(" shape ");
                push_list(&mut msg, info.dims.as_slice());
                msg.append(", expected ");
                push_list(&mut msg, shape);
                errs.push(msg);
            }
            if !has_dtype(dtypes, info.ggml_dtype) {
                let mut msg = concat2("tensor ", name);
                msg.append(" dtype ");
                msg.append(info.ggml_dtype.name());
                msg.append(", expected one of ");
                push_dtypes(&mut msg, dtypes);
                errs.push(msg);
            }
        },
    }
    assert(errs@ =~= old(errs)@ + expected);
}

/// A number, a float or a switch is read as the file stores it, and only where it stores
/// one of that kind under that key.
pub proof fn law_values_are_read_as_stored(
    md: Map<Seq<char>, MetaModel>,
    key: Seq<char>,
    n: u32,
    b: bool,
)
    ensures
        u32_at(md, key) == Some(n as usize) <==> md.dom().contains(key) && md[key].kind
            == KindModel::U32(n),
        float_bits_at(md, key) == Some(n) <==> md.dom().contains(key) && md[key].kind
            == KindModel::F32Bits(n),
        bool_at(md, key) == Some(b) <==> md.dom().contains(key) && md[key].kind == KindModel::Bool(
            b,
        ),
{
}

/// A wanted value is complained of exactly where it cannot be read, once, and a key that
/// is missing and one that holds something else are told apart.
pub proof fn law_unread_values_are_reported(md: Map<Seq<char>, MetaModel>, key: Seq<char>)
    ensures
        u32_errors(md, key).len() == 0 <==> u32_at(md, key) is Some,
        float_errors(md, key).len() == 0 <==> float_bits_at(md, key) is Some,
        u32_errors(md, key).len() <= 1,
        float_errors(md, key).len() <= 1,
        !md.dom().contains(key) <==> u32_errors(md, key) == seq!["missing metadata key: "@ + key],
        !md.dom().contains(key) <==> float_errors(md, key) == seq!["missing metadata key: "@ + key],
{
    reveal_strlit("missing metadata key: ");
    reveal_strlit("metadata key ");
    let missing = missing_key_text(key);
    if md.dom().contains(key) && u32_at(md, key) is None {
        let wrong = u32_errors(md, key)[0];
        assert(missing[1] == 'i' && wrong[1] == 'e');
    }
    if md.dom().contains(key) && float_bits_at(md, key) is None {
        let wrong = float_errors(md, key)[0];
        assert(missing[1] == 'i' && wrong[1] == 'e');
    }
}

/// A tensor is complained of exactly where it is missing, has another shape or has none of
/// the formats that are asked for. Shape and format are complained of separately.
pub proof fn law_broken_contracts_are_reported(
    t: Map<Seq<char>, TensorModel>,
    name: Seq<char>,
    shape: Seq<usize>,
    dtypes: Seq<GgmlDType>,
)
    ensures
        tensor_errors(t, name).len() == 0 <==> t.dom().contains(name),
        contract_errors(t, name, shape, dtypes).len() == 0 <==> t.dom().contains(name)
            && t[name].dims == shape && dtypes.contains(t[name].ggml_dtype),
        contract_errors(t, name, shape, dtypes).len() == 2 <==> t.dom().contains(name)
            && t[name].dims != shape && !dtypes.contains(t[name].ggml_dtype),
        contract_errors(t, name, shape, dtypes).len() <= 2,
        !t.dom().contains(name) ==> tensor_errors(t, name) == seq![
            "missing required tensor: "@ + name,
        ] && contract_errors(t, name, shape, dtypes) == tensor_errors(t, name),
{
}

proof fn lemma_joined_holds(items: Seq<Seq<char>>, sep: Seq<char>, i: int) -> (at: int)
    requires
        0 <= i < items.len(),
    ensures
        0 <= at <= at + items[i].len() <= joined(items, sep).len(),
        joined(items, sep).subrange(at, at + items[i].len()) == items[i],
    decreases items.len(),
{
    let all = joined(items, sep);
    if items.len() == 1 {
        assert(all.subrange(0, items[i].len() as int) =~= items[i]);
        0
    } else if i == items.len() - 1 {
        let at = all.len() - items[i].len();
        assert(all.subrange(at, at + items[i].len()) =~= items[i]);
        at
    } else {
        let fore = items.drop_last();
        let at = lemma_joined_holds(fore, sep, i);
        assert(all.subrange(at, at + items[i].len()) =~= joined(fore, sep).subrange(
            at,
            at + items[i].len(),
        ));
        at
    }
}

/// A report says how many errors there are and holds the text of each.
pub proof fn law_reports_hold_every_error(errors: Seq<Seq<char>>, i: int)
    requires
        0 <= i < errors.len(),
    ensures
        exists|at: int|
            0 <= at <= at + errors[i].len() <= report_text(errors).len() && #[trigger] report_text(
                errors,
            ).subrange(at, at + errors[i].len()) == errors[i],
        ({
            let count = decimal(errors.len());
            let head = "GGUF validation failed ("@ + count;
            report_text(errors).len() > head.len() && report_text(errors).take(head.len() as int)
                == head && report_text(errors)[head.len() as int] == ' '
        }),
{
    reveal_strlit("GGUF validation failed (");
    reveal_strlit(" error(s)): ");
    let whole = report_text(errors);
    let tail = joined(errors, "; "@);
    let from = whole.len() - tail.len();
    let at = lemma_joined_holds(errors, "; "@, i);
    assert(whole.subrange(from + at, from + at + errors[i].len()) =~= tail.subrange(
        at,
        at + errors[i].len(),
    ));
    let head = "GGUF validation failed ("@ + decimal(errors.len());
    assert(whole.take(head.len() as int) =~= head);
}

} // verus!
