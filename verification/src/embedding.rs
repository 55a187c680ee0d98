//! The token embedding table, read in place from the mapped file: where it lies
//! and which bytes hold a token's row.
use crate::gguf::{block_bytes, block_elems, dtype_text, GgmlDType, TensorInfo, TensorModel};
use crate::text::{bracketed, decimal, decimals, push_decimal, push_list};
use vstd::prelude::*;

verus! {

/// A quantized embedding table inside a mapped file.
#[derive(Debug)]
pub struct QuantizedEmbedding {
    pub data_offset: usize,
    pub data_len: usize,
    pub ggml_dtype: GgmlDType,
    pub bytes_per_row: usize,
    /// Tokens in the vocabulary.
    pub n_rows: usize,
    /// Width of a row.
    pub n_cols: usize,
}

/// Bytes of a row of `cols` elements.
pub open spec fn row_bytes(dtype: GgmlDType, cols: nat) -> nat {
    cols / block_elems(dtype) * block_bytes(dtype)
}

/// Whether the table's sizes and position can be computed on this machine.
pub open spec fn sizes_fit(info: TensorModel, tensor_data_offset: u64) -> bool {
    info.dims.len() == 2 ==> {
        let per_row = row_bytes(info.ggml_dtype, info.dims[1] as nat);
        &&& per_row <= usize::MAX
        &&& info.dims[0] * per_row <= usize::MAX
        &&& tensor_data_offset + info.offset <= u64::MAX
        &&& tensor_data_offset + info.offset + info.dims[0] * per_row <= usize::MAX
    }
}

/// The message for a table that is not a matrix.
pub open spec fn rank_text(dims: Seq<usize>) -> Seq<char> {
    "QuantizedEmbedding expects 2D tensor, got "@ + bracketed(decimals(dims))
}

/// The message for a table that reaches beyond the file.
pub open spec fn bounds_text(from: nat, to: nat, len: nat) -> Seq<char> {
    "QuantizedEmbedding: data out of bounds "@ + decimal(from) + ".."@ + decimal(to) + " vs len "@
        + decimal(len)
}

/// Whether rows of a format can be read.
pub open spec fn readable(dtype: GgmlDType) -> bool {
    match dtype {
        GgmlDType::F32
        | GgmlDType::F16
        | GgmlDType::BF16
        | GgmlDType::Q4_0
        | GgmlDType::Q4_1
        | GgmlDType::Q5_0
        | GgmlDType::Q5_1
        | GgmlDType::Q8_0
        | GgmlDType::Q2K
        | GgmlDType::Q3K
        | GgmlDType::Q4K
        | GgmlDType::Q5K
        | GgmlDType::Q6K
        | GgmlDType::Q8K => true,
        _ => false,
    }
}

/// Why a token's row cannot be read, where it cannot.
pub open spec fn token_error(table: QuantizedEmbedding, token: u32) -> Option<Seq<char>> {
    if token >= table.n_rows {
        Some(
            "token_id "@ + decimal(token as nat) + " out of range (vocab_size="@ + decimal(
                table.n_rows as nat,
            ) + ")"@,
        )
    } else if !readable(table.ggml_dtype) {
        Some("QuantizedEmbedding: unsupported dtype "@ + dtype_text(table.ggml_dtype))
    } else {
        None
    }
}

/// Why the rows of the first `n` tokens cannot be read, by the first that cannot.
pub open spec fn tokens_error(table: QuantizedEmbedding, tokens: Seq<u32>, n: nat) -> Option<
    Seq<char>,
>
    decreases n,
{
    if n == 0 {
        None
    } else {
        let earlier = tokens_error(table, tokens, (n - 1) as nat);
        if earlier is Some {
            earlier
        } else {
            token_error(table, tokens[n - 1])
        }
    }
}

/// Decides whether the table's sizes and position can be computed on this machine.
pub fn check_sizes(info: &TensorInfo, tensor_data_offset: u64) -> (fit: bool)
    ensures
        fit == sizes_fit(info@, tensor_data_offset),
{
    if info.dims.len() != 2 {
        return true;
    }
    let rows: usize = info.dims[0];
    let cols: usize = info.dims[1];
    let blocks: usize = cols / info.ggml_dtype.block_size();
    match blocks.checked_mul(info.ggml_dtype.type_size()) {
        None => false,
        Some(per_row) => match rows.checked_mul(per_row) {
            None => false,
            Some(len) => match tensor_data_offset.checked_add(info.offset) {
                None => false,
                Some(start) => match start.checked_add(len as u64) {
                    None => {
                        assert(start + len > u64::MAX);
                        false
                    },
                    Some(end) => end <= usize::MAX as u64,
                },
            },
        },
    }
}

impl QuantizedEmbedding {
    /// The table lies where its sizes say, and each row inside it.
    pub open spec fn wf(&self) -> bool {
        &&& self.data_len == self.n_rows * self.bytes_per_row
        &&& self.bytes_per_row == row_bytes(self.ggml_dtype, self.n_cols as nat)
        &&& self.data_offset + self.data_len <= usize::MAX
    }

    /// Finds the table in a file of `file_len` bytes.
    pub fn from_mmap(info: &TensorInfo, tensor_data_offset: u64, file_len: usize) -> (table: Result<
        Self,
        String,
    >)
        requires
            sizes_fit(info@, tensor_data_offset),
        ensures
            match table {
                Ok(t) => {
                    &&& info@.dims.len() == 2
                    &&& t.wf()
                    &&& t.n_rows == info@.dims[0]
                    &&& t.n_cols == info@.dims[1]
                    &&& t.ggml_dtype == info@.ggml_dtype
                    &&& t.data_offset == tensor_data_offset + info@.offset
                    &&& t.data_offset + t.data_len <= file_len
                },
                Err(msg) => if info@.dims.len() != 2 {
                    msg@ == rank_text(info@.dims)
                } else {
                    let from = (tensor_data_offset + info@.offset) as nat;
                    let to = from + info@.dims[0] as nat * row_bytes(
                        info@.ggml_dtype,
                        info@.dims[1] as nat,
                    );
                    to > file_len && msg@ == bounds_text(from, to, file_len as nat)
                },
            },
    {
        if info.dims.len() != 2 {
            let mut msg = "QuantizedEmbedding expects 2D tensor, got ".to_owned();
            push_list(&mut msg, info.dims.as_slice());
            return Err(msg);
        }
        let n_rows: usize = info.dims[0];
        let n_cols: usize = info.dims[1];
        let bytes_per_row: usize = n_cols / info.ggml_dtype.block_size()
            * info.ggml_dtype.type_size();
        let data_len: usize = n_rows * bytes_per_row;
        let data_offset: usize = (tensor_data_offset + info.offset) as usize;
        let end: usize = data_offset + data_len;
        if end > file_len {
            let mut msg = "QuantizedEmbedding: data out of bounds ".to_owned();
            push_decimal(&mut msg, data_offset as u64);
            msg.append("..");
            push_decimal(&mut msg, end as u64);
            msg.append(" vs len ");
            push_decimal(&mut msg, file_len as u64);
            return Err(msg);
        }
        Ok(
            QuantizedEmbedding {
                data_offset,
                data_len,
                ggml_dtype: info.ggml_dtype,
                bytes_per_row,
                n_rows,
                n_cols,
            },
        )
    }

    /// The file's bytes that hold a token's row.
    pub fn row_range(&self, token: u32) -> (range: Result<(usize, usize), String>)
        requires
            self.wf(),
        ensures
            match range {
                Ok((from, to)) => {
                    &&& token_error(*self, token) is None
                    &&& from == self.data_offset + token * self.bytes_per_row
                    &&& to == from + self.bytes_per_row
                    &&& to <= self.data_offset + self.data_len
                },
                Err(msg) => token_error(*self, token) == Some(msg@),
            },
    {
        if token as usize >= self.n_rows {
            let mut msg = "token_id ".to_owned();
            push_decimal(&mut msg, token as u64);
            msg.append(" out of range (vocab_size=");
            push_decimal(&mut msg, self.n_rows as u64);
            msg.append(")");
            return Err(msg);
        }
        let supported = match self.ggml_dtype {
            GgmlDType::F32
            | GgmlDType::F16
            | GgmlDType::BF16
            | GgmlDType::Q4_0
            | GgmlDType::Q4_1
            | GgmlDType::Q5_0
            | GgmlDType::Q5_1
            | GgmlDType::Q8_0
            | GgmlDType::Q2K
            | GgmlDType::Q3K
            | GgmlDType::Q4K
            | GgmlDType::Q5K
            | GgmlDType::Q6K
            | GgmlDType::Q8K => true,
            _ => false,
        };
        if !supported {
            let mut msg = "QuantizedEmbedding: unsupported dtype ".to_owned();
            msg.append(self.ggml_dtype.name());
            return Err(msg);
        }
        let t: usize = token as usize;
        let per_row: usize = self.bytes_per_row;
        assert(t * per_row + per_row <= self.data_len) by (nonlinear_arith)
            requires
                t < self.n_rows,
                self.data_len == self.n_rows * per_row,
        ;
        assert(0 <= t * per_row) by (nonlinear_arith)
            requires
                t >= 0,
                per_row >= 0,
        ;
        let start: usize = t * per_row;
        let from: usize = self.data_offset + start;
        Ok((from, from + per_row))
    }

    /// Collects the stored rows of `tokens` from the mapped file, one after the
    /// other. The first token without a readable row is reported.
    pub fn gather(&self, file: &[u8], tokens: &[u32]) -> (rows: Result<Vec<u8>, String>)
        requires
            self.wf(),
            self.data_offset + self.data_len <= file@.len(),
        ensures
            match rows {
                Ok(bytes) => tokens_error(*self, tokens@, tokens@.len()) is None && bytes@
                    == gathered(*self, file@, tokens@, tokens@.len()),
                Err(msg) => tokens_error(*self, tokens@, tokens@.len()) == Some(msg@),
            },
    {
        let mut bytes: Vec<u8> = Vec::new();
        let mut i: usize = 0;
        while i < tokens.len()
            invariant
                i <= tokens@.len(),
                self.wf(),
                self.data_offset + self.data_len <= file@.len(),
                tokens_error(*self, tokens@, i as nat) is None,
                bytes@ == gathered(*self, file@, tokens@, i as nat),
            decreases tokens@.len() - i,
        {
            match self.row_range(tokens[i]) {
                Err(msg) => {
                    proof {
                        lemma_error_stays(*self, tokens@, (i + 1) as nat, tokens@.len());
                    }
                    return Err(msg);
                },
                Ok((from, to)) => {
                    let ghost before = bytes@;
                    let mut j: usize = from;
                    while j < to
                        invariant
                            from <= j <= to <= file@.len(),
                            bytes@ == before + file@.subrange(from as int, j as int),
                        decreases to - j,
                    {
                        bytes.push(file[j]);
                        assert(bytes@ =~= before + file@.subrange(from as int, j + 1));
                        j += 1;
                    }
                },
            }
            i += 1;
        }
        Ok(bytes)
    }
}

/// The stored rows of the first `n` tokens, one after the other.
pub open spec fn gathered(
    table: QuantizedEmbedding,
    file: Seq<u8>,
    tokens: Seq<u32>,
    n: nat,
) -> Seq<u8>
    decreases n,
{
    if n == 0 {
        Seq::empty()
    } else {
        let from = table.data_offset + tokens[n - 1] * table.bytes_per_row;
        gathered(table, file, tokens, (n - 1) as nat) + file.subrange(
            from,
            from + table.bytes_per_row,
        )
    }
}

/// The first error is the one that is reported, however many tokens follow.
pub proof fn lemma_error_stays(table: QuantizedEmbedding, tokens: Seq<u32>, k: nat, n: nat)
    requires
        k <= n,
        tokens_error(table, tokens, k) is Some,
    ensures
        tokens_error(table, tokens, n) == tokens_error(table, tokens, k),
    decreases n,
{
    if k < n {
        lemma_error_stays(table, tokens, k, (n - 1) as nat);
    }
}

/// Rows of different tokens do not overlap.
pub proof fn law_rows_are_disjoint(table: QuantizedEmbedding, a: u32, b: u32)
    requires
        table.wf(),
        a < b < table.n_rows,
    ensures
        table.data_offset + a * table.bytes_per_row + table.bytes_per_row <= table.data_offset + b
            * table.bytes_per_row,
        table.data_offset + b * table.bytes_per_row + table.bytes_per_row <= table.data_offset
            + table.data_len,
{
    let per_row = table.bytes_per_row;
    assert(a * per_row + per_row <= b * per_row) by (nonlinear_arith)
        requires
            a + 1 <= b,
    ;
    assert(b * per_row + per_row <= table.n_rows * per_row) by (nonlinear_arith)
        requires
            b + 1 <= table.n_rows,
    ;
}

/// A row of whole blocks has as many bytes as its blocks together, and two such rows side
/// by side have the bytes of both.
pub proof fn law_rows_are_made_of_blocks(dtype: GgmlDType, blocks: nat, more: nat)
    ensures
        row_bytes(dtype, blocks * block_elems(dtype)) == blocks * block_bytes(dtype),
        row_bytes(dtype, (blocks + more) * block_elems(dtype)) == row_bytes(
            dtype,
            blocks * block_elems(dtype),
        ) + row_bytes(dtype, more * block_elems(dtype)),
        row_bytes(GgmlDType::F32, blocks) == 4 * blocks,
        row_bytes(GgmlDType::F16, blocks) == 2 * blocks,
        row_bytes(GgmlDType::BF16, blocks) == 2 * blocks,
{
    let e = block_elems(dtype) as int;
    assert(forall|n: nat, b: nat| #[trigger] (n / 1 * b) == n * b) by (nonlinear_arith);
    assert(row_bytes(GgmlDType::F32, blocks) == blocks / 1 * block_bytes(GgmlDType::F32));
    assert(row_bytes(GgmlDType::F16, blocks) == blocks / 1 * block_bytes(GgmlDType::F16));
    assert(row_bytes(GgmlDType::BF16, blocks) == blocks / 1 * block_bytes(GgmlDType::BF16));
    assert(blocks * block_bytes(GgmlDType::F32) == 4 * blocks) by (nonlinear_arith)
        requires
            block_bytes(GgmlDType::F32) == 4,
    ;
    assert(blocks * block_bytes(GgmlDType::F16) == 2 * blocks) by (nonlinear_arith)
        requires
            block_bytes(GgmlDType::F16) == 2,
    ;
    assert(blocks * block_bytes(GgmlDType::BF16) == 2 * blocks) by (nonlinear_arith)
        requires
            block_bytes(GgmlDType::BF16) == 2,
    ;
    vstd::arithmetic::div_mod::lemma_div_multiples_vanish(blocks as int, e);
    vstd::arithmetic::div_mod::lemma_div_multiples_vanish(more as int, e);
    vstd::arithmetic::div_mod::lemma_div_multiples_vanish((blocks + more) as int, e);
    vstd::arithmetic::mul::lemma_mul_is_commutative(blocks as int, e);
    vstd::arithmetic::mul::lemma_mul_is_commutative(more as int, e);
    vstd::arithmetic::mul::lemma_mul_is_commutative((blocks + more) as int, e);
    vstd::arithmetic::mul::lemma_mul_is_distributive_add_other_way(
        block_bytes(dtype) as int,
        blocks as int,
        more as int,
    );
}

/// A token is refused exactly where the table has no row for it or its rows cannot be read.
pub proof fn law_tokens_with_rows_are_served(table: QuantizedEmbedding, token: u32)
    ensures
        token_error(table, token) is None <==> token < table.n_rows && readable(table.ggml_dtype),
{
}

/// A list of tokens is served exactly where each of them is, and else the first that is
/// not says why.
pub proof fn law_the_first_bad_token_is_named(
    table: QuantizedEmbedding,
    tokens: Seq<u32>,
    n: nat,
    i: int,
)
    requires
        0 <= i < n <= tokens.len(),
    ensures
        tokens_error(table, tokens, n) is None ==> token_error(table, tokens[i]) is None,
        tokens_error(table, tokens, i as nat) is None && token_error(table, tokens[i]) is Some
            ==> tokens_error(table, tokens, n) == token_error(table, tokens[i]),
        (forall|k: int| 0 <= k < n ==> token_error(table, #[trigger] tokens[k]) is None)
            ==> tokens_error(table, tokens, n) is None,
    decreases n,
{
    if i < n - 1 {
        law_the_first_bad_token_is_named(table, tokens, (n - 1) as nat, i);
    } else if n > 1 {
        law_the_first_bad_token_is_named(table, tokens, (n - 1) as nat, 0);
    }
}

/// Gathered rows lie one behind the other in the order of the tokens, each the row of its
/// token in the file.
pub proof fn law_gathered_rows_are_the_tokens_rows(
    table: QuantizedEmbedding,
    file: Seq<u8>,
    tokens: Seq<u32>,
    n: nat,
    i: int,
    k: int,
)
    requires
        table.wf(),
        table.data_offset + table.data_len <= file.len(),
        0 <= i < n <= tokens.len(),
        forall|j: int| 0 <= j < n ==> #[trigger] tokens[j] < table.n_rows,
        0 <= k < table.bytes_per_row,
    ensures
        gathered(table, file, tokens, n).len() == n * table.bytes_per_row,
        i * table.bytes_per_row + k < n * table.bytes_per_row,
        gathered(table, file, tokens, n)[i * table.bytes_per_row + k] == file[table.data_offset
            + tokens[i] * table.bytes_per_row + k],
    decreases n,
{
    let width = table.bytes_per_row as int;
    let from = table.data_offset + tokens[n - 1] * width;
    assert(tokens[n - 1] < table.n_rows);
    assert(tokens[n - 1] * width + width <= table.n_rows * width) by (nonlinear_arith)
        requires
            0 <= width,
            tokens[n - 1] + 1 <= table.n_rows,
    ;
    assert(n * width == (n - 1) * width + width) by (nonlinear_arith);
    assert(0 <= tokens[n - 1] * width) by (nonlinear_arith)
        requires
            0 <= width,
    ;
    if n == 1 {
        assert(gathered(table, file, tokens, 0).len() == 0);
        assert(i * width == 0);
    } else if i < n - 1 {
        law_gathered_rows_are_the_tokens_rows(table, file, tokens, (n - 1) as nat, i, k);
        assert(i * width >= 0) by (nonlinear_arith)
            requires
                0 <= width,
                0 <= i,
        ;
    } else {
        law_gathered_rows_are_the_tokens_rows(table, file, tokens, (n - 1) as nat, 0, k);
    }
}

} // verus!
