//! Reading stored embedding rows as single-precision floats, held by their bits.
use crate::embedding::{
    lemma_error_stays, readable, row_bytes, tokens_error, QuantizedEmbedding,
};
use crate::gguf::{block_elems, GgmlDType};
use crate::moe::{float_value, is_nan};
use candle_core::quantized::GgmlDType as CandleDType;
use candle_core::quantized::QuantizedType;
use candle_core::CpuStorage::F32 as Singles;
use std::borrow::Cow::Borrowed;
use vstd::arithmetic::power2::{lemma2_to64, lemma_pow2_unfold, pow2};
use vstd::prelude::*;

verus! {

/// The exponent of the largest power of two that is at most `n`.
pub open spec fn floor_log2(n: nat) -> nat
    decreases n,
{
    if n <= 1 {
        0
    } else {
        1 + floor_log2(n / 2)
    }
}

/// The single-precision float equal to a half-precision one, without its sign. Where
/// the latter is no number the payload is kept and made quiet.
pub open spec fn widened_half(exp: nat, man: nat) -> nat {
    if exp == 31 {
        if man == 0 {
            0x7f80_0000
        } else {
            0x7fc0_0000 + man % 512 * 8192
        }
    } else if exp == 0 {
        if man == 0 {
            0
        } else {
            let k = floor_log2(man);
            (103 + k) * 0x80_0000 + (man - pow2(k)) as nat * pow2((23 - k) as nat)
        }
    } else {
        (exp + 112) * 0x80_0000 + man * 8192
    }
}

/// The bits of the single-precision float equal to a half-precision one.
pub open spec fn single_of_half(bits: u16) -> nat {
    let sign = bits as nat / 0x8000;
    sign * 0x8000_0000 + widened_half(bits as nat / 1024 % 32, bits as nat % 1024)
}

/// The bits of the single-precision float equal to a bfloat: its upper half. Where it
/// is no number it is made quiet.
pub open spec fn single_of_bfloat(bits: u16) -> nat {
    if bits as nat % 0x8000 > 0x7f80 && bits as nat / 64 % 2 == 0 {
        (bits as nat + 64) * 0x1_0000
    } else {
        bits as nat * 0x1_0000
    }
}

/// Widens a half-precision float: the result is the same number.
pub fn half_to_single(bits: u16) -> (wide: u32)
    ensures
        wide == single_of_half(bits),
{
    let sign: u32 = (bits / 0x8000) as u32;
    let exp: u32 = (bits / 1024 % 32) as u32;
    let man: u32 = (bits % 1024) as u32;
    let rest: u32 = if exp == 31 {
        if man == 0 {
            0x7f80_0000
        } else {
            0x7fc0_0000 + man % 512 * 8192
        }
    } else if exp == 0 {
        if man == 0 {
            0
        } else {
            widen_small(man)
        }
    } else {
        (exp + 112) * 0x80_0000 + man * 8192
    };
    sign * 0x8000_0000 + rest
}

/// Widens a half-precision float that is too small for a full mantissa.
fn widen_small(man: u32) -> (wide: u32)
    requires
        0 < man < 1024,
    ensures
        wide == widened_half(0, man as nat),
        wide < 0x7f80_0000,
{
    let mut m: u32 = man;
    let mut k: u32 = 0;
    let mut p: u32 = 1;
    let mut q: u32 = 0x80_0000;
    proof {
        lemma2_to64();
    }
    while m > 1
        invariant
            1 <= m <= man < 1024,
            k <= 9,
            p == pow2(k as nat),
            q == pow2((23 - k) as nat),
            p * q == 0x80_0000,
            m * p <= man < (m + 1) * p,
            floor_log2(man as nat) == k + floor_log2(m as nat),
        decreases m,
    {
        proof {
            assert(p <= 511) by (nonlinear_arith)
                requires
                    m * p <= man,
                    man < 1024,
                    m > 1,
            ;
            if k == 9 {
                lemma2_to64();
                assert(false);
            }
            lemma_pow2_unfold((k + 1) as nat);
            lemma_pow2_unfold((23 - k) as nat);
            assert(2 * p * (q / 2) == p * q) by (nonlinear_arith)
                requires
                    q % 2 == 0,
            ;
            assert((m / 2) * (2 * p) <= m * p) by (nonlinear_arith)
                requires
                    m >= 0,
                    p >= 0,
            ;
            assert((m + 1) * p <= (m / 2 + 1) * (2 * p)) by (nonlinear_arith)
                requires
                    m >= 0,
                    p >= 0,
            ;
        }
        m = m / 2;
        p = p * 2;
        q = q / 2;
        k = k + 1;
    }
    proof {
        assert((man - p) * q < p * q) by (nonlinear_arith)
            requires
                man < 2 * p,
                q > 0,
        ;
        assert((man - p) * q >= 0) by (nonlinear_arith)
            requires
                man >= p,
                q > 0,
        ;
    }
    (103 + k) * 0x80_0000 + (man - p) * q
}

/// Widens a bfloat.
pub fn bfloat_to_single(bits: u16) -> (wide: u32)
    ensures
        wide == single_of_bfloat(bits),
{
    if bits % 0x8000 > 0x7f80 && bits / 64 % 2 == 0 {
        (bits as u32 + 64) * 0x1_0000
    } else {
        bits as u32 * 0x1_0000
    }
}

/// Formats that pack elements into blocks with scales.
pub open spec fn block_format(dtype: GgmlDType) -> bool {
    match dtype {
        GgmlDType::Q4_0
        | GgmlDType::Q4_1
        | GgmlDType::Q5_0
        | GgmlDType::Q5_1
        | GgmlDType::Q8_0
        | GgmlDType::Q2K
        | GgmlDType::Q3K
        | GgmlDType::Q4K
        | GgmlDType::Q5K
        | GgmlDType::Q6K
        | GgmlDType::Q8K => true,
        _ => false,
    }
}

/// Whether the bits of a single-precision float are those of no number.
pub open spec fn no_number(bits: u32) -> bool {
    bits as nat % 0x8000_0000 > 0x7f80_0000
}

/// Whether two floats are the same number, or neither is a number.
pub open spec fn same_float(a: u32, b: u32) -> bool {
    a == b || (no_number(a) && no_number(b))
}

/// The bits of the floats in a row of `cols` elements in a block format. The bits of an
/// element that is no number mean nothing beyond that.
pub uninterp spec fn unpacked(dtype: GgmlDType, bytes: Seq<u8>, cols: nat) -> Seq<u32>;

/// Unpacks a row with `QuantizedType::dequantize` of `candle_core`, on a row that
/// `GgmlDType::from_data` holds as blocks. A row of whole blocks always unpacks, to one
/// float per element. Which elements are numbers, and which numbers these are, is a
/// function of the format, the bytes and the number of elements. An element that is no
/// number, as a scale that is infinite or no number gives, has bits that depend on the
/// machine, and nothing more is stated of them. The row is copied to where its blocks are
/// aligned, as `from_data` asks. The fields of a block are taken in the machine's byte
/// order: the contract is for machines that, as the format does, put the least significant
/// byte first.
#[verifier::external_body]
fn unpack_row(dtype: GgmlDType, bytes: &Vec<u8>, cols: usize) -> (floats: Option<Vec<u32>>)
    requires
        block_format(dtype),
        cols as nat % block_elems(dtype) == 0,
        4 * cols <= isize::MAX,
        bytes@.len() == row_bytes(dtype, cols as nat),
    ensures
        floats is Some,
        floats->0@.len() == cols,
        forall|i: int|
            0 <= i < cols ==> same_float(
                #[trigger] floats->0@[i],
                unpacked(dtype, bytes@, cols as nat)[i],
            ),
{
    let kind = match dtype {
        GgmlDType::Q4_0 => CandleDType::Q4_0, GgmlDType::Q4_1 => CandleDType::Q4_1,
        GgmlDType::Q5_0 => CandleDType::Q5_0, GgmlDType::Q5_1 => CandleDType::Q5_1,
        GgmlDType::Q8_0 => CandleDType::Q8_0, GgmlDType::Q2K => CandleDType::Q2K,
        GgmlDType::Q3K => CandleDType::Q3K, GgmlDType::Q4K => CandleDType::Q4K,
        GgmlDType::Q5K => CandleDType::Q5K, GgmlDType::Q6K => CandleDType::Q6K, _ => CandleDType::Q8K
    };
    let mut room = vec![0u8; bytes.len() + 3];
    let at = room.as_ptr().align_offset(4);
    room.truncate(at);
    room.extend(bytes);
    match kind.from_data(Borrowed(&room[at..])).dequantize(cols) {
        Ok(Singles(floats)) => Some(floats.into_iter().map(|x| x.to_bits()).collect()),
        _ => None
    }
}

/// Word `i` of some bytes, least significant byte first.
pub open spec fn word(bytes: Seq<u8>, i: int) -> u32 {
    (bytes[4 * i] + 0x100 * bytes[4 * i + 1] + 0x1_0000 * bytes[4 * i + 2] + 0x100_0000 * bytes[4
        * i + 3]) as u32
}

/// Half word `i` of some bytes, least significant byte first.
pub open spec fn half_word(bytes: Seq<u8>, i: int) -> u16 {
    (bytes[2 * i] + 0x100 * bytes[2 * i + 1]) as u16
}

/// Element `i` of a stored row.
pub open spec fn element(dtype: GgmlDType, bytes: Seq<u8>, cols: nat, i: int) -> nat {
    match dtype {
        GgmlDType::F32 => word(bytes, i) as nat,
        GgmlDType::F16 => single_of_half(half_word(bytes, i)),
        GgmlDType::BF16 => single_of_bfloat(half_word(bytes, i)),
        _ => unpacked(dtype, bytes, cols)[i] as nat,
    }
}

/// Whether `bits` are what is read for an element: its own bits, or in a block format those
/// of any float that is no number, where it is none.
pub open spec fn reads_as(dtype: GgmlDType, bits: u32, element: nat) -> bool {
    if block_format(dtype) {
        same_float(bits, element as u32)
    } else {
        bits == element
    }
}

/// Whether rows of `cols` elements in a format can be read element by element: in a block
/// format they are whole blocks, and their floats fit in memory.
pub open spec fn elementwise(dtype: GgmlDType, cols: nat) -> bool {
    match dtype {
        GgmlDType::F32 | GgmlDType::F16 | GgmlDType::BF16 => true,
        _ => block_format(dtype) && cols % block_elems(dtype) == 0 && 4 * cols <= isize::MAX,
    }
}

fn read_word(bytes: &Vec<u8>, i: usize) -> (w: u32)
    requires
        4 * i + 4 <= bytes@.len(),
    ensures
        w == word(bytes@, i as int),
{
    let len: usize = bytes.len();
    let at: usize = 4 * i;
    bytes[at] as u32 + 0x100 * (bytes[at + 1] as u32) + 0x1_0000 * (bytes[at + 2] as u32)
        + 0x100_0000 * (bytes[at + 3] as u32)
}

fn read_half_word(bytes: &Vec<u8>, i: usize) -> (w: u16)
    requires
        2 * i + 2 <= bytes@.len(),
    ensures
        w == half_word(bytes@, i as int),
{
    let len: usize = bytes.len();
    let at: usize = 2 * i;
    bytes[at] as u16 + 0x100 * (bytes[at + 1] as u16)
}

/// Reads a stored row element by element.
pub fn read_row(dtype: GgmlDType, bytes: &Vec<u8>, cols: usize) -> (row: Vec<u32>)
    requires
        elementwise(dtype, cols as nat),
        bytes@.len() == row_bytes(dtype, cols as nat),
    ensures
        row@.len() == cols,
        forall|i: int|
            0 <= i < cols ==> reads_as(
                dtype,
                #[trigger] row@[i],
                element(dtype, bytes@, cols as nat, i),
            ),
{
    let mut row: Vec<u32> = Vec::new();
    match dtype {
        GgmlDType::F32 => {
            let mut i: usize = 0;
            while i < cols
                invariant
                    i <= cols,
                    bytes@.len() == 4 * cols,
                    row@.len() == i,
                    forall|k: int| 0 <= k < i ==> #[trigger] row@[k] == word(bytes@, k),
                decreases cols - i,
            {
                row.push(read_word(bytes, i));
                i += 1;
            }
        },
        GgmlDType::F16 => {
            let mut i: usize = 0;
            while i < cols
                invariant
                    i <= cols,
                    bytes@.len() == 2 * cols,
                    row@.len() == i,
                    forall|k: int|
                        0 <= k < i ==> #[trigger] row@[k] == single_of_half(half_word(bytes@, k)),
                decreases cols - i,
            {
                row.push(half_to_single(read_half_word(bytes, i)));
                i += 1;
            }
        },
        GgmlDType::BF16 => {
            let mut i: usize = 0;
            while i < cols
                invariant
                    i <= cols,
                    bytes@.len() == 2 * cols,
                    row@.len() == i,
                    forall|k: int|
                        0 <= k < i ==> #[trigger] row@[k] == single_of_bfloat(
                            half_word(bytes@, k),
                        ),
                decreases cols - i,
            {
                row.push(bfloat_to_single(read_half_word(bytes, i)));
                i += 1;
            }
        },
        _ => {
            match unpack_row(dtype, bytes, cols) {
                Some(floats) => row = floats,
                None => {
                    assert(false);
                },
            }
        },
    }
    row
}

/// The stored row of a token.
pub open spec fn stored_row(table: QuantizedEmbedding, file: Seq<u8>, token: u32) -> Seq<u8> {
    let from = table.data_offset + token * table.bytes_per_row;
    file.subrange(from, from + table.bytes_per_row)
}

/// The embeddings of a matrix of tokens: `batch` sequences of `seq_len` rows of `n_cols`
/// floats each, in that order.
#[derive(Debug)]
pub struct Embeddings {
    pub batch: usize,
    pub seq_len: usize,
    pub n_cols: usize,
    pub numbers: Vec<u32>,
}

impl Embeddings {
    /// There are as many numbers as the sizes say.
    pub open spec fn wf(&self) -> bool {
        self.numbers@.len() == self.batch * self.seq_len * self.n_cols
    }

    /// Number `i` of token `s` of sequence `b`.
    pub open spec fn at(&self, b: int, s: int, i: int) -> u32 {
        self.numbers@[(b * self.seq_len + s) * self.n_cols + i]
    }
}

impl QuantizedEmbedding {
    /// Looks up the embeddings of a matrix of tokens, `batch` sequences of `seq_len` each,
    /// one sequence after the other. The first token without a readable row is reported.
    pub fn forward(&self, file: &[u8], tokens: &[u32], batch: usize, seq_len: usize) -> (found:
        Result<Embeddings, String>)
        requires
            self.wf(),
            self.data_offset + self.data_len <= file@.len(),
            tokens@.len() == batch * seq_len,
            elementwise(self.ggml_dtype, self.n_cols as nat) || tokens_error(
                *self,
                tokens@,
                tokens@.len(),
            ) is Some,
        ensures
            match found {
                Ok(e) => {
                    &&& tokens_error(*self, tokens@, tokens@.len()) is None
                    &&& e.wf()
                    &&& e.batch == batch
                    &&& e.seq_len == seq_len
                    &&& e.n_cols == self.n_cols
                    &&& forall|b: int, s: int, i: int|
                        0 <= b < batch && 0 <= s < seq_len && 0 <= i < self.n_cols ==> reads_as(
                            self.ggml_dtype,
                            #[trigger] e.at(b, s, i),
                            element(
                                self.ggml_dtype,
                                stored_row(*self, file@, tokens@[b * seq_len + s]),
                                self.n_cols as nat,
                                i,
                            ),
                        )
                },
                Err(msg) => tokens_error(*self, tokens@, tokens@.len()) == Some(msg@),
            },
    {
        let numbers = match self.lookup(file, tokens) {
            Ok(numbers) => numbers,
            Err(msg) => return Err(msg),
        };
        let found = Embeddings { batch, seq_len, n_cols: self.n_cols, numbers };
        proof {
            assert forall|b: int, s: int, i: int|
                0 <= b < batch && 0 <= s < seq_len && 0 <= i < self.n_cols implies reads_as(
                self.ggml_dtype,
                #[trigger] found.at(b, s, i),
                element(
                    self.ggml_dtype,
                    stored_row(*self, file@, tokens@[b * seq_len + s]),
                    self.n_cols as nat,
                    i,
                ),
            ) by {
                let t = b * seq_len + s;
                assert(0 <= t < batch * seq_len) by (nonlinear_arith)
                    requires
                        0 <= b < batch,
                        0 <= s < seq_len,
                        t == b * seq_len + s,
                ;
                assert(reads_as(
                    self.ggml_dtype,
                    found.numbers@[t * self.n_cols + i],
                    element(
                        self.ggml_dtype,
                        stored_row(*self, file@, tokens@[t]),
                        self.n_cols as nat,
                        i,
                    ),
                ));
            }
        }
        Ok(found)
    }

    /// Looks up the embeddings of `tokens`, one row of `n_cols` floats after the other.
    fn lookup(&self, file: &[u8], tokens: &[u32]) -> (rows: Result<Vec<u32>, String>)
        requires
            self.wf(),
            self.data_offset + self.data_len <= file@.len(),
            elementwise(self.ggml_dtype, self.n_cols as nat) || tokens_error(
                *self,
                tokens@,
                tokens@.len(),
            ) is Some,
        ensures
            match rows {
                Ok(v) => {
                    &&& tokens_error(*self, tokens@, tokens@.len()) is None
                    &&& v@.len() == tokens@.len() * self.n_cols
                    &&& forall|t: int, i: int|
                        #![trigger element(
                            self.ggml_dtype,
                            stored_row(*self, file@, tokens@[t]),
                            self.n_cols as nat,
                            i,
                        )]
                        0 <= t < tokens@.len() && 0 <= i < self.n_cols ==> reads_as(
                            self.ggml_dtype,
                            v@[t * self.n_cols + i],
                            element(
                                self.ggml_dtype,
                                stored_row(*self, file@, tokens@[t]),
                                self.n_cols as nat,
                                i,
                            ),
                        )
                },
                Err(msg) => tokens_error(*self, tokens@, tokens@.len()) == Some(msg@),
            },
    {
        let n: usize = self.n_cols;
        let mut rows: Vec<u32> = Vec::new();
        let mut t: usize = 0;
        while t < tokens.len()
            invariant
                t <= tokens@.len(),
                n == self.n_cols,
                self.wf(),
                self.data_offset + self.data_len <= file@.len(),
                elementwise(self.ggml_dtype, n as nat) || tokens_error(
                    *self,
                    tokens@,
                    tokens@.len(),
                ) is Some,
                tokens_error(*self, tokens@, t as nat) is None,
                elementwise(self.ggml_dtype, n as nat) ==> rows@.len() == t * n,
                elementwise(self.ggml_dtype, n as nat) ==> forall|k: int, i: int|
                    #![trigger element(
                        self.ggml_dtype,
                        stored_row(*self, file@, tokens@[k]),
                        n as nat,
                        i,
                    )]
                    0 <= k < t && 0 <= i < n ==> reads_as(
                        self.ggml_dtype,
                        rows@[k * n + i],
                        element(
                            self.ggml_dtype,
                            stored_row(*self, file@, tokens@[k]),
                            n as nat,
                            i,
                        ),
                    ),
            decreases tokens@.len() - t,
        {
            match self.row_range(tokens[t]) {
                Err(msg) => {
                    proof {
                        lemma_error_stays(*self, tokens@, (t + 1) as nat, tokens@.len());
                    }
                    return Err(msg);
                },
                Ok((from, to)) => {
                    if self.is_elementwise() {
                        let bytes = copy_range(file, from, to);
                        let row = read_row(self.ggml_dtype, &bytes, n);
                        assert(bytes@ == stored_row(*self, file@, tokens@[t as int]));
                        let ghost before = rows@;
                        append_row(&mut rows, &row);
                        proof {
                            assert(rows@ == before + row@);
                            assert(t * n + n == (t + 1) * n) by (nonlinear_arith);
                            assert forall|k: int, i: int|
                                #![trigger element(
                                    self.ggml_dtype,
                                    stored_row(*self, file@, tokens@[k]),
                                    n as nat,
                                    i,
                                )]
                                0 <= k < t + 1 && 0 <= i < n implies reads_as(
                                self.ggml_dtype,
                                rows@[k * n + i],
                                element(
                                    self.ggml_dtype,
                                    stored_row(*self, file@, tokens@[k]),
                                    n as nat,
                                    i,
                                ),
                            ) by {
                                assert(0 <= k * n) by (nonlinear_arith)
                                    requires
                                        k >= 0,
                                        n >= 0,
                                ;
                                if k < t {
                                    assert(k * n + i < t * n) by (nonlinear_arith)
                                        requires
                                            k + 1 <= t,
                                            i < n,
                                    ;
                                    assert(rows@[k * n + i] == before[k * n + i]);
                                } else {
                                    assert(rows@[k * n + i] == row@[i]);
                                }
                            }
                        }
                    }
                },
            }
            t += 1;
        }
        Ok(rows)
    }

    /// Tests whether rows can be read element by element.
    pub fn is_elementwise(&self) -> (yes: bool)
        ensures
            yes == elementwise(self.ggml_dtype, self.n_cols as nat),
    {
        match self.ggml_dtype {
            GgmlDType::F32 | GgmlDType::F16 | GgmlDType::BF16 => true,
            GgmlDType::Q4_0
            | GgmlDType::Q4_1
            | GgmlDType::Q5_0
            | GgmlDType::Q5_1
            | GgmlDType::Q8_0
            | GgmlDType::Q2K
            | GgmlDType::Q3K
            | GgmlDType::Q4K
            | GgmlDType::Q5K
            | GgmlDType::Q6K
            | GgmlDType::Q8K => self.n_cols % self.ggml_dtype.block_size() == 0 && self.n_cols
                <= isize::MAX as usize / 4,
            _ => false,
        }
    }
}

fn copy_range(file: &[u8], from: usize, to: usize) -> (bytes: Vec<u8>)
    requires
        from <= to <= file@.len(),
    ensures
        bytes@ == file@.subrange(from as int, to as int),
{
    let mut bytes: Vec<u8> = Vec::new();
    let mut i: usize = from;
    while i < to
        invariant
            from <= i <= to <= file@.len(),
            bytes@ == file@.subrange(from as int, i as int),
        decreases to - i,
    {
        bytes.push(file[i]);
        i += 1;
    }
    bytes
}

fn append_row(rows: &mut Vec<u32>, row: &Vec<u32>)
    ensures
        final(rows)@ == old(rows)@ + row@,
{
    let ghost start = rows@;
    let mut i: usize = 0;
    while i < row.len()
        invariant
            i <= row@.len(),
            rows@ == start + row@.take(i as int),
        decreases row@.len() - i,
    {
        rows.push(row[i]);
        assert(rows@ =~= start + row@.take(i + 1));
        i += 1;
    }
    assert(row@.take(row@.len() as int) =~= row@);
}

/// A format whose rows can be read is one whose rows give one float per element, and the
/// other way round; the blocks of the other formats are never taken apart.
pub proof fn law_readable_rows_are_elementwise(dtype: GgmlDType, cols: nat)
    requires
        cols % 256 == 0,
        4 * cols <= isize::MAX,
    ensures
        readable(dtype) <==> elementwise(dtype, cols),
        block_format(dtype) <==> readable(dtype) && block_elems(dtype) > 1,
{
    assert(cols % 32 == 0) by (nonlinear_arith)
        requires
            cols % 256 == 0,
    ;
}

/// Words are stored with the lowest byte first.
pub proof fn law_words_are_little_endian(bytes: Seq<u8>, i: int)
    ensures
        word(bytes, i) as int % 0x100 == bytes[4 * i],
        word(bytes, i) as int / 0x100 % 0x100 == bytes[4 * i + 1],
        word(bytes, i) as int / 0x1_0000 % 0x100 == bytes[4 * i + 2],
        word(bytes, i) as int / 0x100_0000 == bytes[4 * i + 3],
        half_word(bytes, i) as int % 0x100 == bytes[2 * i],
        half_word(bytes, i) as int / 0x100 == bytes[2 * i + 1],
{
}

/// The element of a row that is stored as plain floats is the word at its place.
pub proof fn law_plain_rows_are_read_by_place(bytes: Seq<u8>, cols: nat, i: int)
    ensures
        element(GgmlDType::F32, bytes, cols, i) == word(bytes, i),
        element(GgmlDType::F16, bytes, cols, i) == single_of_half(half_word(bytes, i)),
        element(GgmlDType::BF16, bytes, cols, i) == single_of_bfloat(half_word(bytes, i)),
{
}

proof fn lemma_floor_log2(n: nat)
    requires
        n > 0,
    ensures
        pow2(floor_log2(n)) <= n < 2 * pow2(floor_log2(n)),
    decreases n,
{
    lemma2_to64();
    if n > 1 {
        lemma_floor_log2(n / 2);
        lemma_pow2_unfold(1 + floor_log2(n / 2));
    }
}

/// The value of a half-precision float that is a number, in units of the smallest one
/// above zero, without its sign.
pub open spec fn half_size(bits: u16) -> int {
    let magnitude = bits as int % 0x8000;
    let exponent = magnitude / 1024;
    let fraction = magnitude % 1024;
    if exponent == 0 {
        fraction
    } else {
        (1024 + fraction) * pow2((exponent - 1) as nat)
    }
}

proof fn lemma_wide_value(exp: int, man: int)
    requires
        0 < exp < 255,
        0 <= man < 0x80_0000,
    ensures
        float_value((exp * 0x80_0000 + man) as u32) == (0x80_0000 + man) * pow2((exp - 1) as nat),
        float_value((0x8000_0000 + exp * 0x80_0000 + man) as u32) == -((0x80_0000 + man) * pow2(
            (exp - 1) as nat,
        )),
{
}

/// A half-precision number keeps its value and its sign when it is widened. The unit of
/// single precision is smaller by two to the power of 125.
pub proof fn law_halves_keep_their_value(bits: u16)
    requires
        bits as int % 0x8000 < 0x7c00,
    ensures
        single_of_half(bits) <= u32::MAX,
        float_value(single_of_half(bits) as u32) == (if bits < 0x8000 {
            half_size(bits) * pow2(125)
        } else {
            -(half_size(bits) * pow2(125))
        }),
        single_of_half(bits) >= 0x8000_0000 <==> bits >= 0x8000,
{
    let exp = bits as int / 1024 % 32;
    let man = bits as int % 1024;
    assert(bits as int % 0x8000 == exp * 1024 + man);
    assert(exp < 31);
    lemma2_to64();
    if exp > 0 {
        lemma_wide_value(exp + 112, man * 8192);
        let low = pow2((exp - 1) as nat) as int;
        vstd::arithmetic::power2::lemma_pow2_adds((exp - 1) as nat, 112);
        vstd::arithmetic::power2::lemma_pow2_adds(13, 112);
        let big = pow2(112) as int;
        assert((0x80_0000 + man * 8192) * (low * big) == ((1024 + man) * low) * (8192 * big))
            by (nonlinear_arith);
        assert(pow2((exp + 111) as nat) == low * big);
        assert(half_size(bits) == (1024 + man) * low);
    } else if man == 0 {
        assert(half_size(bits) == 0);
        assert(0 * pow2(125) == 0) by (nonlinear_arith);
    } else {
        let k = floor_log2(man as nat);
        lemma_floor_log2(man as nat);
        if k >= 10 {
            vstd::arithmetic::power2::lemma_pow2_adds((k - 10) as nat, 10);
            vstd::arithmetic::power2::lemma_pow2_pos((k - 10) as nat);
            assert(pow2(k) >= 1024) by (nonlinear_arith)
                requires
                    pow2(k) == pow2((k - 10) as nat) * 1024,
                    pow2((k - 10) as nat) >= 1,
            ;
        }
        let part = pow2(k) as int;
        let rest = pow2((23 - k) as nat) as int;
        vstd::arithmetic::power2::lemma_pow2_adds(k, (23 - k) as nat);
        vstd::arithmetic::power2::lemma_pow2_adds((23 - k) as nat, 102 + k);
        let fraction = (man - part) * rest;
        assert(part * rest == 0x80_0000);
        assert(0 <= fraction < 0x80_0000) by (nonlinear_arith)
            requires
                fraction == (man - part) * rest,
                part <= man < 2 * part,
                part * rest == 0x80_0000,
                rest >= 0,
        ;
        lemma_wide_value(103 + k as int, fraction);
        assert(0x80_0000 + fraction == man * rest) by (nonlinear_arith)
            requires
                fraction == (man - part) * rest,
                part * rest == 0x80_0000,
        ;
        let big = pow2((102 + k) as nat) as int;
        assert((man * rest) * big == man * (rest * big)) by (nonlinear_arith);
        assert(half_size(bits) == man);
    }
}

/// An infinity stays one when it is widened, and what is no number stays none, each with
/// its sign.
pub proof fn law_halves_that_are_no_numbers_stay_so(bits: u16)
    requires
        bits as int % 0x8000 >= 0x7c00,
    ensures
        single_of_half(bits) <= u32::MAX,
        bits as int % 0x8000 == 0x7c00 <==> single_of_half(bits) as int % 0x8000_0000
            == 0x7f80_0000,
        bits as int % 0x8000 > 0x7c00 <==> is_nan(single_of_half(bits) as u32),
        single_of_half(bits) >= 0x8000_0000 <==> bits >= 0x8000,
{
}

/// A short float is the upper half of the float that it is widened to, and the lower half
/// is zero. Only what is no number may change, and it stays none and keeps its sign.
pub proof fn law_bfloats_are_upper_halves(bits: u16)
    ensures
        single_of_bfloat(bits) <= u32::MAX,
        single_of_bfloat(bits) as int % 0x1_0000 == 0,
        bits as int % 0x8000 <= 0x7f80 ==> single_of_bfloat(bits) as int / 0x1_0000 == bits,
        bits as int % 0x8000 > 0x7f80 <==> is_nan(single_of_bfloat(bits) as u32),
        single_of_bfloat(bits) >= 0x8000_0000 <==> bits >= 0x8000,
{
}

/// A token's row is the part of the file that lies so many rows behind the table's
/// beginning.
pub proof fn law_stored_rows_follow_each_other(
    table: QuantizedEmbedding,
    file: Seq<u8>,
    token: u32,
    k: int,
)
    requires
        table.wf(),
        table.data_offset + table.data_len <= file.len(),
        token < table.n_rows,
        0 <= k < table.bytes_per_row,
    ensures
        stored_row(table, file, token).len() == table.bytes_per_row,
        stored_row(table, file, token)[k] == file.skip(table.data_offset as int)[token
            * table.bytes_per_row + k],
{
    assert(token * table.bytes_per_row + table.bytes_per_row <= table.n_rows * table.bytes_per_row)
        by (nonlinear_arith)
        requires
            token + 1 <= table.n_rows,
    ;
    assert(0 <= token * table.bytes_per_row) by (nonlinear_arith);
}

/// A number is read back exactly, whatever its format; only what is no number may differ
/// in its bits, and it stays none.
pub proof fn law_numbers_are_read_exactly(dtype: GgmlDType, bits: u32, element: u32)
    requires
        reads_as(dtype, bits, element as nat),
    ensures
        !is_nan(bits) || !is_nan(element) ==> bits == element,
        is_nan(bits) <==> is_nan(element),
        dtype == GgmlDType::F32 || dtype == GgmlDType::F16 || dtype == GgmlDType::BF16 ==> bits
            == element,
{
}

} // verus!
