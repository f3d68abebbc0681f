//! Columnar ingestion layer.
//!
//! A foreign producer hands over a columnar table through a fixed layout
//! contract: a table is an array of columns, a column a named, type-tagged
//! array of chunks, a chunk an array of sub-chunks, and a sub-chunk a flat
//! byte buffer holding `num_of_items` elements (for string data, parallel
//! offset/length tables give each item's byte range). The descriptor types
//! here carry that layout as plain values; reconstruction is the direct,
//! non-filtering, non-reordering bottom-up mapping of descriptors to typed
//! views, 1:1 at every level.
//!
//! The declared counts matching the buffers, and string ranges lying
//! within them and holding valid UTF-8, are preconditions of the boundary.
//! The count and range parts are stated here as well-formedness
//! predicates, demanded by reconstruction and checkable by a caller;
//! UTF-8 validity is never locally verified, so string items stay byte
//! sequences.
use vstd::prelude::*;

verus! {

/// Element type tag of a column, as declared by the foreign descriptor.
#[derive(Debug, PartialEq, Eq, Clone, Copy)]
pub enum ExternalDataType {
    Int,
    Float,
    String,
}

/// Sub-chunk descriptor: a flat data buffer and a declared item count;
/// for string data, parallel offset/length tables. For numeric data the
/// offset/length tables are unused and empty.
#[derive(Debug, PartialEq)]
pub struct ExternalSubChunkView {
    pub data: Vec<u8>,
    pub offsets: Vec<usize>,
    pub lengths: Vec<usize>,
    pub num_of_items: usize,
}

impl ExternalSubChunkView {
    /// Boundary precondition for 4-byte numeric elements: the buffer
    /// holds exactly the declared number of them.
    pub open spec fn wf_numeric(self) -> bool {
        self.data@.len() == 4 * self.num_of_items
    }

    /// Boundary precondition for string elements: one offset and one
    /// length per declared item, each byte range within the buffer.
    pub open spec fn wf_string(self) -> bool {
        &&& self.offsets@.len() == self.num_of_items
        &&& self.lengths@.len() == self.num_of_items
        &&& forall|i: int| 0 <= i < self.num_of_items
            ==> (#[trigger] self.offsets@[i]) + self.lengths@[i] <= self.data@.len()
    }
}

/// The 32-bit word at element position `i` of a little-endian buffer.
pub open spec fn le_word_at(data: Seq<u8>, i: int) -> u32 {
    (data[4 * i] as u32) | ((data[4 * i + 1] as u32) << 8) | ((data[4 * i + 2] as u32) << 16) | ((
    data[4 * i + 3] as u32) << 24)
}

/// The int32 elements a numeric sub-chunk descriptor denotes.
pub open spec fn int_values_of(d: ExternalSubChunkView) -> Seq<i32> {
    Seq::new(d.num_of_items as nat, |i: int| le_word_at(d.data@, i) as i32)
}

/// The float32 elements a numeric sub-chunk descriptor denotes, as raw
/// 32-bit patterns: reconstruction is bit-preserving and never interprets
/// them numerically.
pub open spec fn float_values_of(d: ExternalSubChunkView) -> Seq<u32> {
    Seq::new(d.num_of_items as nat, |i: int| le_word_at(d.data@, i))
}

/// The string elements a string sub-chunk descriptor denotes: item `i` is
/// the byte range `data[offsets[i] .. offsets[i] + lengths[i]]`. Offsets
/// need not be monotonic, packed, or non-overlapping.
pub open spec fn string_values_of(d: ExternalSubChunkView) -> Seq<Seq<u8>> {
    Seq::new(
        d.num_of_items as nat,
        |i: int|
            d.data@.subrange(
                d.offsets@[i] as int,
                d.offsets@[i] + d.lengths@[i],
            ),
    )
}

/// Read the 32-bit little-endian word at element position `i`.
fn le_word(data: &Vec<u8>, i: usize) -> (w: u32)
    requires
        4 * i + 4 <= data@.len(),
    ensures
        w == le_word_at(data@, i as int),
{
    let dlen = data.len();
    assert(4 * i + 4 <= dlen);
    let b0 = data[4 * i];

    let b1 = data[4 * i + 1];
    let b2 = data[4 * i + 2];
    let b3 = data[4 * i + 3];
    (b0 as u32) | ((b1 as u32) << 8) | ((b2 as u32) << 16) | ((b3 as u32) << 24)
}

/// Int32 elements of one sub-chunk.
pub type IntValues = Vec<i32>;

/// Float32 elements of one sub-chunk, kept as raw 32-bit patterns so that
/// every value, NaN included, reads back bit for bit.
pub type FloatValues = Vec<u32>;

/// String elements of one sub-chunk, as byte sequences; their UTF-8
/// validity is a precondition of the boundary, not checked here.
pub type StringValues = Vec<Vec<u8>>;

/// A contiguous run of values within a chunk.
#[derive(Debug, PartialEq)]
pub struct SubChunk<T> {
    pub values: T,
}

/// One possibly non-contiguous piece of a column.
#[derive(Debug, PartialEq)]
pub struct Chunk<T> {
    pub sub_chunks: Vec<SubChunk<T>>,
}

impl SubChunk<IntValues> {
    /// Reconstruct an int32 sub-chunk: exactly `num_of_items` elements
    /// read at 4-byte width from the raw buffer, in order.
    pub fn from_external(sub_chunk: &ExternalSubChunkView) -> (r: Self)
        requires
            sub_chunk.wf_numeric(),
        ensures
            r.values@ == int_values_of(*sub_chunk),
    {
        let mut values: Vec<i32> = Vec::new();
        let n = sub_chunk.num_of_items;
        for i in 0..n
            invariant
                n == sub_chunk.num_of_items,
                sub_chunk.wf_numeric(),
                values@.len() == i,
                forall|k: int| 0 <= k < i ==> values@[k] == int_values_of(*sub_chunk)[k],
        {
            let w = le_word(&sub_chunk.data, i);
            values.push(#[verifier::truncate] (w as i32));
        }
        proof {
            assert(values@ =~= int_values_of(*sub_chunk));
        }
        SubChunk { values }
    }
}

impl SubChunk<FloatValues> {
    /// Reconstruct a float32 sub-chunk: exactly `num_of_items` raw 32-bit
    /// patterns read from the raw buffer, in order, bit-preserving.
    pub fn from_external(sub_chunk: &ExternalSubChunkView) -> (r: Self)
        requires
            sub_chunk.wf_numeric(),
        ensures
            r.values@ == float_values_of(*sub_chunk),
    {
        let mut values: Vec<u32> = Vec::new();
        let n = sub_chunk.num_of_items;
        for i in 0..n
            invariant
                n == sub_chunk.num_of_items,
                sub_chunk.wf_numeric(),
                values@.len() == i,
                forall|k: int| 0 <= k < i ==> values@[k] == float_values_of(*sub_chunk)[k],
        {
            let w = le_word(&sub_chunk.data, i);
            values.push(w);
        }
        proof {
            assert(values@ =~= float_values_of(*sub_chunk));
        }
        SubChunk { values }
    }
}

impl SubChunk<StringValues> {
    /// Reconstruct a string sub-chunk: item `i` is the byte range
    /// `data[offsets[i] .. offsets[i] + lengths[i]]`, taken as it stands.
    pub fn from_external(sub_chunk: &ExternalSubChunkView) -> (r: Self)
        requires
            sub_chunk.wf_string(),
        ensures
            r.values@.len() == sub_chunk.num_of_items,
            forall|i: int| 0 <= i < sub_chunk.num_of_items
                ==> (#[trigger] r.values@[i])@ == string_values_of(*sub_chunk)[i],
    {
        let mut values: Vec<Vec<u8>> = Vec::new();
        let n = sub_chunk.num_of_items;
        for i in 0..n
            invariant
                n == sub_chunk.num_of_items,
                sub_chunk.wf_string(),
                values@.len() == i,
                forall|k: int| 0 <= k < i
                    ==> (#[trigger] values@[k])@ == string_values_of(*sub_chunk)[k],
        {
            let off = sub_chunk.offsets[i];
            let len = sub_chunk.lengths[i];
            let dlen = sub_chunk.data.len();
            let mut item: Vec<u8> = Vec::new();
            for j in 0..len
                invariant
                    off + len <= dlen,
                    dlen == sub_chunk.data@.len(),
                    item@.len() == j,
                    forall|t: int| 0 <= t < j ==> item@[t] == sub_chunk.data@[off + t],
            {
                item.push(sub_chunk.data[off + j]);
            }
            proof {
                assert(item@ =~= string_values_of(*sub_chunk)[i as int]);
            }
            values.push(item);
        }
        SubChunk { values }
    }
}

/// Chunk descriptor: an array of sub-chunk descriptors, a declared count,
/// a type tag, and a reserved `referenced_chunks` table. The table is
/// intended for future chunk aliasing and de-duplication; it is carried
/// through but never resolved, and nothing downstream reads it yet.
#[derive(Debug, PartialEq)]
pub struct ExternalChunkView {
    pub sub_chunks: Vec<ExternalSubChunkView>,
    pub referenced_chunks: Vec<usize>,
    pub num_of_sub_chunks: usize,
    pub data_type: ExternalDataType,
}

impl ExternalChunkView {
    /// Count matches, and every sub-chunk holds numeric data.
    pub open spec fn wf_numeric(self) -> bool {
        &&& self.sub_chunks@.len() == self.num_of_sub_chunks
        &&& forall|i: int| 0 <= i < self.sub_chunks@.len()
            ==> (#[trigger] self.sub_chunks@[i]).wf_numeric()
    }

    /// Count matches, and every sub-chunk holds string data.
    pub open spec fn wf_string(self) -> bool {
        &&& self.sub_chunks@.len() == self.num_of_sub_chunks
        &&& forall|i: int| 0 <= i < self.sub_chunks@.len()
            ==> (#[trigger] self.sub_chunks@[i]).wf_string()
    }
}

/// An int32 chunk reconstructs its descriptor: one sub-chunk per
/// sub-chunk descriptor, in order, each denoting the same elements.
pub open spec fn int_chunk_ok(d: ExternalChunkView, c: Chunk<IntValues>) -> bool {
    &&& c.sub_chunks@.len() == d.sub_chunks@.len()
    &&& forall|i: int| 0 <= i < d.sub_chunks@.len()
        ==> (#[trigger] c.sub_chunks@[i]).values@ == int_values_of(d.sub_chunks@[i])
}

/// A float32 chunk reconstructs its descriptor, bit for bit.
pub open spec fn float_chunk_ok(d: ExternalChunkView, c: Chunk<FloatValues>) -> bool {
    &&& c.sub_chunks@.len() == d.sub_chunks@.len()
    &&& forall|i: int| 0 <= i < d.sub_chunks@.len()
        ==> (#[trigger] c.sub_chunks@[i]).values@ == float_values_of(d.sub_chunks@[i])
}

/// A string chunk reconstructs its descriptor, byte range for byte range.
pub open spec fn string_chunk_ok(d: ExternalChunkView, c: Chunk<StringValues>) -> bool {
    &&& c.sub_chunks@.len() == d.sub_chunks@.len()
    &&& forall|i: int, j: int|
        0 <= i < d.sub_chunks@.len() && 0 <= j < d.sub_chunks@[i].num_of_items ==> {
            &&& (#[trigger] c.sub_chunks@[i].values@[j])@ == string_values_of(d.sub_chunks@[i])[j]
        }
    &&& forall|i: int| 0 <= i < d.sub_chunks@.len()
        ==> (#[trigger] c.sub_chunks@[i]).values@.len() == d.sub_chunks@[i].num_of_items
}

impl Chunk<IntValues> {
    /// Reconstruct an int32 chunk: exactly one sub-chunk per descriptor,
    /// declared order kept.
    pub fn from_external(chunk: &ExternalChunkView) -> (r: Self)
        requires
            chunk.wf_numeric(),
        ensures
            int_chunk_ok(*chunk, r),
    {
        let mut sub_chunks: Vec<SubChunk<IntValues>> = Vec::new();
        let n = chunk.sub_chunks.len();
        for i in 0..n
            invariant
                n == chunk.sub_chunks@.len(),
                chunk.wf_numeric(),
                sub_chunks@.len() == i,
                forall|k: int| 0 <= k < i
                    ==> (#[trigger] sub_chunks@[k]).values@ == int_values_of(chunk.sub_chunks@[k]),
        {
            sub_chunks.push(SubChunk::<IntValues>::from_external(&chunk.sub_chunks[i]));
        }
        Chunk { sub_chunks }
    }
}

impl Chunk<FloatValues> {
    /// Reconstruct a float32 chunk: exactly one sub-chunk per descriptor,
    /// declared order kept.
    pub fn from_external(chunk: &ExternalChunkView) -> (r: Self)
        requires
            chunk.wf_numeric(),
        ensures
            float_chunk_ok(*chunk, r),
    {
        let mut sub_chunks: Vec<SubChunk<FloatValues>> = Vec::new();
        let n = chunk.sub_chunks.len();
        for i in 0..n
            invariant
                n == chunk.sub_chunks@.len(),
                chunk.wf_numeric(),
                sub_chunks@.len() == i,
                forall|k: int| 0 <= k < i
                    ==> (#[trigger] sub_chunks@[k]).values@ == float_values_of(
                    chunk.sub_chunks@[k]),
        {
            sub_chunks.push(SubChunk::<FloatValues>::from_external(&chunk.sub_chunks[i]));
        }
        Chunk { sub_chunks }
    }
}

impl Chunk<StringValues> {
    /// Reconstruct a string chunk: exactly one sub-chunk per descriptor,
    /// declared order kept.
    pub fn from_external(chunk: &ExternalChunkView) -> (r: Self)
        requires
            chunk.wf_string(),
        ensures
            string_chunk_ok(*chunk, r),
    {
        let mut sub_chunks: Vec<SubChunk<StringValues>> = Vec::new();
        let n = chunk.sub_chunks.len();
        for i in 0..n
            invariant
                n == chunk.sub_chunks@.len(),
                chunk.wf_string(),
                sub_chunks@.len() == i,
                forall|k: int| 0 <= k < i
                    ==> (#[trigger] sub_chunks@[k]).values@.len()
                        == chunk.sub_chunks@[k].num_of_items,
                forall|k: int, j: int|
                    0 <= k < i && 0 <= j < chunk.sub_chunks@[k].num_of_items
                        ==> (#[trigger] sub_chunks@[k].values@[j])@ == string_values_of(
                        chunk.sub_chunks@[k])[j],
        {
            sub_chunks.push(SubChunk::<StringValues>::from_external(&chunk.sub_chunks[i]));
        }
        Chunk { sub_chunks }
    }
}
/// Column descriptor: name bytes with a declared length, an array of
/// chunk descriptors with a declared count, and the element type tag.
#[derive(Debug, PartialEq)]
pub struct ExternalColumnView {
    pub name: Vec<u8>,
    pub name_len: usize,
    pub chunks: Vec<ExternalChunkView>,
    pub num_of_chunks: usize,
    pub data_type: ExternalDataType,
}

impl ExternalColumnView {
    /// Declared counts match, and every chunk fits the column's type tag.
    pub open spec fn wf(self) -> bool {
        &&& self.name@.len() == self.name_len
        &&& self.chunks@.len() == self.num_of_chunks
        &&& match self.data_type {
            ExternalDataType::Int => forall|i: int|
                0 <= i < self.chunks@.len() ==> (#[trigger] self.chunks@[i]).wf_numeric(),
            ExternalDataType::Float => forall|i: int|
                0 <= i < self.chunks@.len() ==> (#[trigger] self.chunks@[i]).wf_numeric(),
            ExternalDataType::String => forall|i: int|
                0 <= i < self.chunks@.len() ==> (#[trigger] self.chunks@[i]).wf_string(),
        }
    }
}

/// A column's chunks, tagged by the column's element type.
#[derive(Debug, PartialEq)]
pub enum ChunkViews {
    Int(Vec<Chunk<IntValues>>),
    Float(Vec<Chunk<FloatValues>>),
    String(Vec<Chunk<StringValues>>),
}

/// A reconstructed column: its name bytes and its typed chunks. The name
/// is UTF-8 by boundary precondition, carried here as bytes.
#[derive(Debug, PartialEq)]
pub struct ColumnView {
    pub name: Vec<u8>,
    pub chunks: ChunkViews,
}

/// A column view reconstructs its descriptor: same name, the tag the
/// descriptor declared, and chunk for chunk the same contents in the
/// same order.
pub open spec fn column_view_ok(d: ExternalColumnView, c: ColumnView) -> bool {
    &&& c.name@ == d.name@
    &&& match d.data_type {
        ExternalDataType::Int => {
            &&& c.chunks matches ChunkViews::Int(cs)
            &&& cs@.len() == d.chunks@.len()
            &&& forall|i: int| 0 <= i < d.chunks@.len()
                ==> int_chunk_ok(d.chunks@[i], #[trigger] cs@[i])
        },
        ExternalDataType::Float => {
            &&& c.chunks matches ChunkViews::Float(cs)
            &&& cs@.len() == d.chunks@.len()
            &&& forall|i: int| 0 <= i < d.chunks@.len()
                ==> float_chunk_ok(d.chunks@[i], #[trigger] cs@[i])
        },
        ExternalDataType::String => {
            &&& c.chunks matches ChunkViews::String(cs)
            &&& cs@.len() == d.chunks@.len()
            &&& forall|i: int| 0 <= i < d.chunks@.len()
                ==> string_chunk_ok(d.chunks@[i], #[trigger] cs@[i])
        },
    }
}

/// Copy a byte buffer, element for element.
fn copy_bytes(src: &Vec<u8>) -> (r: Vec<u8>)
    ensures
        r@ == src@,
{
    let mut r: Vec<u8> = Vec::new();
    let n = src.len();
    for i in 0..n
        invariant
            n == src@.len(),
            r@.len() == i,
            forall|k: int| 0 <= k < i ==> r@[k] == src@[k],
    {
        r.push(src[i]);
    }
    proof {
        assert(r@ =~= src@);
    }
    r
}

fn convert_int_chunks(external_chunks: &Vec<ExternalChunkView>) -> (r: Vec<Chunk<IntValues>>)
    requires
        forall|i: int| 0 <= i < external_chunks@.len()
            ==> (#[trigger] external_chunks@[i]).wf_numeric(),
    ensures
        r@.len() == external_chunks@.len(),
        forall|i: int| 0 <= i < external_chunks@.len()
            ==> int_chunk_ok(external_chunks@[i], #[trigger] r@[i]),
{
    let mut r: Vec<Chunk<IntValues>> = Vec::new();
    let n = external_chunks.len();
    for i in 0..n
        invariant
            n == external_chunks@.len(),
            forall|k: int| 0 <= k < n ==> (#[trigger] external_chunks@[k]).wf_numeric(),
            r@.len() == i,
            forall|k: int| 0 <= k < i ==> int_chunk_ok(external_chunks@[k], #[trigger] r@[k]),
    {
        r.push(Chunk::<IntValues>::from_external(&external_chunks[i]));
    }
    r
}

fn convert_float_chunks(external_chunks: &Vec<ExternalChunkView>) -> (r: Vec<Chunk<FloatValues>>)
    requires
        forall|i: int| 0 <= i < external_chunks@.len()
            ==> (#[trigger] external_chunks@[i]).wf_numeric(),
    ensures
        r@.len() == external_chunks@.len(),
        forall|i: int| 0 <= i < external_chunks@.len()
            ==> float_chunk_ok(external_chunks@[i], #[trigger] r@[i]),
{
    let mut r: Vec<Chunk<FloatValues>> = Vec::new();
    let n = external_chunks.len();
    for i in 0..n
        invariant
            n == external_chunks@.len(),
            forall|k: int| 0 <= k < n ==> (#[trigger] external_chunks@[k]).wf_numeric(),
            r@.len() == i,
            forall|k: int| 0 <= k < i ==> float_chunk_ok(external_chunks@[k], #[trigger] r@[k]),
    {
        r.push(Chunk::<FloatValues>::from_external(&external_chunks[i]));
    }
    r
}

fn convert_string_chunks(external_chunks: &Vec<ExternalChunkView>) -> (r: Vec<Chunk<StringValues>>)
    requires
        forall|i: int| 0 <= i < external_chunks@.len()
            ==> (#[trigger] external_chunks@[i]).wf_string(),
    ensures
        r@.len() == external_chunks@.len(),
        forall|i: int| 0 <= i < external_chunks@.len()
            ==> string_chunk_ok(external_chunks@[i], #[trigger] r@[i]),
{
    let mut r: Vec<Chunk<StringValues>> = Vec::new();
    let n = external_chunks.len();
    for i in 0..n
        invariant
            n == external_chunks@.len(),
            forall|k: int| 0 <= k < n ==> (#[trigger] external_chunks@[k]).wf_string(),
            r@.len() == i,
            forall|k: int| 0 <= k < i ==> string_chunk_ok(external_chunks@[k], #[trigger] r@[k]),
    {
        r.push(Chunk::<StringValues>::from_external(&external_chunks[i]));
    }
    r
}

impl ColumnView {
    /// Reconstruct a column: its name as declared, and its chunks
    /// converted 1:1 under the element type the descriptor declares.
    pub fn from_external(column: &ExternalColumnView) -> (r: Self)
        requires
            column.wf(),
        ensures
            column_view_ok(*column, r),
    {
        let name = copy_bytes(&column.name);
        let chunks = match column.data_type {
            ExternalDataType::Int => ChunkViews::Int(convert_int_chunks(&column.chunks)),
            ExternalDataType::Float => ChunkViews::Float(convert_float_chunks(&column.chunks)),
            ExternalDataType::String => ChunkViews::String(convert_string_chunks(&column.chunks)),
        };
        ColumnView { name, chunks }
    }
}

/// Table descriptor: an array of column descriptors and a declared count.
#[derive(Debug, PartialEq)]
pub struct ExternalTableView {
    pub columns: Vec<ExternalColumnView>,
    pub num_of_columns: usize,
}

impl ExternalTableView {
    /// Declared count matches, and every column descriptor is well formed.
    pub open spec fn wf(self) -> bool {
        &&& self.columns@.len() == self.num_of_columns
        &&& forall|i: int| 0 <= i < self.columns@.len() ==> (#[trigger] self.columns@[i]).wf()
    }
}

/// A reconstructed table: its columns, in declared order.
#[derive(Debug, PartialEq)]
pub struct TableView {
    pub columns: Vec<ColumnView>,
}

impl TableView {
    /// Reconstruct a table: one column view per column descriptor, in
    /// declared order, each preserving name, type tag, and contents.
    pub fn from_external(table: &ExternalTableView) -> (r: Self)
        requires
            table.wf(),
        ensures
            r.columns@.len() == table.columns@.len(),
            forall|i: int| 0 <= i < table.columns@.len()
                ==> column_view_ok(table.columns@[i], #[trigger] r.columns@[i]),
    {
        let mut columns: Vec<ColumnView> = Vec::new();
        let n = table.columns.len();
        for i in 0..n
            invariant
                n == table.columns@.len(),
                table.wf(),
                columns@.len() == i,
                forall|k: int| 0 <= k < i
                    ==> column_view_ok(table.columns@[k], #[trigger] columns@[k]),
        {
            columns.push(ColumnView::from_external(&table.columns[i]));
        }
        TableView { columns }
    }
}
/// The four little-endian bytes of a 32-bit word.
pub open spec fn le_bytes_of(w: u32) -> Seq<u8> {
    seq![w as u8, (w >> 8) as u8, (w >> 16) as u8, (w >> 24) as u8]
}

/// Splitting a word into its four little-endian bytes and reassembling
/// them gives the word back.
proof fn lemma_le_word_of_bytes(w: u32)
    ensures
        ((w as u8) as u32) | ((((w >> 8) as u8) as u32) << 8) | ((((w >> 16) as u8) as u32) << 16)
            | ((((w >> 24) as u8) as u32) << 24) == w,
{
    assert(((w as u8) as u32) | ((((w >> 8) as u8) as u32) << 8) | ((((w >> 16) as u8) as u32)
        << 16) | ((((w >> 24) as u8) as u32) << 24) == w) by (bit_vector);
}

/// Concatenate 32-bit words into a little-endian byte buffer, 4 bytes per
/// word.
fn pack_le_words(words: &Vec<u32>) -> (data: Vec<u8>)
    ensures
        data@.len() == 4 * words@.len(),
        forall|k: int| 0 <= k < words@.len() ==> le_word_at(data@, k) == words@[k],
{
    let mut data: Vec<u8> = Vec::new();
    let n = words.len();
    for i in 0..n
        invariant
            n == words@.len(),
            data@.len() == 4 * i,
            forall|k: int| 0 <= k < i ==> le_word_at(data@, k) == words@[k],
    {
        let w = words[i];
        let ghost data0 = data@;
        data.push(#[verifier::truncate] (w as u8));
        data.push(#[verifier::truncate] ((w >> 8) as u8));
        data.push(#[verifier::truncate] ((w >> 16) as u8));
        data.push(#[verifier::truncate] ((w >> 24) as u8));
        proof {
            assert(data@ =~= data0 + le_bytes_of(w));
            lemma_le_word_of_bytes(w);
            assert(le_word_at(data@, i as int) == w);
            assert forall|k: int| 0 <= k < i implies le_word_at(data@, k) == words@[k] by {
                assert(le_word_at(data0, k) == words@[k]);
            }
        }
    }
    data
}

/// Pack int32 values into one numeric sub-chunk descriptor: 4 bytes per
/// element, little endian, in order. The descriptor denotes exactly the
/// given values.
pub fn pack_int_sub_chunk(values: &Vec<i32>) -> (d: ExternalSubChunkView)
    ensures
        d.wf_numeric(),
        d.num_of_items == values@.len(),
        int_values_of(d) == values@,
{
    let mut words: Vec<u32> = Vec::new();
    let n = values.len();
    for i in 0..n
        invariant
            n == values@.len(),
            words@.len() == i,
            forall|k: int| 0 <= k < i ==> words@[k] == values@[k] as u32,
    {
        words.push(#[verifier::truncate] (values[i] as u32));
    }
    let data = pack_le_words(&words);
    let d = ExternalSubChunkView {
        data,
        offsets: Vec::new(),
        lengths: Vec::new(),
        num_of_items: n,
    };
    proof {
        assert forall|k: int| 0 <= k < n implies int_values_of(d)[k] == values@[k] by {
            let v = values@[k];
            assert(((v as u32) as i32) == v) by (bit_vector);
        }
        assert(int_values_of(d) =~= values@);
    }
    d
}

/// Pack float32 bit patterns into one numeric sub-chunk descriptor:
/// 4 bytes per element, little endian, in order, bit-preserving. The
/// descriptor denotes exactly the given patterns.
pub fn pack_float_sub_chunk(bits: &Vec<u32>) -> (d: ExternalSubChunkView)
    ensures
        d.wf_numeric(),
        d.num_of_items == bits@.len(),
        float_values_of(d) == bits@,
{
    let data = pack_le_words(bits);
    let n = bits.len();
    let d = ExternalSubChunkView {
        data,
        offsets: Vec::new(),
        lengths: Vec::new(),
        num_of_items: n,
    };
    proof {
        assert(float_values_of(d) =~= bits@);
    }
    d
}

/// Append all of `src` to `dst`.
fn append_bytes(dst: &mut Vec<u8>, src: &Vec<u8>)
    ensures
        final(dst)@ == old(dst)@ + src@,
{
    let n = src.len();
    for j in 0..n
        invariant
            n == src@.len(),
            dst@ == old(dst)@ + src@.subrange(0, j as int),
    {
        dst.push(src[j]);
        proof {
            assert(dst@ =~= old(dst)@ + src@.subrange(0, j + 1));
        }
    }
    proof {
        assert(old(dst)@ + src@.subrange(0, n as int) =~= old(dst)@ + src@);
    }
}

/// Pack string items into one string sub-chunk descriptor by
/// concatenating their bytes and recording each item's offset and
/// length. The descriptor denotes exactly the given items, in order;
/// empty items are kept as empty ranges.
pub fn pack_string_sub_chunk(items: &Vec<Vec<u8>>) -> (d: ExternalSubChunkView)
    ensures
        d.wf_string(),
        d.num_of_items == items@.len(),
        forall|i: int| 0 <= i < items@.len()
            ==> string_values_of(d)[i] == (#[trigger] items@[i])@,
{
    let mut data: Vec<u8> = Vec::new();
    let mut offsets: Vec<usize> = Vec::new();
    let mut lengths: Vec<usize> = Vec::new();
    let n = items.len();
    for i in 0..n
        invariant
            n == items@.len(),
            offsets@.len() == i,
            lengths@.len() == i,
            forall|k: int| 0 <= k < i
                ==> (#[trigger] offsets@[k]) + lengths@[k] <= data@.len(),
            forall|k: int| 0 <= k < i
                ==> data@.subrange(offsets@[k] as int, offsets@[k] + lengths@[k]) == (
                #[trigger] items@[k])@,
    {
        let off = data.len();
        let len = items[i].len();
        offsets.push(off);
        lengths.push(len);
        let ghost data0 = data@;
        append_bytes(&mut data, &items[i]);
        proof {
            assert(data@.subrange(off as int, off + len) =~= items@[i as int]@);
            assert forall|k: int| 0 <= k < i implies data@.subrange(
                offsets@[k] as int,
                offsets@[k] + lengths@[k],
            ) == (#[trigger] items@[k])@ by {
                assert(data@.subrange(offsets@[k] as int, offsets@[k] + lengths@[k])
                    =~= data0.subrange(offsets@[k] as int, offsets@[k] + lengths@[k]));
            }
        }
    }
    let d = ExternalSubChunkView { data, offsets, lengths, num_of_items: n };
    d
}

/// A numeric sub-chunk whose buffer is the concatenation of the
/// little-endian bytes of a sequence of words reconstructs, word for
/// word, to exactly that sequence.
pub proof fn lemma_le_words_round_trip(data: Seq<u8>, words: Seq<u32>)
    requires
        data.len() == 4 * words.len(),
        forall|k: int| 0 <= k < words.len()
            ==> data.subrange(4 * k, 4 * k + 4) == le_bytes_of(#[trigger] words[k]),
    ensures
        forall|k: int| 0 <= k < words.len() ==> le_word_at(data, k) == words[k],
{
    assert forall|k: int| 0 <= k < words.len() implies le_word_at(data, k) == words[k] by {
        let w = words[k];
        assert(data.subrange(4 * k, 4 * k + 4) == le_bytes_of(w));
        assert(data[4 * k] == le_bytes_of(w)[0]);
        assert(data[4 * k + 1] == le_bytes_of(w)[1]);
        assert(data[4 * k + 2] == le_bytes_of(w)[2]);
        assert(data[4 * k + 3] == le_bytes_of(w)[3]);
        lemma_le_word_of_bytes(w);
    }
}

/// Law: for any int32 sequence packed into one sub-chunk descriptor --
/// 4 little-endian bytes per element, count matching -- reconstruction
/// denotes exactly that sequence.
pub proof fn lemma_int_sub_chunk_round_trip(d: ExternalSubChunkView, vals: Seq<i32>)
    requires
        d.num_of_items == vals.len(),
        d.data@.len() == 4 * vals.len(),
        forall|k: int| 0 <= k < vals.len()
            ==> d.data@.subrange(4 * k, 4 * k + 4) == le_bytes_of((#[trigger] vals[k]) as u32),
    ensures
        d.wf_numeric(),
        int_values_of(d) == vals,
{
    let words = Seq::new(vals.len(), |k: int| vals[k] as u32);
    lemma_le_words_round_trip(d.data@, words);
    assert forall|k: int| 0 <= k < vals.len() implies int_values_of(d)[k] == vals[k] by {
        let v = vals[k];
        assert(d.data@.subrange(4 * k, 4 * k + 4) == le_bytes_of(words[k]));
        assert(((v as u32) as i32) == v) by (bit_vector);
    }
    assert(int_values_of(d) =~= vals);
}

/// Law: for any float32 sequence packed into one sub-chunk descriptor,
/// reconstruction denotes exactly the input's bit patterns; every value,
/// NaN included, reads back as itself.
pub proof fn lemma_float_sub_chunk_round_trip(d: ExternalSubChunkView, bits: Seq<u32>)
    requires
        d.num_of_items == bits.len(),
        d.data@.len() == 4 * bits.len(),
        forall|k: int| 0 <= k < bits.len()
            ==> d.data@.subrange(4 * k, 4 * k + 4) == le_bytes_of(#[trigger] bits[k]),
    ensures
        d.wf_numeric(),
        float_values_of(d) == bits,
{
    lemma_le_words_round_trip(d.data@, bits);
    assert(float_values_of(d) =~= bits);
}

/// The one locally-checked ingestion error: the path holds an embedded
/// null byte and cannot cross the boundary as a null-terminated string.
#[derive(Debug, PartialEq, Eq, Clone, Copy)]
pub struct PathEncodingError;

/// Validate an ingestion path before it crosses the boundary: it must
/// hold no embedded null byte. This is the only error the ingestion
/// layer detects itself; everything else is a precondition of the
/// boundary.
pub fn validate_path(path: &Vec<u8>) -> (r: Result<(), PathEncodingError>)
    ensures
        r is Ok <==> forall|i: int| 0 <= i < path@.len() ==> path@[i] != 0,
{
    let n = path.len();
    for i in 0..n
        invariant
            n == path@.len(),
            forall|k: int| 0 <= k < i ==> path@[k] != 0,
    {
        if path[i] == 0 {
            return Result::Err(PathEncodingError);
        }
    }
    Result::Ok(())
}
} // verus!
