use query_engine::external::{
    pack_float_sub_chunk, pack_int_sub_chunk, pack_string_sub_chunk, validate_path, Chunk,
    ChunkViews, ColumnView, ExternalChunkView, ExternalColumnView, ExternalDataType,
    ExternalSubChunkView, ExternalTableView, FloatValues, IntValues, PathEncodingError,
    StringValues, SubChunk, TableView,
};

fn string_items(strings: Vec<&str>) -> Vec<Vec<u8>> {
    strings.iter().map(|s| s.as_bytes().to_vec()).collect()
}

#[test]
fn test_int_subchunk_conversion() {
    let values: Vec<i32> = vec![1, 2, 3, 4, 5];
    let external_subchunk = pack_int_sub_chunk(&values);
    let subchunk: SubChunk<IntValues> = SubChunk::<IntValues>::from_external(&external_subchunk);
    assert_eq!(subchunk.values, &[1, 2, 3, 4, 5]);
}

#[test]
fn test_float_subchunk_conversion() {
    let floats: Vec<f32> = vec![1.0, 2.5, 3.7];
    let bits: Vec<u32> = floats.iter().map(|f| f.to_bits()).collect();
    let external_subchunk = pack_float_sub_chunk(&bits);
    let subchunk: SubChunk<FloatValues> = SubChunk::<FloatValues>::from_external(&external_subchunk);
    let read_back: Vec<f32> = subchunk.values.iter().map(|b| f32::from_bits(*b)).collect();
    assert_eq!(read_back, &[1.0, 2.5, 3.7]);
}

#[test]
fn test_string_subchunk_conversion() {
    let items = string_items(vec!["hello", "world", "test"]);
    let external_subchunk = pack_string_sub_chunk(&items);
    let subchunk: SubChunk<StringValues> = SubChunk::<StringValues>::from_external(&external_subchunk);
    assert_eq!(subchunk.values, string_items(vec!["hello", "world", "test"]));
}

#[test]
fn test_int_chunk_conversion() {
    let sub1 = pack_int_sub_chunk(&vec![1, 2, 3]);
    let sub2 = pack_int_sub_chunk(&vec![4, 5, 6]);
    let external_chunk = ExternalChunkView {
        sub_chunks: vec![sub1, sub2],
        referenced_chunks: Vec::new(),
        num_of_sub_chunks: 2,
        data_type: ExternalDataType::Int,
    };
    let chunk: Chunk<IntValues> = Chunk::<IntValues>::from_external(&external_chunk);
    assert_eq!(chunk.sub_chunks.len(), 2);
    assert_eq!(chunk.sub_chunks[0].values, &[1, 2, 3]);
    assert_eq!(chunk.sub_chunks[1].values, &[4, 5, 6]);
}

#[test]
fn test_column_view_conversion() {
    let column_name = "test_column";
    let external_subchunk = pack_int_sub_chunk(&vec![10, 20, 30]);
    let external_chunk = ExternalChunkView {
        sub_chunks: vec![external_subchunk],
        referenced_chunks: Vec::new(),
        num_of_sub_chunks: 1,
        data_type: ExternalDataType::Int,
    };
    let external_column = ExternalColumnView {
        name: column_name.as_bytes().to_vec(),
        name_len: column_name.len(),
        chunks: vec![external_chunk],
        num_of_chunks: 1,
        data_type: ExternalDataType::Int,
    };
    let column = ColumnView::from_external(&external_column);
    assert_eq!(column.name, b"test_column".to_vec());
    match &column.chunks {
        ChunkViews::Int(chunks) => {
            assert_eq!(chunks.len(), 1);
            assert_eq!(chunks[0].sub_chunks[0].values, &[10, 20, 30]);
        }
        _ => panic!("Expected Int chunks"),
    }
}

#[test]
fn test_table_view_conversion() {
    let int_col_name = "int_col";
    let float_col_name = "float_col";

    let int_subchunk = pack_int_sub_chunk(&vec![1, 2, 3]);
    let float_bits: Vec<u32> = vec![1.5f32.to_bits(), 2.5f32.to_bits()];
    let float_subchunk = pack_float_sub_chunk(&float_bits);

    let int_chunk = ExternalChunkView {
        sub_chunks: vec![int_subchunk],
        referenced_chunks: Vec::new(),
        num_of_sub_chunks: 1,
        data_type: ExternalDataType::Int,
    };
    let float_chunk = ExternalChunkView {
        sub_chunks: vec![float_subchunk],
        referenced_chunks: Vec::new(),
        num_of_sub_chunks: 1,
        data_type: ExternalDataType::Float,
    };

    let columns = vec![
        ExternalColumnView {
            name: int_col_name.as_bytes().to_vec(),
            name_len: int_col_name.len(),
            chunks: vec![int_chunk],
            num_of_chunks: 1,
            data_type: ExternalDataType::Int,
        },
        ExternalColumnView {
            name: float_col_name.as_bytes().to_vec(),
            name_len: float_col_name.len(),
            chunks: vec![float_chunk],
            num_of_chunks: 1,
            data_type: ExternalDataType::Float,
        },
    ];
    let external_table = ExternalTableView { columns, num_of_columns: 2 };

    let table = TableView::from_external(&external_table);
    assert_eq!(table.columns.len(), 2);
    assert_eq!(table.columns[0].name, b"int_col".to_vec());
    assert_eq!(table.columns[1].name, b"float_col".to_vec());
    assert!(matches!(table.columns[0].chunks, ChunkViews::Int(_)));
    assert!(matches!(table.columns[1].chunks, ChunkViews::Float(_)));
}

#[test]
fn test_string_with_empty_strings() {
    let items = string_items(vec!["hello", "", "world"]);
    let external_subchunk = pack_string_sub_chunk(&items);
    let subchunk: SubChunk<StringValues> = SubChunk::<StringValues>::from_external(&external_subchunk);
    assert_eq!(subchunk.values, string_items(vec!["hello", "", "world"]));
}

#[test]
fn test_string_with_unicode() {
    let items = string_items(vec!["Hello", "世界", "🦀"]);
    let external_subchunk = pack_string_sub_chunk(&items);
    let subchunk: SubChunk<StringValues> = SubChunk::<StringValues>::from_external(&external_subchunk);
    assert_eq!(subchunk.values, string_items(vec!["Hello", "世界", "🦀"]));
    assert_eq!(String::from_utf8(subchunk.values[1].clone()).unwrap(), "世界");
}

#[test]
fn test_float_nan_reads_back_as_nan() {
    let floats: Vec<f32> = vec![f32::NAN, 0.0, -1.25];
    let bits: Vec<u32> = floats.iter().map(|f| f.to_bits()).collect();
    let external_subchunk = pack_float_sub_chunk(&bits);
    let subchunk: SubChunk<FloatValues> = SubChunk::<FloatValues>::from_external(&external_subchunk);
    assert_eq!(subchunk.values.len(), 3);
    assert!(f32::from_bits(subchunk.values[0]).is_nan());
    assert_eq!(subchunk.values, bits);
}

#[test]
fn test_int_extreme_values_roundtrip() {
    let values: Vec<i32> = vec![i32::MIN, -1, 0, 1, i32::MAX];
    let external_subchunk = pack_int_sub_chunk(&values);
    assert_eq!(external_subchunk.data.len(), 20);
    let subchunk: SubChunk<IntValues> = SubChunk::<IntValues>::from_external(&external_subchunk);
    assert_eq!(subchunk.values, values);
}

#[test]
fn test_empty_subchunk() {
    let values: Vec<i32> = Vec::new();
    let external_subchunk = pack_int_sub_chunk(&values);
    let subchunk: SubChunk<IntValues> = SubChunk::<IntValues>::from_external(&external_subchunk);
    assert_eq!(subchunk.values.len(), 0);
}

#[test]
fn test_string_subchunk_overlapping_ranges() {
    // Offsets need not be packed or non-overlapping: build a descriptor by
    // hand whose items share bytes.
    let data = b"abcdef".to_vec();
    let external_subchunk = ExternalSubChunkView {
        data,
        offsets: vec![0, 2, 2],
        lengths: vec![4, 4, 0],
        num_of_items: 3,
    };
    let subchunk: SubChunk<StringValues> = SubChunk::<StringValues>::from_external(&external_subchunk);
    assert_eq!(subchunk.values, vec![b"abcd".to_vec(), b"cdef".to_vec(), Vec::new()]);
}

#[test]
fn test_validate_path_accepts_plain_path() {
    assert_eq!(validate_path(&b"data/table.csv".to_vec()), Ok(()));
    assert_eq!(validate_path(&Vec::new()), Ok(()));
}

#[test]
fn test_validate_path_rejects_embedded_nul() {
    assert_eq!(validate_path(&b"data\0table.csv".to_vec()), Err(PathEncodingError));
}

#[test]
fn test_pack_int_little_endian_layout() {
    let d = pack_int_sub_chunk(&vec![0x01020304]);
    assert_eq!(d.num_of_items, 1);
    assert_eq!(d.data, vec![0x04, 0x03, 0x02, 0x01]);
    assert_eq!(d.offsets, Vec::<usize>::new());
    assert_eq!(d.lengths, Vec::<usize>::new());
}

#[test]
fn test_float_chunk_conversion() {
    let bits: Vec<u32> = vec![0.5f32.to_bits(), f32::INFINITY.to_bits()];
    let external_chunk = ExternalChunkView {
        sub_chunks: vec![pack_float_sub_chunk(&bits)],
        referenced_chunks: Vec::new(),
        num_of_sub_chunks: 1,
        data_type: ExternalDataType::Float,
    };
    let chunk: Chunk<FloatValues> = Chunk::<FloatValues>::from_external(&external_chunk);
    assert_eq!(chunk.sub_chunks.len(), 1);
    assert_eq!(chunk.sub_chunks[0].values, bits);
}

#[test]
fn test_string_column_view_conversion() {
    let column_name = "names";
    let items = string_items(vec!["ada", "grace"]);
    let external_column = ExternalColumnView {
        name: column_name.as_bytes().to_vec(),
        name_len: column_name.len(),
        chunks: vec![ExternalChunkView {
            sub_chunks: vec![pack_string_sub_chunk(&items)],
            referenced_chunks: Vec::new(),
            num_of_sub_chunks: 1,
            data_type: ExternalDataType::String,
        }],
        num_of_chunks: 1,
        data_type: ExternalDataType::String,
    };
    let column = ColumnView::from_external(&external_column);
    assert_eq!(column.name, b"names".to_vec());
    match &column.chunks {
        ChunkViews::String(chunks) => {
            assert_eq!(chunks.len(), 1);
            assert_eq!(chunks[0].sub_chunks[0].values, items);
        }
        _ => panic!("Expected String chunks"),
    }
}

#[test]
fn test_multiple_subchunks_preserve_sizes() {
    let sizes: Vec<usize> = vec![0, 3, 1, 5];
    let sub_chunks: Vec<ExternalSubChunkView> = sizes
        .iter()
        .map(|&size| pack_int_sub_chunk(&(0..size as i32).collect()))
        .collect();
    let external_chunk = ExternalChunkView {
        sub_chunks,
        referenced_chunks: Vec::new(),
        num_of_sub_chunks: sizes.len(),
        data_type: ExternalDataType::Int,
    };
    let chunk: Chunk<IntValues> = Chunk::<IntValues>::from_external(&external_chunk);
    assert_eq!(chunk.sub_chunks.len(), sizes.len());
    for (i, &size) in sizes.iter().enumerate() {
        assert_eq!(chunk.sub_chunks[i].values.len(), size);
        assert_eq!(chunk.sub_chunks[i].values, (0..size as i32).collect::<Vec<i32>>());
    }
}
