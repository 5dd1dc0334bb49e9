use tmj_app::section::{
    find_bytes, find_marker_boundary, ScanStep, SectionBuffer, SectionError, SectionReadResult, SectionScan,
};

struct FileReader<'a> {
    file: &'a [u8],
    pos: usize,
    buffer: SectionBuffer,
    chunk_size: usize,
}

impl<'a> FileReader<'a> {
    fn new(file: &'a [u8], chunk_size: usize) -> Self {
        FileReader { file, pos: 0, buffer: SectionBuffer::new(chunk_size), chunk_size }
    }

    fn read_section(&mut self, n: u64) -> Result<SectionReadResult, SectionError> {
        let mut scan = SectionScan::begin(n);
        let mut pending: Option<Vec<u8>> = None;
        for _ in 0..100_000 {
            match self.buffer.step(&mut scan, pending.take()) {
                ScanStep::NeedChunk => {
                    let end = usize::min(self.pos + self.chunk_size, self.file.len());
                    pending = Some(self.file[self.pos..end].to_vec());
                    self.pos = end;
                }
                ScanStep::Finished(r) => return r,
            }
        }
        panic!("section search did not finish");
    }
}

const SCRIPT: &str = "
Header info...
#1
This is section 1 content.
Line 2 of section 1.
#2
This is section 2 content.
It has multiple lines.
#3
Section 3 is the last one.
No end marker here.
";

#[test]
fn reads_sections_in_order() {
    let mut reader = FileReader::new(SCRIPT.as_bytes(), 1024);
    let s1 = reader.read_section(1).unwrap();
    assert_eq!(s1.content, "#1\nThis is section 1 content.\nLine 2 of section 1.\n");
    assert!(!s1.is_eof);
    let s2 = reader.read_section(2).unwrap();
    assert_eq!(s2.content, "#2\nThis is section 2 content.\nIt has multiple lines.\n");
    assert!(!s2.is_eof);
    let s3 = reader.read_section(3).unwrap();
    assert_eq!(s3.content, "#3\nSection 3 is the last one.\nNo end marker here.\n");
    assert!(s3.is_eof);
    assert_eq!(reader.read_section(5).unwrap_err(), SectionError::MarkerNotFound);
}

#[test]
fn reset_reads_again_from_the_start() {
    let mut reader = FileReader::new(SCRIPT.as_bytes(), 1024);
    reader.read_section(1).unwrap();
    reader.buffer.reset();
    reader.pos = 0;
    let s2 = reader.read_section(2).unwrap();
    assert_eq!(s2.content, "#2\nThis is section 2 content.\nIt has multiple lines.\n");
}

#[test]
fn full_chunk_without_marker_asks_for_the_next_chunk() {
    let mut buffer = SectionBuffer::new(8);
    let mut scan = SectionScan::begin(9);
    assert!(matches!(buffer.step(&mut scan, None), ScanStep::NeedChunk));
    assert!(matches!(buffer.step(&mut scan, Some(b"abcdefgh".to_vec())), ScanStep::NeedChunk));
    assert!(!buffer.wants_chunk(&scan));
    assert!(matches!(
        buffer.step(&mut scan, Some(Vec::new())),
        ScanStep::Finished(Err(SectionError::MarkerNotFound))
    ));
}

#[test]
fn short_buffer_without_marker_asks_for_more() {
    let mut buffer = SectionBuffer::new(8);
    let mut scan = SectionScan::begin(1);
    assert!(matches!(buffer.step(&mut scan, Some(b"ab#".to_vec())), ScanStep::NeedChunk));
    assert!(buffer.wants_chunk(&scan));
    assert!(matches!(buffer.step(&mut scan, None), ScanStep::NeedChunk));
    // The start marker is found, the end marker is not yet in the buffer:
    // the step asks for the next chunk.
    assert!(matches!(buffer.step(&mut scan, Some(b"1\nx".to_vec())), ScanStep::NeedChunk));
    assert!(!buffer.wants_chunk(&scan));
    // The file ends: the section runs to the end of the file.
    match buffer.step(&mut scan, Some(Vec::new())) {
        ScanStep::Finished(Ok(r)) => {
            assert_eq!(r.content, "#1\nx");
            assert!(r.is_eof);
        }
        other => panic!("unexpected {:?}", other),
    }
}

#[test]
fn section_without_next_marker_ends_at_eof() {
    let mut reader = FileReader::new(b"#1\nabc", 1024);
    let s = reader.read_section(1).unwrap();
    assert_eq!(s.content, "#1\nabc");
    assert!(s.is_eof);
}

#[test]
fn sections_spanning_many_small_chunks() {
    let mut reader = FileReader::new(SCRIPT.as_bytes(), 8);
    let s1 = reader.read_section(1).unwrap();
    assert_eq!(s1.content, "#1\nThis is section 1 content.\nLine 2 of section 1.\n");
    assert!(!s1.is_eof);
    let s2 = reader.read_section(2).unwrap();
    assert_eq!(s2.content, "#2\nThis is section 2 content.\nIt has multiple lines.\n");
    let s3 = reader.read_section(3).unwrap();
    assert_eq!(s3.content, "#3\nSection 3 is the last one.\nNo end marker here.\n");
    assert!(s3.is_eof);
    let mut reader = FileReader::new(SCRIPT.as_bytes(), 8);
    assert_eq!(reader.read_section(9).unwrap_err(), SectionError::MarkerNotFound);
}

#[test]
fn marker_is_not_a_prefix_of_a_longer_number() {
    let file = b"#12\ntwelve\n#1\none\n#2\n";
    let mut reader = FileReader::new(file, 1024);
    let s = reader.read_section(1).unwrap();
    assert_eq!(s.content, "#1\none\n");
}

#[test]
fn invalid_utf8_is_an_error() {
    let file = b"#1\n\xff\xfe\n#2\n";
    let mut reader = FileReader::new(file, 1024);
    assert_eq!(reader.read_section(1).unwrap_err(), SectionError::InvalidUtf8);
}

#[test]
fn empty_file_has_no_section() {
    let mut reader = FileReader::new(b"", 16);
    assert_eq!(reader.read_section(1).unwrap_err(), SectionError::MarkerNotFound);
}

#[test]
fn find_bytes_cases() {
    assert_eq!(find_bytes(b"abcabc", 0, b"bc"), Some(1));
    assert_eq!(find_bytes(b"abcabc", 2, b"bc"), Some(4));
    assert_eq!(find_bytes(b"abcabc", 6, b"bc"), None);
    assert_eq!(find_bytes(b"abcabc", 0, b""), None);
    assert_eq!(find_bytes(b"ab", 0, b"abc"), None);
}

#[test]
fn find_marker_boundary_cases() {
    assert_eq!(find_marker_boundary(b"#12 #1x", b"#1"), Some(4));
    assert_eq!(find_marker_boundary(b"#12 #13", b"#1"), None);
    assert_eq!(find_marker_boundary(b"x#1", b"#1"), Some(1));
    assert_eq!(find_marker_boundary(b"#1", b""), None);
}

#[test]
fn every_chunk_size_reads_the_same_sections() {
    for chunk_size in 1..64 {
        let mut reader = FileReader::new(SCRIPT.as_bytes(), chunk_size);
        let s2 = reader.read_section(2).unwrap();
        assert_eq!(s2.content, "#2\nThis is section 2 content.\nIt has multiple lines.\n", "chunk size {chunk_size}");
        assert!(!s2.is_eof);
        let s3 = reader.read_section(3).unwrap();
        assert_eq!(s3.content, "#3\nSection 3 is the last one.\nNo end marker here.\n", "chunk size {chunk_size}");
        assert!(s3.is_eof);
        let mut reader = FileReader::new(SCRIPT.as_bytes(), chunk_size);
        assert_eq!(reader.read_section(4).unwrap_err(), SectionError::MarkerNotFound);
    }
}

#[test]
fn marker_at_the_end_of_a_chunk_waits_for_the_next() {
    // `#12` read in chunks of two bytes: the first chunk `#1` could be the
    // start of a longer number, so the reader reads on before deciding.
    for chunk_size in 1..12 {
        let mut reader = FileReader::new(b"#12\n#1\nx#2", chunk_size);
        let s = reader.read_section(1).unwrap();
        assert_eq!(s.content, "#1\nx", "chunk size {chunk_size}");
        assert!(!s.is_eof);
        let mut reader = FileReader::new(b"#12\n#1\nx#23", chunk_size);
        let s = reader.read_section(1).unwrap();
        assert_eq!(s.content, "#1\nx#23", "chunk size {chunk_size}");
        assert!(s.is_eof);
    }
}

#[test]
fn marker_ending_the_buffer_is_undecided_until_the_next_chunk() {
    let mut buffer = SectionBuffer::new(2);
    let mut scan = SectionScan::begin(1);
    assert!(matches!(buffer.step(&mut scan, None), ScanStep::NeedChunk));
    assert!(matches!(buffer.step(&mut scan, Some(b"#1".to_vec())), ScanStep::NeedChunk));
    assert!(matches!(buffer.step(&mut scan, Some(b"\nx".to_vec())), ScanStep::NeedChunk));
    match buffer.step(&mut scan, Some(Vec::new())) {
        ScanStep::Finished(Ok(r)) => {
            assert_eq!(r.content, "#1\nx");
            assert!(r.is_eof);
        }
        other => panic!("unexpected {:?}", other),
    }
}
