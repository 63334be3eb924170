use c2pa_stream::{
    c2pa_create_stream, c2pa_release_stream, to_wire, C2paSeekMode, SeekRequest, StreamContext,
    StreamError, TestCStream,
};

fn read_all_in_chunks(data: Vec<u8>, chunk: usize) -> Vec<u8> {
    let mut c_stream = TestCStream::from_bytes(data);
    let mut out = Vec::new();
    loop {
        let mut buf = vec![0u8; chunk];
        let n = c_stream.read(&mut buf).unwrap();
        if n == 0 {
            break;
        }
        out.extend_from_slice(&buf[..n]);
    }
    TestCStream::drop_c_stream(c_stream);
    out
}

#[test]
fn sequential_reads_give_the_bytes_back() {
    let data: Vec<u8> = (0..=250u8).collect();
    for chunk in [1usize, 2, 7, 64, 251, 300] {
        assert_eq!(read_all_in_chunks(data.clone(), chunk), data);
    }
}

#[test]
fn sequential_reads_of_nothing_give_nothing() {
    assert_eq!(read_all_in_chunks(Vec::new(), 4), Vec::<u8>::new());
}

#[test]
fn partial_read_leaves_the_tail_of_the_buffer() {
    let mut c_stream = TestCStream::from_bytes(vec![10, 20, 30, 40]);
    c_stream.seek(SeekRequest::Start(2)).unwrap();
    let mut buf = [9u8; 5];
    assert_eq!(c_stream.read(&mut buf).unwrap(), 2);
    assert_eq!(buf, [30, 40, 9, 9, 9]);
    let mut buf = [9u8; 2];
    assert_eq!(c_stream.read(&mut buf).unwrap(), 0);
    assert_eq!(buf, [9, 9]);
    TestCStream::drop_c_stream(c_stream);
}

#[test]
fn empty_read_buffer_reads_nothing() {
    let mut c_stream = TestCStream::from_bytes(vec![1, 2, 3]);
    let mut buf: [u8; 0] = [];
    assert_eq!(c_stream.read(&mut buf).unwrap(), 0);
    assert_eq!(c_stream.seek(SeekRequest::Current(0)).unwrap(), 0);
    TestCStream::drop_c_stream(c_stream);
}

#[test]
fn seek_reports_positions() {
    let mut c_stream = TestCStream::from_bytes(vec![1, 2, 3, 4, 5]);
    assert_eq!(c_stream.seek(SeekRequest::Start(2)).unwrap(), 2);
    let mut buf = [0u8; 3];
    assert_eq!(c_stream.read(&mut buf).unwrap(), 3);
    assert_eq!(buf, [3, 4, 5]);
    assert_eq!(c_stream.seek(SeekRequest::End(-2)).unwrap(), 3);
    let mut buf = [0u8; 2];
    c_stream.read(&mut buf).unwrap();
    assert_eq!(buf, [4, 5]);
    assert_eq!(c_stream.seek(SeekRequest::Current(-4)).unwrap(), 1);
    let mut buf = [0u8; 3];
    c_stream.read(&mut buf).unwrap();
    assert_eq!(buf, [2, 3, 4]);
    TestCStream::drop_c_stream(c_stream);
}

#[test]
fn seek_past_the_end_then_read_gives_nothing() {
    let mut c_stream = TestCStream::from_bytes(vec![1, 2, 3]);
    assert_eq!(c_stream.seek(SeekRequest::Start(10)).unwrap(), 10);
    let mut buf = [7u8; 4];
    assert_eq!(c_stream.read(&mut buf).unwrap(), 0);
    assert_eq!(buf, [7, 7, 7, 7]);
    TestCStream::drop_c_stream(c_stream);
}

#[test]
fn negative_seek_result_wraps_and_keeps_the_cursor() {
    let mut c_stream = TestCStream::from_bytes(vec![1, 2, 3, 4, 5]);
    c_stream.seek(SeekRequest::Start(3)).unwrap();
    assert_eq!(c_stream.seek(SeekRequest::Current(-10)).unwrap(), u64::MAX);
    assert_eq!(c_stream.seek(SeekRequest::End(-6)).unwrap(), u64::MAX);
    assert_eq!(c_stream.seek(SeekRequest::Current(0)).unwrap(), 3);
    TestCStream::drop_c_stream(c_stream);
}

#[test]
fn write_at_end_grows_the_buffer() {
    let mut c_stream = TestCStream::from_bytes(vec![1, 2, 3, 4, 5]);
    assert_eq!(c_stream.seek(SeekRequest::End(0)).unwrap(), 5);
    assert_eq!(c_stream.write(&[6, 7, 8]).unwrap(), 3);
    assert_eq!(c_stream.seek(SeekRequest::Current(0)).unwrap(), 8);
    assert_eq!(c_stream.seek(SeekRequest::End(0)).unwrap(), 8);
    c_stream.seek(SeekRequest::Start(0)).unwrap();
    let mut buf = [0u8; 10];
    assert_eq!(c_stream.read(&mut buf).unwrap(), 8);
    assert_eq!(buf, [1, 2, 3, 4, 5, 6, 7, 8, 0, 0]);
    TestCStream::drop_c_stream(c_stream);
}

#[test]
fn write_in_the_middle_overwrites() {
    let mut c_stream = TestCStream::from_bytes(vec![1, 2, 3, 4, 5]);
    c_stream.seek(SeekRequest::Start(3)).unwrap();
    assert_eq!(c_stream.write(&[9, 9, 9]).unwrap(), 3);
    assert_eq!(c_stream.seek(SeekRequest::End(0)).unwrap(), 6);
    c_stream.seek(SeekRequest::Start(0)).unwrap();
    let mut buf = [0u8; 6];
    assert_eq!(c_stream.read(&mut buf).unwrap(), 6);
    assert_eq!(buf, [1, 2, 3, 9, 9, 9]);
    TestCStream::drop_c_stream(c_stream);
}

#[test]
fn write_past_the_end_pads_with_zeros() {
    let mut c_stream = TestCStream::from_bytes(vec![1, 2]);
    c_stream.seek(SeekRequest::Start(4)).unwrap();
    assert_eq!(c_stream.write(&[5]).unwrap(), 1);
    c_stream.seek(SeekRequest::Start(0)).unwrap();
    let mut buf = [9u8; 5];
    assert_eq!(c_stream.read(&mut buf).unwrap(), 5);
    assert_eq!(buf, [1, 2, 0, 0, 5]);
    TestCStream::drop_c_stream(c_stream);
}

#[test]
fn failed_write_reports_the_recorded_detail() {
    let mut c_stream = TestCStream::from_bytes(vec![1, 2, 3]);
    let far = isize::MAX as u64;
    assert_eq!(c_stream.seek(SeekRequest::Start(far)).unwrap(), far);
    match c_stream.write(&[1]) {
        Err(StreamError::Io(detail)) => {
            assert_eq!(detail, "cursor position exceeds maximum possible vector length")
        }
        other => panic!("unexpected result {:?}", other),
    }
    assert_eq!(c_stream.seek(SeekRequest::Current(0)).unwrap(), far);
    TestCStream::drop_c_stream(c_stream);
}

#[test]
fn flush_succeeds() {
    let mut c_stream = TestCStream::from_bytes(vec![1]);
    assert!(c_stream.flush().is_ok());
    TestCStream::drop_c_stream(c_stream);
}

#[test]
fn extract_context_hands_the_backend_out_once() {
    let mut c_stream = TestCStream::from_bytes(vec![1, 2, 3]);
    let first = c_stream.extract_context();
    let second = c_stream.extract_context();
    assert!(first.into_inner().is_some());
    assert!(second.into_inner().is_none());
}

#[test]
fn create_and_release_stream() {
    let backend = TestCStream::from_c_stream(TestCStream::from_bytes(vec![4, 5, 6]));
    let mut stream = c2pa_create_stream(StreamContext::new(backend));
    let mut buf = [0u8; 2];
    assert_eq!(stream.read(&mut buf).unwrap(), 2);
    assert_eq!(buf, [4, 5]);
    c2pa_release_stream(Some(stream));
}

#[test]
fn releasing_the_null_handle_does_nothing() {
    c2pa_release_stream::<TestCStream>(None);
}

#[test]
fn seek_requests_map_to_offset_and_mode() {
    assert_eq!(to_wire(SeekRequest::Start(7)), (7, C2paSeekMode::Start));
    assert_eq!(to_wire(SeekRequest::Current(-3)), (-3, C2paSeekMode::Current));
    assert_eq!(to_wire(SeekRequest::End(0)), (0, C2paSeekMode::End));
}
