//! A seekable read/write stream over a backend that supplies four callbacks
//! (read, seek, write, flush) and a context, with an in-memory backend that
//! exercises the whole life cycle.

pub mod c_stream;
pub mod test_stream;

pub use c_stream::{
    c2pa_create_stream, c2pa_release_stream, to_wire, C2paSeekMode, CStream, SeekRequest,
    StreamCallbacks, StreamContext, StreamError,
};
pub use test_stream::TestCStream;
