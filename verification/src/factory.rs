//! Configuration of one client run: where to connect, what to forward,
//! which compression settings to start from, and how to size the socket
//! buffers. The factory builds the session object the consumer task drives.

use vstd::prelude::*;

use crate::compress::ZStdParams;
use crate::ext::BufferSize;
use crate::session::{opt_bytes_view, ControlSession};

verus! {

pub struct TcpFactory {
    pub buffer_size: BufferSize,
    pub compression: ZStdParams,
    pub port: u16,
    pub magic: Option<Vec<u8>>,
    pub local: String,
    pub remote: String,
    pub use_overrides: bool,
}

impl TcpFactory {
    pub fn new(
        buffer_size: BufferSize,
        compression: ZStdParams,
        port: u16,
        magic: Option<Vec<u8>>,
        local: String,
        remote: String,
        use_overrides: bool,
    ) -> (r: Self)
        ensures
            r.buffer_size == buffer_size,
            r.compression == compression,
            r.port == port,
            opt_bytes_view(&r.magic) == opt_bytes_view(&magic),
            r.local@ == local@,
            r.remote@ == remote@,
            r.use_overrides == use_overrides,
    {
        Self { buffer_size, compression, port, magic, local, remote, use_overrides }
    }

    /// The buffer sizes the pipeline should split the stream with.
    pub fn buffer_size(&self) -> (r: BufferSize)
        ensures
            r == self.buffer_size,
    {
        BufferSize { read: self.buffer_size.read, write: self.buffer_size.write }
    }

    /// A fresh session for one control connection under this configuration.
    pub fn create_session(&self) -> (r: ControlSession)
        ensures
            r.wf(),
            r@.state is Connecting,
            r@.magic == opt_bytes_view(&self.magic),
            r@.port == self.port,
            r@.use_overrides == self.use_overrides,
            r@.params == self.compression,
            r@.m_sent == false,
            r@.client_ids == Set::<u16>::empty(),
    {
        let magic: Option<Vec<u8>> = match &self.magic {
            Some(m) => Some(m.clone()),
            None => None,
        };
        ControlSession::new(magic, self.compression, self.port, self.use_overrides)
    }
}

} // verus!
