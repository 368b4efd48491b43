//! The update manifest: which chunks make up an update.

use vstd::prelude::*;

verus! {

/// One chunk of an update and its hash.
pub struct ChunkInfo {
    pub id: usize,
    pub hash: String,
}

/// Describes an update and the chunks it is split into.
pub struct UpdateManifest {
    pub update_id: String,
    pub file_name: String,
    pub total_size_bytes: u64,
    pub chunk_size_bytes: usize,
    pub chunks: Vec<ChunkInfo>,
}

impl UpdateManifest {
    /// A manifest with no chunks yet.
    pub fn new(update_id: &str, file_name: &str, total_size_bytes: u64, chunk_size_bytes: usize) -> (m: UpdateManifest)
        ensures
            m.update_id@ == update_id@,
            m.file_name@ == file_name@,
            m.total_size_bytes == total_size_bytes,
            m.chunk_size_bytes == chunk_size_bytes,
            m.chunks@.len() == 0,
    {
        UpdateManifest {
            update_id: update_id.to_owned(),
            file_name: file_name.to_owned(),
            total_size_bytes,
            chunk_size_bytes,
            chunks: Vec::new(),
        }
    }

    /// Appends a chunk to the manifest.
    pub fn add_chunk(&mut self, id: usize, hash: &str)
        ensures
            final(self).chunks@.len() == old(self).chunks@.len() + 1,
            final(self).chunks@.take(old(self).chunks@.len() as int) == old(self).chunks@,
            final(self).chunks@.last().id == id,
            final(self).chunks@.last().hash@ == hash@,
            final(self).update_id == old(self).update_id,
            final(self).file_name == old(self).file_name,
            final(self).total_size_bytes == old(self).total_size_bytes,
            final(self).chunk_size_bytes == old(self).chunk_size_bytes,
    {
        let ghost before = self.chunks@;
        self.chunks.push(ChunkInfo { id, hash: hash.to_owned() });
        assert(self.chunks@.take(before.len() as int) =~= before);
    }

    /// The number of chunks.
    pub fn total_chunks(&self) -> (n: usize)
        ensures
            n == self.chunks@.len(),
    {
        self.chunks.len()
    }
}

} // verus!
