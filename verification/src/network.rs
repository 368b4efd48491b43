//! Framing of chunks sent between peers: a 4-byte big-endian length,
//! then the chunk bytes; and the block served by the HTTPS fallback.

use vstd::prelude::*;

verus! {

/// Node that seeds and downloads chunks.
pub struct P2PNode;

/// The value of a 4-byte big-endian length header.
pub open spec fn header_value(h: Seq<u8>) -> nat
    recommends
        h.len() == 4,
{
    h[0] as nat * 16777216 + h[1] as nat * 65536 + h[2] as nat * 256 + h[3] as nat
}

/// The 4-byte big-endian encoding of `v` modulo 2^32.
pub open spec fn header_bytes(v: nat) -> Seq<u8> {
    seq![
        ((v / 16777216) % 256) as u8,
        ((v / 65536) % 256) as u8,
        ((v / 256) % 256) as u8,
        (v % 256) as u8,
    ]
}

/// The block that the HTTPS content network serves when P2P is blocked.
pub open spec fn fallback_block() -> Seq<u8> {
    seq![
        65u8, 101, 114, 79, 83, 95, 65, 80, 85, 83, 95, 85, 112, 100, 97, 116, 101, 95, 66, 108,
        111, 99, 107, 95, 35, 49, 51, 51, 55,
    ]
}

proof fn lemma_header_value_of_bytes(v: nat)
    requires
        v < 4294967296,
    ensures
        header_value(header_bytes(v)) == v,
{
    let b0 = (v / 16777216) % 256;
    let b1 = (v / 65536) % 256;
    let b2 = (v / 256) % 256;
    let b3 = v % 256;
    assert(b0 * 16777216 + b1 * 65536 + b2 * 256 + b3 == v) by (nonlinear_arith)
        requires
            v < 4294967296,
            b0 == (v / 16777216) % 256,
            b1 == (v / 65536) % 256,
            b2 == (v / 256) % 256,
            b3 == v % 256,
    ;
}

impl P2PNode {
    /// The length header for a chunk of `len` bytes; as in the wire
    /// format, the length is taken modulo 2^32.
    pub fn encode_chunk_len(len: usize) -> (h: [u8; 4])
        ensures
            h@ == header_bytes(len as nat % 4294967296),
            header_value(h@) == len as nat % 4294967296,
    {
        let v: u64 = (len as u64) % 4294967296;
        let h = [
            ((v / 16777216) % 256) as u8,
            ((v / 65536) % 256) as u8,
            ((v / 256) % 256) as u8,
            (v % 256) as u8,
        ];
        proof {
            lemma_header_value_of_bytes(v as nat);
            assert(h@ =~= header_bytes(v as nat));
        }
        h
    }

    /// The chunk length that a header announces.
    pub fn decode_chunk_len(h: [u8; 4]) -> (len: usize)
        ensures
            len == header_value(h@),
    {
        let v: u32 = (h[0] as u32) * 16777216 + (h[1] as u32) * 65536 + (h[2] as u32) * 256
            + (h[3] as u32);
        v as usize
    }

    /// The bytes a seeder sends for a chunk: the length header, then the
    /// chunk.
    pub fn frame_chunk(data: &[u8]) -> (frame: Vec<u8>)
        ensures
            frame@ == header_bytes(data@.len() % 4294967296) + data@,
    {
        let h = Self::encode_chunk_len(data.len());
        let mut frame: Vec<u8> = Vec::new();
        frame.push(h[0]);
        frame.push(h[1]);
        frame.push(h[2]);
        frame.push(h[3]);
        let n = data.len();
        let mut i: usize = 0;
        while i < n
            invariant
                n == data@.len(),
                i <= n,
                frame@ == header_bytes(n as nat % 4294967296) + data@.take(i as int),
            decreases n - i,
        {
            frame.push(data[i]);
            assert(data@.take(i + 1) =~= data@.take(i as int).push(data@[i as int]));
            i = i + 1;
        }
        assert(data@.take(n as int) =~= data@);
        frame
    }

    /// The block served by the HTTPS fallback at `url` (the same block
    /// whatever the address).
    pub fn fallback_https_download(url: &str) -> (block: Vec<u8>)
        ensures
            block@ == fallback_block(),
    {
        let block: Vec<u8> = vec![
            65u8, 101, 114, 79, 83, 95, 65, 80, 85, 83, 95, 85, 112, 100, 97, 116, 101, 95, 66, 108,
            111, 99, 107, 95, 35, 49, 51, 51, 55,
        ];
        assert(block@ =~= fallback_block());
        block
    }
}

/// A header encodes the length it was made from, for every length that
/// fits in 32 bits.
pub proof fn law_chunk_len_round_trip(len: nat)
    requires
        len < 4294967296,
    ensures
        header_value(header_bytes(len)) == len,
{
    lemma_header_value_of_bytes(len);
}

/// Every 4-byte header is the encoding of the length it announces.
pub proof fn law_header_bytes_of_value(h: Seq<u8>)
    requires
        h.len() == 4,
    ensures
        header_bytes(header_value(h)) == h,
{
    let v = header_value(h);
    let (a, b, c, d) = (h[0] as int, h[1] as int, h[2] as int, h[3] as int);
    assert((v / 16777216) % 256 == a && (v / 65536) % 256 == b && (v / 256) % 256 == c && v % 256
        == d) by (nonlinear_arith)
        requires
            v == a * 16777216 + b * 65536 + c * 256 + d,
            0 <= a < 256,
            0 <= b < 256,
            0 <= c < 256,
            0 <= d < 256,
    ;
    assert(header_bytes(v) =~= h);
}

} // verus!
