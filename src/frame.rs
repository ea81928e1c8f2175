//! The fixed-size receive buffer: one frame per buffer, trailing zero bytes
//! trimmed, and the buffer wiped once its text has been taken.
use vstd::prelude::*;
use zeroize::Zeroize;
use crate::commands::{Commands, decode_or_error};

verus! {

/// The size of the receive buffer, in bytes.
pub const FRAME_SIZE: usize = 1024;

/// The text that a lossy UTF-8 conversion makes of `b`.
pub uninterp spec fn lossy_text(b: Seq<u8>) -> Seq<char>;

/// `b` without its trailing zero bytes.
pub open spec fn trim_zeros(b: Seq<u8>) -> Seq<u8>
    decreases b.len(),
{
    if b.len() > 0 && b.last() == 0 {
        trim_zeros(b.drop_last())
    } else {
        b
    }
}

/// Relies on `String::from_utf8_lossy`: the result depends on the bytes
/// alone, and bytes that are all ASCII come back as the same characters.
#[verifier::external_body]
fn text_from_bytes(b: &[u8]) -> (r: String)
    ensures
        r@ == lossy_text(b@),
        (forall|i: int| 0 <= i < b@.len() ==> #[trigger] b@[i] < 128) ==> r@ == b@.map_values(
            |x: u8| x as char,
        ),
{
    String::from_utf8_lossy(b).into_owned()
}

/// Relies on `Zeroize` for byte arrays: every byte is overwritten with zero.
#[verifier::external_body]
fn wipe(buf: &mut [u8; 1024])
    ensures
        final(buf)@ == Seq::new(1024, |i: int| 0u8),
{
    buf.zeroize();
}

/// The bytes of `data` before its trailing zeros.
pub fn trimmed(data: &[u8; 1024]) -> (r: Vec<u8>)
    ensures
        r@ == trim_zeros(data@),
{
    let mut n: usize = FRAME_SIZE;
    assert(data@.take(1024) =~= data@);
    while n > 0 && data[n - 1] == 0
        invariant
            n <= 1024,
            data@.len() == 1024,
            trim_zeros(data@.take(n as int)) == trim_zeros(data@),
        decreases n,
    {
        assert(data@.take(n as int).drop_last() =~= data@.take(n - 1));
        n = n - 1;
    }
    let mut out: Vec<u8> = Vec::new();
    let mut i: usize = 0;
    while i < n
        invariant
            n <= 1024,
            data@.len() == 1024,
            i <= n,
            out@ == data@.take(i as int),
        decreases n - i,
    {
        out.push(data[i]);
        i = i + 1;
        assert(out@ =~= data@.take(i as int));
    }
    out
}

impl Commands {
    /// Decodes the frame in a receive buffer and wipes the buffer; a frame that
    /// cannot be read gives `Error`.
    pub fn from_buffer(data: &mut [u8; 1024]) -> (r: Commands)
        ensures
            r@ == decode_or_error(lossy_text(trim_zeros(old(data)@))),
            final(data)@ == Seq::new(1024, |i: int| 0u8),
    {
        let bytes = trimmed(data);
        let text = text_from_bytes(bytes.as_slice());
        wipe(data);
        Commands::from_text(text)
    }
}

} // verus!
