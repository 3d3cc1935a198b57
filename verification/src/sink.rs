//! The compressed batch artifact.
//!
//! A batch payload (see `codec`) is passed through a gzip stream compressor
//! tuned for speed before it is handed to storage, and decompressed again
//! on the way back.  Compression and decompression are the only outside
//! calls of this crate; everything stated about them is the documented
//! lossless round trip.

use vstd::prelude::*;

use crate::codec::{
    decode_batch, encode_batch, spec_decode_batch, spec_encode_batch, DecodedBatch,
};
use crate::particle::Vec3Bits;

verus! {

/// What gzip decompression yields on a byte run: the decompressed payload,
/// or nothing where the run is not a well-formed gzip stream.  This is a
/// pure function of the bytes.
pub uninterp spec fn gunzip_of(b: Seq<u8>) -> Option<Seq<u8>>;

/// Relies on `flate2::write::GzEncoder` (level `Compression::fast`):
/// gzip compression is lossless, so the compressed stream decompresses
/// back to exactly the input.  Writes into a `Vec` sink cannot fail.
#[verifier::external_body]
fn gzip_compress(bytes: &Vec<u8>) -> (r: Vec<u8>)
    ensures
        gunzip_of(r@) == Some(bytes@),
{
    let mut enc = flate2::write::GzEncoder::new(Vec::new(), flate2::Compression::fast());
    std::io::Write::write_all(&mut enc, bytes.as_slice()).expect("gzip write");
    enc.finish().expect("gzip finish")
}

/// Relies on `flate2::read::GzDecoder`: decompression is a pure function
/// of the input bytes, yielding the payload of a well-formed gzip stream
/// and an error otherwise.
#[verifier::external_body]
fn gzip_decompress(bytes: &Vec<u8>) -> (r: Option<Vec<u8>>)
    ensures
        r is Some ==> gunzip_of(bytes@) == Some(r.unwrap()@),
        r is None ==> gunzip_of(bytes@) is None,
{
    let mut dec = flate2::read::GzDecoder::new(bytes.as_slice());
    let mut out = Vec::new();
    match std::io::Read::read_to_end(&mut dec, &mut out) {
        Ok(_) => Some(out),
        Err(_) => None,
    }
}

/// The batch read from a compressed artifact: the decompressed payload
/// decoded, or nothing where decompression or decoding rejects the bytes.
pub open spec fn spec_read_batch(b: Seq<u8>) -> Option<(u32, u32, Seq<Vec3Bits>)> {
    match gunzip_of(b) {
        Some(payload) => spec_decode_batch(payload),
        None => None,
    }
}

/// Builds the complete compressed artifact for one batch.
pub fn compress_batch(frames_per_file: u32, num_particles: u32, positions: &Vec<Vec3Bits>) -> (r:
    Vec<u8>)
    requires
        positions@.len() == (frames_per_file as int) * (num_particles as int),
    ensures
        gunzip_of(r@) == Some(spec_encode_batch(frames_per_file, num_particles, positions@)),
        spec_read_batch(r@) == Some((frames_per_file, num_particles, positions@)),
{
    let payload = encode_batch(frames_per_file, num_particles, positions);
    gzip_compress(&payload)
}

/// Reads a batch back from a compressed artifact.
pub fn read_batch(bytes: &Vec<u8>) -> (r: Option<DecodedBatch>)
    ensures
        spec_read_batch(bytes@) is Some <==> r is Some,
        r is Some ==> {
            let d = r.unwrap();
            Some((d.frames_per_file, d.num_particles, d.positions@)) == spec_read_batch(bytes@)
        },
{
    match gzip_decompress(bytes) {
        Some(payload) => decode_batch(&payload),
        None => None,
    }
}

/// The decimal digit character for `d`.
pub open spec fn spec_digit_char(d: int) -> char {
    if d == 0 {
        '0'
    } else if d == 1 {
        '1'
    } else if d == 2 {
        '2'
    } else if d == 3 {
        '3'
    } else if d == 4 {
        '4'
    } else if d == 5 {
        '5'
    } else if d == 6 {
        '6'
    } else if d == 7 {
        '7'
    } else if d == 8 {
        '8'
    } else {
        '9'
    }
}

/// The decimal digits of `x`, most significant first.
pub open spec fn spec_digits(x: int) -> Seq<char>
    decreases x,
{
    if x < 10 {
        seq![spec_digit_char(x)]
    } else {
        spec_digits(x / 10) + seq![spec_digit_char(x % 10)]
    }
}

/// The zero padding that brings the digits of `x` to the four-character
/// minimum of the artifact names.
pub open spec fn spec_zero_pad(x: int) -> Seq<char> {
    if x < 10 {
        seq!['0', '0', '0']
    } else if x < 100 {
        seq!['0', '0']
    } else if x < 1000 {
        seq!['0']
    } else {
        Seq::empty()
    }
}

/// The artifact name of batch `x`: `batch_` + the batch index, zero-padded
/// to at least four digits + `.bin.gz`.
pub open spec fn spec_batch_file_name(x: int) -> Seq<char> {
    "batch_"@ + spec_zero_pad(x) + spec_digits(x) + ".bin.gz"@
}

/// The one-character string of a decimal digit.
fn digit_str(d: usize) -> (r: &'static str)
    requires
        d < 10,
    ensures
        r@ == seq![spec_digit_char(d as int)],
{
    proof {
        reveal_strlit("0");
        reveal_strlit("1");
        reveal_strlit("2");
        reveal_strlit("3");
        reveal_strlit("4");
        reveal_strlit("5");
        reveal_strlit("6");
        reveal_strlit("7");
        reveal_strlit("8");
        reveal_strlit("9");
    }
    let r = if d == 0 {
        "0"
    } else if d == 1 {
        "1"
    } else if d == 2 {
        "2"
    } else if d == 3 {
        "3"
    } else if d == 4 {
        "4"
    } else if d == 5 {
        "5"
    } else if d == 6 {
        "6"
    } else if d == 7 {
        "7"
    } else if d == 8 {
        "8"
    } else {
        "9"
    };
    proof {
        assert(r@ =~= seq![spec_digit_char(d as int)]);
    }
    r
}

/// The decimal digits of `x`, most significant first.
fn decimal_digits(x: usize) -> (r: String)
    ensures
        r@ == spec_digits(x as int),
{
    let mut s = String::new();
    let mut rem: usize = x;
    loop
        invariant_except_break
            (s@.len() == 0 && rem == x) || (rem >= 1 && spec_digits(x as int) == spec_digits(
                rem as int,
            ) + s@),
        ensures
            s@ == spec_digits(x as int),
        decreases rem,
    {
        let d = rem % 10;
        let next = rem / 10;
        let s2 = String::from_str(digit_str(d)).concat(s.as_str());
        proof {
            if s@.len() == 0 && rem == x {
                if next == 0 {
                    assert(x < 10);
                    assert(s2@ =~= spec_digits(x as int));
                } else {
                    assert(rem >= 10);
                    assert(spec_digits(x as int) =~= spec_digits(next as int) + s2@);
                }
            } else {
                if next == 0 {
                    assert(rem < 10);
                    assert(spec_digits(rem as int) =~= seq![spec_digit_char(rem as int)]);
                    assert(s2@ =~= spec_digits(x as int));
                } else {
                    assert(rem >= 10);
                    assert(spec_digits(rem as int) =~= spec_digits(next as int) + seq![
                        spec_digit_char((rem % 10) as int),
                    ]);
                    assert(spec_digits(x as int) =~= spec_digits(next as int) + s2@);
                }
            }
        }
        s = s2;
        rem = next;
        if rem == 0 {
            break ;
        }
    }
    s
}

/// The artifact name of batch `batch_index`, as the sink expects it.
pub fn batch_file_name(batch_index: usize) -> (r: String)
    ensures
        r@ == spec_batch_file_name(batch_index as int),
{
    let mut s = String::from_str("batch_");
    if batch_index < 10 {
        s.append("000");
        proof {
            reveal_strlit("000");
            assert("000"@ =~= spec_zero_pad(batch_index as int));
        }
    } else if batch_index < 100 {
        s.append("00");
        proof {
            reveal_strlit("00");
            assert("00"@ =~= spec_zero_pad(batch_index as int));
        }
    } else if batch_index < 1000 {
        s.append("0");
        proof {
            reveal_strlit("0");
            assert("0"@ =~= spec_zero_pad(batch_index as int));
        }
    } else {
        proof {
            assert(Seq::<char>::empty() =~= spec_zero_pad(batch_index as int));
            assert(s@ =~= s@ + spec_zero_pad(batch_index as int));
        }
    }
    let digits = decimal_digits(batch_index);
    s.append(digits.as_str());
    s.append(".bin.gz");
    proof {
        assert(s@ =~= spec_batch_file_name(batch_index as int));
    }
    s
}

/// Serialization round trip: an artifact whose decompressed payload
/// encodes a batch reads back as exactly that batch — header fields and
/// every position bit pattern alike.  `compress_batch` produces such an
/// artifact for every batch it accepts.
pub proof fn lemma_batch_round_trip(c: Seq<u8>, frames_per_file: u32, num_particles: u32, positions: Seq<Vec3Bits>)
    requires
        gunzip_of(c) == Some(spec_encode_batch(frames_per_file, num_particles, positions)),
        positions.len() == (frames_per_file as int) * (num_particles as int),
    ensures
        spec_read_batch(c) == Some((frames_per_file, num_particles, positions)),
{
    crate::codec::lemma_decode_of_encode_batch(frames_per_file, num_particles, positions);
}

} // verus!
