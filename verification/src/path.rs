//! Path-argument normalization: conversions between text arguments and the
//! null-terminated byte form handed to host system calls.
//!
//! A conversion to the null-terminated form fails exactly when the source
//! holds an embedded terminator byte; a conversion back to text fails
//! exactly when the bytes are not valid text; the lossy conversion never
//! fails and substitutes replacement characters.

use vstd::prelude::*;
use vstd::string::StringSliceAdditionalSpecFns;
use vstd::string::StrSliceExecFns;
use vstd::utf8::decode_utf8;
use vstd::utf8::encode_utf8;
use vstd::utf8::encode_utf8_decode_utf8;
use vstd::utf8::encode_utf8_valid_utf8;
use vstd::utf8::valid_utf8;

verus! {

/// How a path-argument conversion failed; the payload names the
/// representation that could not be produced.
#[derive(Clone, Copy, Debug, PartialEq, Eq)]
pub enum ConversionError {
    /// Failed to convert to the named representation.
    FailedToConvertTo(&'static str),
}

/// What [`String::from_utf8_lossy`] makes of the given bytes. The lossy
/// decoding substitutes replacement characters for invalid sequences; its
/// full definition is not restated here, only that it is a function of the
/// bytes alone.
pub uninterp spec fn lossy_decode(bytes: Seq<u8>) -> Seq<char>;

/// Relies on `String::from_utf8_lossy` (std): the result depends on the
/// bytes alone, and bytes that are valid text are decoded unchanged.
#[verifier::external_body]
fn bytes_to_string_lossy(bytes: &Vec<u8>) -> (r: String)
    ensures
        r@ == lossy_decode(bytes@),
        valid_utf8(bytes@) ==> r@ == decode_utf8(bytes@),
{
    String::from_utf8_lossy(bytes.as_slice()).into_owned()
}

/// Relies on `std::str::from_utf8`: it succeeds exactly on valid text, and
/// the returned slice is backed by the given bytes.
#[verifier::external_body]
fn bytes_as_str(bytes: &Vec<u8>) -> (r: Option<&str>)
    ensures
        r is Some <==> valid_utf8(bytes@),
        r matches Some(s) ==> s.spec_bytes() == bytes@,
{
    std::str::from_utf8(bytes.as_slice()).ok()
}

/// Whether the bytes hold a terminator byte anywhere.
fn contains_nul(bytes: &Vec<u8>) -> (r: bool)
    ensures
        r == bytes@.contains(0u8),
{
    let n = bytes.len();
    let mut i: usize = 0;
    while i < n
        invariant
            n == bytes@.len(),
            i <= n,
            forall|k: int| 0 <= k < i ==> bytes@[k] != 0u8,
        decreases n - i,
    {
        if bytes[i] == 0u8 {
            assert(bytes@.contains(0u8));
            return true;
        }
        i += 1;
    }
    false
}

/// An owned null-terminated byte string, as handed to a host system call
/// taking a path.
///
/// The buffer holds the content bytes; none of them is a terminator, so the
/// terminator's place is unambiguous and [`CStrBuf::into_bytes_with_nul`]
/// materializes it. The view is the content without the terminator.
pub struct CStrBuf {
    bytes: Vec<u8>,
}

impl View for CStrBuf {
    type V = Seq<u8>;

    closed spec fn view(&self) -> Seq<u8> {
        self.bytes@
    }
}

impl CStrBuf {
    /// Well-formedness: no content byte is a terminator.
    pub open spec fn wf(self) -> bool {
        !self@.contains(0u8)
    }

    /// Build a null-terminated string from raw bytes, which need not be
    /// valid text; fails exactly when the bytes hold an embedded terminator.
    pub fn from_bytes(bytes: &Vec<u8>) -> (r: Result<CStrBuf, ConversionError>)
        ensures
            match r {
                Ok(c) => !bytes@.contains(0u8) && c@ == bytes@ && c.wf(),
                Err(e) => bytes@.contains(0u8) && e == ConversionError::FailedToConvertTo(
                    "c string",
                ),
            },
    {
        if contains_nul(bytes) {
            return Err(ConversionError::FailedToConvertTo("c string"));
        }
        let n = bytes.len();
        let mut copy: Vec<u8> = Vec::new();
        let mut i: usize = 0;
        while i < n
            invariant
                n == bytes@.len(),
                i <= n,
                copy@ == bytes@.take(i as int),
            decreases n - i,
        {
            copy.push(bytes[i]);
            proof {
                assert(copy@ =~= bytes@.take(i + 1 as int));
            }
            i += 1;
        }
        proof {
            assert(bytes@.take(n as int) =~= bytes@);
        }
        Ok(CStrBuf { bytes: copy })
    }

    /// The content bytes followed by the terminator: what the host call is
    /// actually given.
    pub fn into_bytes_with_nul(&self) -> (r: Vec<u8>)
        ensures
            r@ == self@.push(0u8),
    {
        let n = self.bytes.len();
        let mut out: Vec<u8> = Vec::new();
        let mut i: usize = 0;
        while i < n
            invariant
                n == self@.len(),
                i <= n,
                out@ == self@.take(i as int),
            decreases n - i,
        {
            out.push(self.bytes[i]);
            proof {
                assert(out@ =~= self@.take(i + 1 as int));
            }
            i += 1;
        }
        out.push(0u8);
        proof {
            assert(self@.take(n as int) =~= self@);
        }
        out
    }

    /// Convert to a null-terminated string: already one, so this borrows
    /// rather than copies, and never fails.
    pub fn to_c_str(&self) -> (r: Result<&CStrBuf, ConversionError>)
        ensures
            r matches Ok(c) && c@ == self@,
    {
        Ok(self)
    }

    /// Convert to text: succeeds exactly when the content bytes are valid
    /// text, and then yields their decoding.
    pub fn as_rust_str(&self) -> (r: Result<String, ConversionError>)
        ensures
            match r {
                Ok(t) => valid_utf8(self@) && t@ == decode_utf8(self@),
                Err(e) => !valid_utf8(self@) && e == ConversionError::FailedToConvertTo(
                    "rust string",
                ),
            },
    {
        match bytes_as_str(&self.bytes) {
            Some(s) => {
                proof {
                    broadcast use encode_utf8_decode_utf8;

                }
                Ok(s.to_owned())
            },
            None => Err(ConversionError::FailedToConvertTo("rust string")),
        }
    }

    /// Lossily convert to text: never fails; content that is valid text is
    /// decoded unchanged, anything else gets replacement characters.
    pub fn to_rust_str_lossy(&self) -> (r: String)
        ensures
            r@ == lossy_decode(self@),
            valid_utf8(self@) ==> r@ == decode_utf8(self@),
    {
        bytes_to_string_lossy(&self.bytes)
    }
}

/// Convert a text argument to a null-terminated string; fails exactly when
/// the text's byte form holds an embedded terminator byte — that is, exactly
/// when the text holds the nul character.
pub fn to_c_str(s: &str) -> (r: Result<CStrBuf, ConversionError>)
    ensures
        r is Err <==> s@.contains('\0'),
        match r {
            Ok(c) => !s.spec_bytes().contains(0u8) && c@ == s.spec_bytes() && c.wf(),
            Err(e) => s.spec_bytes().contains(0u8) && e == ConversionError::FailedToConvertTo(
                "c string",
            ),
        },
{
    proof {
        lemma_nul_byte_is_nul_char(s@);
    }
    let bytes = s.as_bytes_vec();
    CStrBuf::from_bytes(&bytes)
}

/// Convert a text argument to text: the identity, and never fails.
pub fn as_rust_str<'a>(s: &'a str) -> (r: Result<&'a str, ConversionError>)
    ensures
        r matches Ok(t) && t@ == s@,
{
    Ok(s)
}

/// Lossily convert a text argument to text: already valid, so this is a
/// plain copy.
pub fn to_rust_str_lossy(s: &str) -> (r: String)
    ensures
        r@ == s@,
{
    s.to_owned()
}

proof fn lemma_encode_scalar_nul(scalar: u32)
    requires
        vstd::utf8::is_scalar(scalar),
    ensures
        vstd::utf8::encode_scalar(scalar).contains(0u8) <==> scalar == 0,
{
    let enc = vstd::utf8::encode_scalar(scalar);
    if vstd::utf8::has_width_1_encoding(scalar) {
        assert(scalar <= 0x7F ==> (((scalar & 0x7F) as u8 == 0) <==> scalar == 0)) by (bit_vector);
        if scalar == 0 {
            assert(enc[0] == 0u8);
        }
    } else if vstd::utf8::has_width_2_encoding(scalar) {
        assert((0xC0u8 | ((scalar >> 6) & 0x1F) as u8) != 0) by (bit_vector);
        assert((0x80u8 | (scalar & 0x3F) as u8) != 0) by (bit_vector);
        assert(forall|i: int| 0 <= i < enc.len() ==> enc[i] != 0u8);
    } else if vstd::utf8::has_width_3_encoding(scalar) {
        assert((0xE0u8 | ((scalar >> 12) & 0x0F) as u8) != 0) by (bit_vector);
        assert((0x80u8 | ((scalar >> 6) & 0x3F) as u8) != 0) by (bit_vector);
        assert((0x80u8 | (scalar & 0x3F) as u8) != 0) by (bit_vector);
        assert(forall|i: int| 0 <= i < enc.len() ==> enc[i] != 0u8);
    } else {
        assert((0xF0u8 | ((scalar >> 18) & 0x7) as u8) != 0) by (bit_vector);
        assert((0x80u8 | ((scalar >> 12) & 0x3F) as u8) != 0) by (bit_vector);
        assert((0x80u8 | ((scalar >> 6) & 0x3F) as u8) != 0) by (bit_vector);
        assert((0x80u8 | (scalar & 0x3F) as u8) != 0) by (bit_vector);
        assert(forall|i: int| 0 <= i < enc.len() ==> enc[i] != 0u8);
    }
}

/// Text holds an embedded terminator byte exactly when it holds the nul
/// character: the terminator byte never occurs inside the encoding of any
/// other character.
pub proof fn lemma_nul_byte_is_nul_char(text: Seq<char>)
    ensures
        encode_utf8(text).contains(0u8) <==> text.contains('\0'),
    decreases text.len(),
{
    broadcast use vstd::utf8::char_is_scalar;

    if text.len() > 0 {
        let first = vstd::utf8::encode_scalar(text[0] as u32);
        let rest = encode_utf8(text.drop_first());
        vstd::utf8::char_is_scalar(text[0]);
        lemma_encode_scalar_nul(text[0] as u32);
        lemma_nul_byte_is_nul_char(text.drop_first());
        assert(encode_utf8(text) == first + rest);
        if text[0] as u32 == 0 {
            vstd::utf8::char_u32_cast(text[0], 0);
            assert(text[0] == '\0');
            assert(text.contains('\0'));
            let i = choose|i: int| 0 <= i < first.len() && first[i] == 0u8;
            assert((first + rest)[i] == 0u8);
            assert(encode_utf8(text).contains(0u8));
        } else {
            assert(text[0] != '\0');
            if rest.contains(0u8) {
                let i = choose|i: int| 0 <= i < rest.len() && rest[i] == 0u8;
                assert((first + rest)[first.len() + i] == 0u8);
                assert(encode_utf8(text).contains(0u8));
            }
            if encode_utf8(text).contains(0u8) {
                let i = choose|i: int| 0 <= i < (first + rest).len() && (first + rest)[i] == 0u8;
                if i < first.len() {
                    assert(first[i] == 0u8);
                } else {
                    assert(rest[i - first.len()] == 0u8);
                    assert(rest.contains(0u8));
                }
            }
            if text.contains('\0') {
                let i = choose|i: int| 0 <= i < text.len() && text[i] == '\0';
                assert(text.drop_first()[i - 1] == '\0');
                assert(text.drop_first().contains('\0'));
            }
            if text.drop_first().contains('\0') {
                let i = choose|i: int| 0 <= i < text.drop_first().len()
                    && text.drop_first()[i] == '\0';
                assert(text[i + 1] == '\0');
                assert(text.contains('\0'));
            }
        }
    }
}

/// Round trip: converting valid text to its null-terminated form and back
/// succeeds and yields the original text. The null-terminated form of text
/// `t` has content `encode_utf8(t)` (the ensures of [`to_c_str`]); that
/// content is valid text, so [`CStrBuf::as_rust_str`] on it is owed success,
/// and what it decodes is exactly `t`.
pub proof fn lemma_c_str_round_trip(text: Seq<char>)
    ensures
        valid_utf8(encode_utf8(text)),
        decode_utf8(encode_utf8(text)) == text,
{
    broadcast use encode_utf8_valid_utf8;
    broadcast use encode_utf8_decode_utf8;

}

} // verus!
