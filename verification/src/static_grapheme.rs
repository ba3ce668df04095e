//! Fixed-capacity grapheme encoding.
//!
//! A [`StaticGrapheme`] copies a grapheme cluster into at most `N` bytes
//! of UTF-8. A cluster whose encoding does not fit (or exceeds the
//! historical 254-byte ceiling) is stored as an overflow sentinel that
//! decodes to the Unicode replacement character — never as a partial or
//! garbled byte sequence.

use vstd::prelude::*;
use vstd::string::StringSliceAdditionalSpecFns;
use vstd::utf8::{decode_utf8, encode_utf8, valid_utf8};

use crate::unicode::{is_single_grapheme, Grapheme};

verus! {

/// Relies on `core::str::from_utf8`: returns the string viewing exactly
/// the given bytes when they are valid UTF-8, and fails otherwise.
#[verifier::external_body]
fn bytes_to_str(b: &[u8]) -> (r: Option<&str>)
    ensures
        r is Some <==> valid_utf8(b@),
        r matches Some(s) ==> s.spec_bytes() == b@,
{
    core::str::from_utf8(b).ok()
}

/// A grapheme cluster encoded into at most `N` bytes, or an overflow
/// sentinel when the cluster's UTF-8 form is longer than that.
#[derive(Debug)]
pub enum StaticGrapheme<const N: usize> {
    Overflowed,
    InBounds { contents: Vec<u8> },
}

impl<const N: usize> StaticGrapheme<N> {
    pub open spec fn wf(&self) -> bool {
        match self {
            StaticGrapheme::Overflowed => true,
            StaticGrapheme::InBounds { contents } => contents@.len() <= N && contents@.len()
                <= 254 && valid_utf8(contents@) && is_single_grapheme(decode_utf8(contents@))
                && decode_utf8(contents@).len() > 0,
        }
    }

    /// The cluster this encoding stands for: the encoded bytes decoded,
    /// or the replacement character for the overflow sentinel.
    pub open spec fn decoded(&self) -> Seq<char> {
        match self {
            StaticGrapheme::Overflowed => seq!['\u{FFFD}'],
            StaticGrapheme::InBounds { contents } => decode_utf8(contents@),
        }
    }

    /// Encode a grapheme cluster. Round trip: whenever the cluster's
    /// UTF-8 form fits the capacity, decoding gives the cluster back;
    /// otherwise the result is the overflow sentinel.
    pub fn from_single_grapheme(grapheme: &Grapheme) -> (r: Self)
        requires
            grapheme.wf(),
        ensures
            r.wf(),
            encode_utf8(grapheme@).len() <= N && encode_utf8(grapheme@).len() <= 254 ==> (
            r is InBounds && r.decoded() == grapheme@),
            encode_utf8(grapheme@).len() > N || encode_utf8(grapheme@).len() > 254 ==> r
                is Overflowed,
    {
        let len = grapheme.len();
        if len > N || len > 254 {
            return StaticGrapheme::Overflowed;
        }
        let contents = vstd::slice::slice_to_vec(grapheme.as_str().as_bytes());
        proof {
            vstd::utf8::encode_utf8_valid_utf8(grapheme@);
            vstd::utf8::encode_utf8_decode_utf8(grapheme@);
        }
        StaticGrapheme::InBounds { contents }
    }

    /// Encode the first grapheme cluster of a string, if there is one:
    /// the round trip of `from_single_grapheme` applied to that cluster.
    pub fn from_single_grapheme_str(s: &str) -> (r: Option<Self>)
        ensures
            crate::unicode::graphemes_of(s@).len() == 0 ==> r is None,
            crate::unicode::graphemes_of(s@).len() > 0 ==> ({
                let first = crate::unicode::graphemes_of(s@)[0];
                &&& r matches Some(sg)
                &&& sg.wf()
                &&& (encode_utf8(first).len() <= N && encode_utf8(first).len() <= 254 ==> (
                sg is InBounds && sg.decoded() == first))
                &&& (encode_utf8(first).len() > N || encode_utf8(first).len() > 254 ==> sg
                    is Overflowed)
            }),
    {
        match Grapheme::from_single_grapheme_str(s) {
            None => None,
            Some(g) => Some(Self::from_single_grapheme(&g)),
        }
    }

    /// Whether this encoding is the overflow sentinel.
    pub fn did_overflow(&self) -> (r: bool)
        ensures
            r == (self is Overflowed),
    {
        match self {
            StaticGrapheme::Overflowed => true,
            StaticGrapheme::InBounds { .. } => false,
        }
    }

    /// Decode back to a grapheme cluster. The overflow sentinel decodes
    /// to the Unicode replacement character.
    pub fn decode(&self) -> (r: Grapheme)
        requires
            self.wf(),
        ensures
            r@ == self.decoded(),
            r.wf(),
    {
        match self {
            StaticGrapheme::Overflowed => Grapheme::from_char('\u{FFFD}'),
            StaticGrapheme::InBounds { contents } => {
                let s = bytes_to_str(contents.as_slice());
                match s {
                    Some(st) => {
                        proof {
                            vstd::utf8::encode_utf8_decode_utf8(st@);
                        }
                        Grapheme::from_owned(st.to_owned())
                    },
                    None => {
                        proof {
                            assert(false);
                        }
                        Grapheme::from_char('\u{FFFD}')
                    },
                }
            },
        }
    }
}

} // verus!
