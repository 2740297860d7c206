//! The identity value: an opaque byte string together with a confidence
//! classification, the single output type of every acquisition strategy.

use vstd::prelude::*;
use crate::endian::{be_bytes, i64_bits, i64_to_bits, lemma_be_bytes_len, to_be_vec};

verus! {

/// Whether the source mechanism is expected to stay stable for the lifetime
/// of the OS install (`High`) or may change across boots, updates or
/// reconfiguration (`Low`).
#[derive(Clone, Copy, Debug, PartialEq, Eq, Structural)]
pub enum Confidence {
    High,
    Low,
}

/// Mathematical content of a [`SystemId`]: its bytes and its confidence.
pub struct IdData {
    pub bytes: Seq<u8>,
    pub confidence: Confidence,
}

/// A machine identity value: a non-empty byte string, fixed per source, plus
/// the confidence classification set once at construction. Values are built
/// inside exactly one strategy invocation and never mutated.
#[derive(Debug, PartialEq, Eq)]
pub struct SystemId {
    bytes: Vec<u8>,
    confidence: Confidence,
}

impl View for SystemId {
    type V = IdData;

    closed spec fn view(&self) -> IdData {
        IdData { bytes: self.bytes@, confidence: self.confidence }
    }
}

impl SystemId {
    /// An identity value never carries an empty byte string.
    pub open spec fn valid(self) -> bool {
        self@.bytes.len() > 0
    }

    /// Wraps an already-canonical byte string, such as parsed UUID bytes or a
    /// digest, without reinterpreting it.
    pub fn from_bytes(bytes: Vec<u8>, confidence: Confidence) -> (r: SystemId)
        requires
            bytes@.len() > 0,
        ensures
            r@.bytes == bytes@,
            r@.confidence == confidence,
            r.valid(),
    {
        SystemId { bytes, confidence }
    }

    /// Canonical 16-byte big-endian representation of a 128-bit identifier.
    pub fn from_u128(value: u128, confidence: Confidence) -> (r: SystemId)
        ensures
            r@.bytes == be_bytes(value as nat, 16),
            r@.bytes.len() == 16,
            r@.confidence == confidence,
            r.valid(),
    {
        proof {
            lemma_be_bytes_len(value as nat, 16);
        }
        SystemId { bytes: to_be_vec(value, 16), confidence }
    }

    /// Canonical 8-byte big-endian representation of a signed machine word,
    /// by its two's-complement bit pattern.
    pub fn from_i64(value: i64, confidence: Confidence) -> (r: SystemId)
        ensures
            r@.bytes == be_bytes(i64_bits(value), 8),
            r@.bytes.len() == 8,
            r@.confidence == confidence,
            r.valid(),
    {
        proof {
            lemma_be_bytes_len(i64_bits(value), 8);
        }
        let bits = i64_to_bits(value);
        SystemId { bytes: to_be_vec(bits as u128, 8), confidence }
    }

    /// Canonical 4-byte big-endian representation of a 32-bit identifier.
    pub fn from_u32(value: u32, confidence: Confidence) -> (r: SystemId)
        ensures
            r@.bytes == be_bytes(value as nat, 4),
            r@.bytes.len() == 4,
            r@.confidence == confidence,
            r.valid(),
    {
        proof {
            lemma_be_bytes_len(value as nat, 4);
        }
        SystemId { bytes: to_be_vec(value as u128, 4), confidence }
    }

    /// The identity value's bytes.
    pub fn bytes(&self) -> (r: &Vec<u8>)
        ensures
            r@ == self@.bytes,
    {
        &self.bytes
    }

    /// The identity value's confidence classification.
    pub fn confidence(&self) -> (r: Confidence)
        ensures
            r == self@.confidence,
    {
        self.confidence
    }
}

} // verus!
