//! The name of a machine: a digest of its rendering, in hexadecimal.

use vstd::prelude::*;
use vstd::string::StringExecFns;
use crate::machine::Machine;
use crate::render::{machine_text, render_machine};

verus! {

/// The SHA-256 digest of a sequence of bytes.
pub uninterp spec fn sha256_of(data: Seq<u8>) -> Seq<u8>;

/// The most bytes that can be digested: the number of their bits must
/// fit in 64 bits.
pub const DIGEST_INPUT_MAX: u64 = 0x1fff_ffff_ffff_ffff;

/// The hexadecimal digit of a number below 16, in lower case.
pub open spec fn hex_digit(d: int) -> char {
    "0123456789abcdef"@[d]
}

/// The bytes in hexadecimal: for each byte the digit of its upper half
/// and the digit of its lower half.
pub open spec fn hex_text(data: Seq<u8>) -> Seq<char>
    decreases data.len(),
{
    if data.len() == 0 {
        Seq::empty()
    } else {
        hex_text(data.drop_last()).push(hex_digit(data.last() as int / 16)).push(
            hex_digit(data.last() as int % 16),
        )
    }
}

/// `ring::digest::digest` with `ring::digest::SHA256`: the SHA-256
/// digest of the data, which has 32 bytes. It is a function of the data
/// alone. The call panics on data of more bytes than can be digested,
/// which the precondition rules out.
#[verifier::external_body]
fn sha256(data: &[u8]) -> (r: Vec<u8>)
    requires
        data@.len() <= DIGEST_INPUT_MAX,
    ensures
        r@ == sha256_of(data@),
        r@.len() == 32,
{
    ring::digest::digest(&ring::digest::SHA256, data).as_ref().to_vec()
}

/// The hexadecimal digit of a number below 16, as a text of one letter.
fn digit_text(d: u8) -> (r: &'static str)
    requires
        d < 16,
    ensures
        r@ == seq![hex_digit(d as int)],
{
    proof {
        reveal_strlit("0123456789abcdef");
        reveal_strlit("0");
        reveal_strlit("1");
        reveal_strlit("2");
        reveal_strlit("3");
        reveal_strlit("4");
        reveal_strlit("5");
        reveal_strlit("6");
        reveal_strlit("7");
        reveal_strlit("8");
        reveal_strlit("9");
        reveal_strlit("a");
        reveal_strlit("b");
        reveal_strlit("c");
        reveal_strlit("d");
        reveal_strlit("e");
        reveal_strlit("f");
    }
    let r = match d {
        0 => "0",
        1 => "1",
        2 => "2",
        3 => "3",
        4 => "4",
        5 => "5",
        6 => "6",
        7 => "7",
        8 => "8",
        9 => "9",
        10 => "a",
        11 => "b",
        12 => "c",
        13 => "d",
        14 => "e",
        _ => "f",
    };
    assert(r@ =~= seq![hex_digit(d as int)]);
    r
}

/// The bytes in hexadecimal: two digits in lower case for each byte, in
/// the order of the bytes.
pub fn hex_encode(data: &[u8]) -> (r: String)
    ensures
        r@ == hex_text(data@),
{
    let mut out = String::new();
    let mut k: usize = 0;
    while k < data.len()
        invariant
            k <= data.len(),
            out@ == hex_text(data@.take(k as int)),
        decreases data.len() - k,
    {
        let b = data[k];
        out.append(digit_text(b / 16));
        out.append(digit_text(b % 16));
        proof {
            let next = data@.take(k + 1);
            assert(next.drop_last() =~= data@.take(k as int));
            assert(next.last() == b);
            assert(out@ =~= hex_text(next));
        }
        k = k + 1;
    }
    assert(data@.take(data@.len() as int) =~= data@);
    out
}

impl Machine {
    /// What is digested for the name: the rendering of the machine, as
    /// far as it can be digested.
    pub open spec fn name_input(&self) -> Seq<u8> {
        if machine_text(*self).len() > DIGEST_INPUT_MAX {
            machine_text(*self).take(DIGEST_INPUT_MAX as int)
        } else {
            machine_text(*self)
        }
    }

    /// The name of the machine: the first half of the SHA-256 digest of
    /// its rendering, in hexadecimal.
    pub open spec fn name_text(&self) -> Seq<char> {
        hex_text(sha256_of(self.name_input()).take(16))
    }

    /// The name of the machine: 32 hexadecimal digits that depend on
    /// nothing but the fields of the machine.
    pub fn name(&self) -> (r: String)
        ensures
            r@ == self.name_text(),
            r@.len() == 32,
    {
        let mut text = render_machine(self);
        if text.len() as u64 > DIGEST_INPUT_MAX {
            text.truncate(DIGEST_INPUT_MAX as usize);
        }
        let mut digest = sha256(text.as_slice());
        digest.truncate(16);
        proof {
            lemma_hex_length(digest@);
        }
        hex_encode(digest.as_slice())
    }
}

/// Bytes in hexadecimal take two digits each.
pub proof fn lemma_hex_length(data: Seq<u8>)
    ensures
        hex_text(data).len() == 2 * data.len(),
    decreases data.len(),
{
    if data.len() > 0 {
        lemma_hex_length(data.drop_last());
    }
}

} // verus!
