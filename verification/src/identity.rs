//! Node identities: an index into the slot table paired with the generation
//! of the slot at the time the identity was issued.

use vstd::prelude::*;
use vstd::string::StringExecFns;
use crate::slots::{key_index, key_version};

verus! {

/// Stable handle to a node: a slot index and the slot's generation when the
/// handle was issued. Two identities are equal exactly when both fields are.
#[derive(Clone, Copy, Debug, PartialEq, Eq, Hash, Structural)]
pub struct NodeId {
    pub index: u32,
    pub generation: u32,
}

/// Splitting a word and packing the halves again gives the word back.
pub proof fn lemma_bits_split(bits: u64)
    ensures
        ((((bits >> 32) as u32) as u64) << 32) | (((bits & 0xffff_ffff) as u32) as u64) == bits,
{
    assert(((((bits >> 32) as u32) as u64) << 32) | (((bits & 0xffff_ffff) as u32) as u64) == bits)
        by (bit_vector);
}

/// Packing two halves and splitting the word gives the halves back.
pub proof fn lemma_bits_join(index: u32, generation: u32)
    ensures
        (((generation as u64) << 32) | (index as u64)) & 0xffff_ffff == index,
        (((generation as u64) << 32) | (index as u64)) >> 32 == generation,
{
    assert((((generation as u64) << 32) | (index as u64)) & 0xffff_ffff == index as u64)
        by (bit_vector);
    assert((((generation as u64) << 32) | (index as u64)) >> 32 == generation as u64)
        by (bit_vector);
}

/// The character that stands for one decimal digit.
pub open spec fn digit_char(d: nat) -> char {
    if d == 0 {
        '0'
    } else if d == 1 {
        '1'
    } else if d == 2 {
        '2'
    } else if d == 3 {
        '3'
    } else if d == 4 {
        '4'
    } else if d == 5 {
        '5'
    } else if d == 6 {
        '6'
    } else if d == 7 {
        '7'
    } else if d == 8 {
        '8'
    } else {
        '9'
    }
}

/// The decimal numeral of `n`, most significant digit first, without
/// leading zeros.
pub open spec fn decimal(n: nat) -> Seq<char>
    decreases n,
{
    if n < 10 {
        seq![digit_char(n)]
    } else {
        decimal(n / 10).push(digit_char(n % 10))
    }
}

/// The generation as it is shown to people: forced odd.
pub open spec fn shown_generation(generation: u32) -> u32 {
    generation | 1
}

/// The one-character string for a decimal digit.
fn digit_str(d: u32) -> (s: &'static str)
    requires
        d < 10,
    ensures
        s@ == seq![digit_char(d as nat)],
{
    proof {
        reveal_strlit("0");
        reveal_strlit("1");
        reveal_strlit("2");
        reveal_strlit("3");
        reveal_strlit("4");
        reveal_strlit("5");
        reveal_strlit("6");
        reveal_strlit("7");
        reveal_strlit("8");
        reveal_strlit("9");
    }
    let s: &'static str = if d == 0 {
        "0"
    } else if d == 1 {
        "1"
    } else if d == 2 {
        "2"
    } else if d == 3 {
        "3"
    } else if d == 4 {
        "4"
    } else if d == 5 {
        "5"
    } else if d == 6 {
        "6"
    } else if d == 7 {
        "7"
    } else if d == 8 {
        "8"
    } else {
        "9"
    };
    assert(s@ =~= seq![digit_char(d as nat)]);
    s
}

/// Appends the decimal numeral of `n` to `out`.
fn push_decimal(out: &mut String, n: u32)
    ensures
        final(out)@ == old(out)@ + decimal(n as nat),
    decreases n,
{
    if n >= 10 {
        push_decimal(out, n / 10);
    }
    out.append(digit_str(n % 10));
    assert(final(out)@ =~= old(out)@ + decimal(n as nat));
}

impl NodeId {
    /// The identity as one word: generation in the high half, index in the low.
    pub open spec fn bits(self) -> u64 {
        ((self.generation as u64) << 32) | (self.index as u64)
    }

    /// The identity that a packed word stands for.
    pub open spec fn of_bits(bits: u64) -> NodeId {
        NodeId { index: key_index(bits), generation: key_version(bits) }
    }

    /// Whether the generation is odd. Only odd generations are ever issued.
    pub open spec fn is_odd(self) -> bool {
        self.generation % 2 == 1
    }

    /// Packs the identity into one word.
    pub fn to_bits(self) -> (bits: u64)
        ensures
            bits == self.bits(),
            NodeId::of_bits(bits) == self,
    {
        proof {
            lemma_bits_join(self.index, self.generation);
        }
        ((self.generation as u64) << 32) | (self.index as u64)
    }

    /// Unpacks an identity from one word.
    pub fn from_bits(bits: u64) -> (id: NodeId)
        ensures
            id == NodeId::of_bits(bits),
            id.bits() == bits,
    {
        proof {
            lemma_bits_split(bits);
        }
        NodeId { index: (bits & 0xffff_ffff) as u32, generation: (bits >> 32) as u32 }
    }

    /// The text that `to_string` renders: the index, the letter `v`, and the
    /// generation forced odd, both in decimal.
    pub open spec fn shown(self) -> Seq<char> {
        decimal(self.index as nat) + seq!['v'] + decimal(shown_generation(self.generation) as nat)
    }

    /// Renders the identity for people to read. The text is for display only:
    /// identities are compared and looked up by their fields, never by it.
    pub fn to_string(&self) -> (text: String)
        ensures
            text@ == self.shown(),
    {
        let mut text = String::new();
        push_decimal(&mut text, self.index);
        proof {
            reveal_strlit("v");
        }
        text.append("v");
        push_decimal(&mut text, self.generation | 1);
        assert(text@ =~= self.shown());
        text
    }
}

} // verus!
