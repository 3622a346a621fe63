use vstd::prelude::*;

verus! {

/// A 32-byte account address.
#[derive(Clone, Copy, Debug, Eq)]
pub struct Key {
    pub bytes: [u8; 32],
}

impl View for Key {
    type V = Seq<u8>;

    open spec fn view(&self) -> Seq<u8> {
        self.bytes@
    }
}

/// The all-zero address.
pub open spec fn zero_key() -> Key {
    key_from_seq(Seq::new(32, |i: int| 0u8))
}

/// The address whose bytes are the first 32 of `s`.
pub open spec fn key_from_seq(s: Seq<u8>) -> Key {
    Key {
        bytes: [
            s[0], s[1], s[2], s[3], s[4], s[5], s[6], s[7], s[8], s[9], s[10], s[11], s[12], s[13],
            s[14], s[15], s[16], s[17], s[18], s[19], s[20], s[21], s[22], s[23], s[24], s[25], s[26],
            s[27], s[28], s[29], s[30], s[31],
        ],
    }
}

pub proof fn lemma_key_from_seq(s: Seq<u8>)
    requires
        s.len() == 32,
    ensures
        key_from_seq(s)@ == s,
{
    assert(key_from_seq(s)@ =~= s);
}

/// Reading an address back from its bytes gives the address.
pub proof fn lemma_key_round_trip(k: Key)
    ensures
        key_from_seq(k@) == k,
{
    lemma_key_from_seq(k@);
    lemma_key_view_injective(key_from_seq(k@), k);
}

/// Byte form of the address of this program.
pub const PROGRAM_ID_BYTES: [u8; 32] = [
    159, 158, 109, 114, 202, 169, 167, 30, 49, 81, 131, 195, 43, 211, 40, 41,
    237, 90, 2, 55, 148, 247, 135, 22, 141, 191, 183, 226, 200, 115, 103, 59,
];

impl Key {
    pub fn new(bytes: [u8; 32]) -> (r: Key)
        ensures
            r.bytes == bytes,
    {
        Key { bytes }
    }

    /// The all-zero address, which stands for "no account".
    pub fn zero() -> (r: Key)
        ensures
            r == zero_key(),
            r.is_zero_spec(),
    {
        let r = Key { bytes: [0u8; 32] };
        assert(r.is_zero_spec());
        proof {
            lemma_key_from_seq(Seq::new(32, |i: int| 0u8));
            assert(r@ =~= zero_key()@);
            lemma_key_view_injective(r, zero_key());
        }
        r
    }

    /// Reads an address from 32 bytes of `data` starting at `at`.
    pub fn read_from(data: &Vec<u8>, at: usize) -> (r: Key)
        requires
            at + 32 <= data@.len(),
        ensures
            r@ == data@.subrange(at as int, at + 32),
            r == key_from_seq(data@.subrange(at as int, at + 32)),
    {
        let n = data.len();
        let mut bytes = [0u8; 32];
        let mut i: usize = 0;
        while i < 32
            invariant
                0 <= i <= 32,
                at + 32 <= data@.len(),
                n == data@.len(),
                forall|j: int| 0 <= j < i ==> bytes@[j] == data@[at + j],
            decreases 32 - i,
        {
            bytes[i] = data[at + i];
            i = i + 1;
        }
        let r = Key { bytes };
        assert(r@ =~= data@.subrange(at as int, at + 32));
        proof {
            lemma_key_from_seq(data@.subrange(at as int, at + 32));
            lemma_key_view_injective(r, key_from_seq(data@.subrange(at as int, at + 32)));
        }
        r
    }

    pub open spec fn is_zero_spec(&self) -> bool {
        forall|i: int| 0 <= i < 32 ==> #[trigger] self.bytes[i] == 0u8
    }

    /// The address of this program.
    pub fn program_id() -> (r: Key)
        ensures
            r.bytes == PROGRAM_ID_BYTES,
    {
        Key { bytes: PROGRAM_ID_BYTES }
    }

    /// The address as a byte vector, as used in address seeds.
    pub fn to_vec(&self) -> (r: Vec<u8>)
        ensures
            r@ == self@,
            r@.len() == 32,
    {
        let mut r: Vec<u8> = Vec::with_capacity(32);
        let mut i: usize = 0;
        while i < 32
            invariant
                0 <= i <= 32,
                r@ == self.bytes@.subrange(0, i as int),
            decreases 32 - i,
        {
            r.push(self.bytes[i]);
            i = i + 1;
        }
        assert(r@ =~= self.bytes@);
        r
    }

    /// Byte-wise comparison of two addresses.
    pub fn same_as(&self, other: &Key) -> (r: bool)
        ensures
            r == (*self == *other),
    {
        let mut i: usize = 0;
        while i < 32
            invariant
                0 <= i <= 32,
                forall|j: int| 0 <= j < i ==> self.bytes[j] == other.bytes[j],
            decreases 32 - i,
        {
            if self.bytes[i] != other.bytes[i] {
                return false;
            }
            i = i + 1;
        }
        assert(self.bytes =~= other.bytes);
        true
    }

    /// True when every byte is zero.
    pub fn is_zero(&self) -> (r: bool)
        ensures
            r == self.is_zero_spec(),
    {
        let mut i: usize = 0;
        while i < 32
            invariant
                0 <= i <= 32,
                forall|j: int| 0 <= j < i ==> self.bytes[j] == 0u8,
            decreases 32 - i,
        {
            if self.bytes[i] != 0 {
                return false;
            }
            i = i + 1;
        }
        true
    }
}

impl PartialEq for Key {
    fn eq(&self, other: &Key) -> (r: bool) {
        self.same_as(other)
    }
}

impl vstd::std_specs::cmp::PartialEqSpecImpl for Key {
    open spec fn obeys_eq_spec() -> bool {
        true
    }

    open spec fn eq_spec(&self, other: &Key) -> bool {
        *self == *other
    }
}

} // verus!

verus! {

/// Two addresses with the same bytes are the same address.
pub proof fn lemma_key_view_injective(a: Key, b: Key)
    requires
        a@ == b@,
    ensures
        a == b,
{
    assert forall|i: int| 0 <= i < 32 implies a.bytes[i] == b.bytes[i] by {
        assert(a@[i] == b@[i]);
    }
    assert(a.bytes =~= b.bytes);
}

} // verus!
