//! The typed items that make up the body of a ticket.

use vstd::prelude::*;

use crate::bytes::{be_bytes, push_be, append_bytes, lemma_be_bytes_len};

verus! {

/// One typed item of a ticket: a header of two big-endian `u16`s
/// (type id, payload length) followed by its payload.
pub enum TicketData {
    Empty(),
    U32(u32),
    U64(u64),
    Time(u64),
    Binary(Vec<u8>),
    BString(Vec<u8>),
    Blob(u8, Vec<TicketData>),
}

impl TicketData {
    /// The type id written in the item's header.
    pub open spec fn spec_id(self) -> u16 {
        match self {
            TicketData::Empty() => 0,
            TicketData::U32(_) => 1,
            TicketData::U64(_) => 2,
            TicketData::BString(_) => 4,
            TicketData::Time(_) => 7,
            TicketData::Binary(_) => 8,
            TicketData::Blob(id, _) => (0x3000 + id) as u16,
        }
    }

    /// The payload length written in the item's header: the byte count of a
    /// string or binary payload taken modulo 2^16, and for a blob the sum
    /// over its children of their length plus their 4-byte header.
    pub open spec fn spec_len(self) -> int
        decreases self,
    {
        match self {
            TicketData::Empty() => 0,
            TicketData::U32(_) => 4,
            TicketData::U64(_) => 8,
            TicketData::Time(_) => 8,
            TicketData::BString(d) => (d@.len() % 0x1_0000) as int,
            TicketData::Binary(d) => (d@.len() % 0x1_0000) as int,
            TicketData::Blob(_, subs) => Self::sum_len(subs@),
        }
    }

    /// Sum of `len + 4` over the items of `s`.
    pub open spec fn sum_len(s: Seq<TicketData>) -> int
        decreases s,
    {
        if s.len() == 0 {
            0
        } else {
            Self::sum_len(s.drop_last()) + s.last().spec_len() + 4
        }
    }

    /// Computing the length stays within `u16` at every step, for this item
    /// and every item nested in it.
    pub open spec fn len_fits(self) -> bool
        decreases self,
    {
        match self {
            TicketData::Blob(_, subs) => Self::all_len_fit(subs@) && Self::sum_len(subs@) <= 0xFFFF,
            _ => true,
        }
    }

    /// Every item of `s` satisfies `len_fits`.
    pub open spec fn all_len_fit(s: Seq<TicketData>) -> bool
        decreases s,
    {
        if s.len() == 0 {
            true
        } else {
            Self::all_len_fit(s.drop_last()) && s.last().len_fits()
        }
    }

    /// Every byte string in the item, nested ones included, is shorter
    /// than 2^16 bytes.
    pub open spec fn payloads_fit(self) -> bool
        decreases self,
    {
        match self {
            TicketData::BString(d) => d@.len() < 0x1_0000,
            TicketData::Binary(d) => d@.len() < 0x1_0000,
            TicketData::Blob(_, subs) => Self::all_payloads_fit(subs@),
            _ => true,
        }
    }

    /// Every item of `s` satisfies `payloads_fit`.
    pub open spec fn all_payloads_fit(s: Seq<TicketData>) -> bool
        decreases s,
    {
        if s.len() == 0 {
            true
        } else {
            Self::all_payloads_fit(s.drop_last()) && s.last().payloads_fit()
        }
    }

    pub proof fn lemma_all_payloads_fit(s: Seq<TicketData>)
        ensures
            Self::all_payloads_fit(s) ==> forall|j: int| 0 <= j < s.len() ==> (#[trigger] s[j]).payloads_fit(),
        decreases s.len(),
    {
        if s.len() > 0 {
            Self::lemma_all_payloads_fit(s.drop_last());
            assert forall|j: int| Self::all_payloads_fit(s) && 0 <= j < s.len() implies (
            #[trigger] s[j]).payloads_fit() by {
                if j < s.len() - 1 {
                    assert(s[j] == s.drop_last()[j]);
                }
            }
        }
    }

    /// The bytes of the item: header, then payload.
    pub open spec fn spec_encode(self) -> Seq<u8>
        decreases self,
    {
        be_bytes(self.spec_id() as nat, 2) + be_bytes(self.spec_len() as nat, 2) + match self {
            TicketData::Empty() => Seq::empty(),
            TicketData::U32(v) => be_bytes(v as nat, 4),
            TicketData::U64(v) => be_bytes(v as nat, 8),
            TicketData::Time(v) => be_bytes(v as nat, 8),
            TicketData::BString(d) => d@,
            TicketData::Binary(d) => d@,
            TicketData::Blob(_, subs) => Self::encode_all(subs@),
        }
    }

    /// The bytes of the items of `s`, one after another.
    pub open spec fn encode_all(s: Seq<TicketData>) -> Seq<u8>
        decreases s,
    {
        if s.len() == 0 {
            Seq::empty()
        } else {
            Self::encode_all(s.drop_last()) + s.last().spec_encode()
        }
    }

    /// The type id of the ticket data.
    pub fn id(&self) -> (r: u16)
        ensures
            r == self.spec_id(),
    {
        match self {
            TicketData::Empty() => 0,
            TicketData::U32(_) => 1,
            TicketData::U64(_) => 2,
            TicketData::BString(_) => 4,
            TicketData::Time(_) => 7,
            TicketData::Binary(_) => 8,
            TicketData::Blob(id, _) => {
                let id16 = *id as u16;
                let r = 0x3000u16 | id16;
                assert(0x3000u16 | id16 == 0x3000 + id16) by (bit_vector)
                    requires
                        id16 < 256,
                ;
                r
            },
        }
    }

    /// The length of the ticket data.
    pub fn len(&self) -> (r: u16)
        requires
            self.len_fits(),
        ensures
            r == self.spec_len(),
        decreases self,
    {
        match self {
            TicketData::Empty() => 0,
            TicketData::U32(_) => 4,
            TicketData::U64(_) => 8,
            TicketData::BString(string_data) => (string_data.len() % 0x1_0000) as u16,
            TicketData::Time(_) => 8,
            TicketData::Binary(binary_data) => (binary_data.len() % 0x1_0000) as u16,
            TicketData::Blob(_, sdata) => {
                let mut total: u16 = 0;
                let mut i: usize = 0;
                proof {
                    Self::lemma_prefix_sums(sdata@);
                }
                while i < sdata.len()
                    invariant
                        i <= sdata@.len(),
                        Self::all_len_fit(sdata@),
                        Self::sum_len(sdata@) <= 0xFFFF,
                        total == Self::sum_len(sdata@.take(i as int)),
                        forall|j: int|
                            0 <= j <= sdata@.len() ==> #[trigger] Self::sum_len(sdata@.take(j))
                                <= Self::sum_len(sdata@),
                        forall|j: int| 0 <= j < sdata@.len() ==> (#[trigger] sdata@[j]).len_fits(),
                        decreases_to!(self => sdata),
                    decreases sdata@.len() - i,
                {
                    assert(sdata@.take(i + 1).drop_last() =~= sdata@.take(i as int));
                    proof {
                        assert(decreases_to!(sdata => sdata@[i as int])) by {
                            broadcast use vstd::std_specs::vec::axiom_vec_index_decreases;
                        }
                    }
                    let n = sdata[i].len();
                    assert(Self::sum_len(sdata@.take(i + 1)) <= Self::sum_len(sdata@));
                    assert(sdata@.take(i + 1).last() == sdata@[i as int]);
                    total = total + n + 4;
                    i = i + 1;
                }
                assert(sdata@.take(i as int) =~= sdata@);
                total
            },
        }
    }

    /// Prefix sums are bounded by the total, and every item of a sequence
    /// satisfying `all_len_fit` satisfies `len_fits`.
    proof fn lemma_prefix_sums(s: Seq<TicketData>)
        ensures
            forall|j: int| 0 <= j <= s.len() ==> #[trigger] Self::sum_len(s.take(j)) <= Self::sum_len(s),
            Self::all_len_fit(s) ==> forall|j: int| 0 <= j < s.len() ==> (#[trigger] s[j]).len_fits(),
        decreases s.len(),
    {
        if s.len() > 0 {
            Self::lemma_prefix_sums(s.drop_last());
            Self::lemma_len_nonneg(s.last());
            assert forall|j: int| 0 <= j <= s.len() implies #[trigger] Self::sum_len(s.take(j))
                <= Self::sum_len(s) by {
                if j < s.len() {
                    assert(s.take(j) =~= s.drop_last().take(j));
                } else {
                    assert(s.take(j) =~= s);
                }
            }
            assert forall|j: int| Self::all_len_fit(s) && 0 <= j < s.len() implies (
            #[trigger] s[j]).len_fits() by {
                if j < s.len() - 1 {
                    assert(s[j] == s.drop_last()[j]);
                }
            }
        }
    }

    /// Lengths are never negative.
    pub proof fn lemma_len_nonneg(d: TicketData)
        ensures
            d.spec_len() >= 0,
        decreases d,
    {
        if let TicketData::Blob(_, subs) = d {
            Self::lemma_sum_len_nonneg(subs@);
        }
    }

    proof fn lemma_sum_len_nonneg(s: Seq<TicketData>)
        ensures
            Self::sum_len(s) >= 0,
        decreases s,
    {
        if s.len() > 0 {
            Self::lemma_sum_len_nonneg(s.drop_last());
            Self::lemma_len_nonneg(s.last());
        }
    }

    /// Write the ticket data to a byte vector.
    pub fn write(&self, dest: &mut Vec<u8>)
        requires
            self.len_fits(),
        ensures
            final(dest)@ == old(dest)@ + self.spec_encode(),
        decreases self,
    {
        let id = self.id();
        let len = self.len();
        push_be(dest, id as u64, 2);
        push_be(dest, len as u64, 2);
        let ghost header = dest@;
        match self {
            TicketData::Empty() => {},
            TicketData::U32(value) => push_be(dest, *value as u64, 4),
            TicketData::U64(value) => push_be(dest, *value, 8),
            TicketData::BString(string_data) => append_bytes(dest, string_data.as_slice()),
            TicketData::Time(time) => push_be(dest, *time, 8),
            TicketData::Binary(binary_data) => append_bytes(dest, binary_data.as_slice()),
            TicketData::Blob(_, sdata) => {
                proof {
                    Self::lemma_prefix_sums(sdata@);
                }
                let mut i: usize = 0;
                while i < sdata.len()
                    invariant
                        i <= sdata@.len(),
                        forall|j: int| 0 <= j < sdata@.len() ==> (#[trigger] sdata@[j]).len_fits(),
                        dest@ == header + Self::encode_all(sdata@.take(i as int)),
                        decreases_to!(self => sdata),
                    decreases sdata@.len() - i,
                {
                    assert(sdata@.take(i + 1).drop_last() =~= sdata@.take(i as int));
                    proof {
                        assert(decreases_to!(sdata => sdata@[i as int])) by {
                            broadcast use vstd::std_specs::vec::axiom_vec_index_decreases;
                        }
                    }
                    sdata[i].write(dest);
                    i = i + 1;
                    assert(dest@ =~= header + Self::encode_all(sdata@.take(i as int)));
                }
                assert(sdata@.take(i as int) =~= sdata@);
            },
        }
        assert(dest@ =~= old(dest)@ + self.spec_encode());
    }
}

} // verus!
