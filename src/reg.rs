use vstd::prelude::*;

use crate::common::Reg;

verus! {

/// The bytes of one register write: the 2-byte register address, then a
/// payload of `N` bytes.
pub struct RegValue<const N: usize> {
    data: Vec<u8>,
}

impl<const N: usize> View for RegValue<N> {
    type V = Seq<u8>;

    closed spec fn view(&self) -> Seq<u8> {
        self.data@
    }
}

impl<const N: usize> RegValue<N> {
    /// The address is followed by exactly `N` payload bytes.
    pub closed spec fn wf(&self) -> bool {
        self.data@.len() == 2 + N && N <= usize::MAX - 2
    }

    /// The register `reg` with a payload of `N` zero bytes.
    pub fn new(reg: &Reg) -> (r: Self)
        requires
            N <= usize::MAX - 2,
        ensures
            r.wf(),
            r@ == reg@ + Seq::new(N as nat, |i: int| 0u8),
    {
        let mut data: Vec<u8> = Vec::new();
        data.push(reg[0]);
        data.push(reg[1]);
        let mut i: usize = 0;
        while i < N
            invariant
                i <= N <= usize::MAX - 2,
                data@ == reg@ + Seq::new(i as nat, |j: int| 0u8),
            decreases N - i,
        {
            data.push(0);
            i = i + 1;
            assert(data@ =~= reg@ + Seq::new(i as nat, |j: int| 0u8));
        }
        proof {
            assert(data@.len() == 2 + N);
        }
        RegValue { data }
    }

    /// The same register with its payload starting with `bytes`; the rest of
    /// the payload is kept.
    pub fn with_bytes(self, bytes: &[u8]) -> (r: Self)
        requires
            self.wf(),
            bytes@.len() <= N,
        ensures
            r.wf(),
            r@ == self@.subrange(0, 2) + bytes@ + self@.subrange(2 + bytes@.len() as int, 2 + N as int),
    {
        let mut data = self.data;
        let ghost start = data@;
        let mut i: usize = 0;
        while i < bytes.len()
            invariant
                i <= bytes@.len() <= N,
                N <= usize::MAX - 2,
                data@.len() == 2 + N,
                start.len() == 2 + N,
                data@ == start.subrange(0, 2) + bytes@.subrange(0, i as int) + start.subrange(
                    2 + i as int,
                    2 + N as int,
                ),
            decreases bytes@.len() - i,
        {
            data.set(2 + i, bytes[i]);
            i = i + 1;
            assert(data@ =~= start.subrange(0, 2) + bytes@.subrange(0, i as int) + start.subrange(
                2 + i as int,
                2 + N as int,
            ));
        }
        assert(bytes@.subrange(0, i as int) =~= bytes@);
        RegValue { data }
    }

    /// The bytes to put on the bus.
    pub fn buffer(&self) -> (r: &[u8])
        ensures
            r@ == self@,
    {
        self.data.as_slice()
    }
}

} // verus!
