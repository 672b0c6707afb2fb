use vstd::prelude::*;

verus! {

/// A 32-byte ledger address.
pub type Address = [u8; 32];

/// An account handle as the host presents it to the program: the account's
/// address, the program identity that controls its storage, the capabilities
/// granted to the current request, and the raw record bytes.
pub struct Account {
    pub key: Address,
    pub owner: Address,
    pub is_signer: bool,
    pub is_writable: bool,
    pub data: Vec<u8>,
}

/// The mathematical model of an account handle.
pub ghost struct AccountView {
    pub key: Seq<u8>,
    pub owner: Seq<u8>,
    pub is_signer: bool,
    pub is_writable: bool,
    pub data: Seq<u8>,
}

impl View for Account {
    type V = AccountView;

    open spec fn view(&self) -> AccountView {
        AccountView {
            key: self.key@,
            owner: self.owner@,
            is_signer: self.is_signer,
            is_writable: self.is_writable,
            data: self.data@,
        }
    }
}

impl AccountView {
    /// Everything but the record bytes agrees between the two handles.
    pub open spec fn same_handle(self, other: AccountView) -> bool {
        &&& self.key == other.key
        &&& self.owner == other.owner
        &&& self.is_signer == other.is_signer
        &&& self.is_writable == other.is_writable
    }
}

/// Byte-for-byte equality of two addresses.
pub fn address_eq(a: &Address, b: &Address) -> (r: bool)
    ensures
        r == (a@ == b@),
{
    let mut i: usize = 0;
    while i < 32
        invariant
            i <= 32,
            forall|j: int| 0 <= j < i ==> a@[j] == b@[j],
        decreases 32 - i,
    {
        if a[i] != b[i] {
            return false;
        }
        i = i + 1;
    }
    proof {
        assert(a@ =~= b@);
    }
    true
}

/// Reads the 32 bytes at `off` as an address.
pub fn read_address(d: &[u8], off: usize) -> (a: Address)
    requires
        off + 32 <= d@.len(),
    ensures
        a@ == d@.subrange(off as int, off + 32),
{
    let dlen: usize = d.len();
    let mut a: Address = [0u8; 32];
    let mut i: usize = 0;
    while i < 32
        invariant
            i <= 32,
            off + 32 <= dlen,
            dlen == d@.len(),
            forall|j: int| 0 <= j < i ==> a@[j] == d@[off + j],
        decreases 32 - i,
    {
        a[i] = d[off + i];
        i = i + 1;
    }
    proof {
        assert(a@ =~= d@.subrange(off as int, off + 32));
    }
    a
}

} // verus!
