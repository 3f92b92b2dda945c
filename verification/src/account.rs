use vstd::prelude::*;

verus! {

/// A signing account tracked against the remote ledger: its address, its
/// secret key material, and the local copy of the ledger's sequence number
/// for it. The sequence number moves only when a transaction is accepted
/// (incremented by one) or when a resync overwrites it with the ledger's
/// authoritative value.
#[derive(Clone, Debug)]
pub struct AccountData {
    pub address: Vec<u8>,
    pub signing_key: Vec<u8>,
    pub sequence_number: u64,
}

/// What a ledger query for a funded account hands back: the account's
/// address, its key material, and the ledger's current sequence number.
#[derive(Clone, Debug)]
pub struct FundedAccount {
    pub address: Vec<u8>,
    pub signing_key: Vec<u8>,
    pub sequence_number: u64,
}

#[derive(Clone, Copy, Debug, PartialEq, Eq)]
pub enum AccountError {
    /// No funded account could be obtained from the queried instance.
    NoFundedAccount,
}

impl AccountData {
    /// Build the managed account from the outcome of the boundary's ledger
    /// query against the chosen instance. Fails exactly when the query found
    /// no funded account.
    pub fn load_or_create(found: Option<FundedAccount>) -> (r: Result<AccountData, AccountError>)
        ensures
            r is Ok <==> found is Some,
            found matches Some(f) ==> {
                let a = r->Ok_0;
                &&& a.address@ == f.address@
                &&& a.signing_key@ == f.signing_key@
                &&& a.sequence_number == f.sequence_number
            },
            found is None ==> r->Err_0 is NoFundedAccount,
    {
        match found {
            Some(f) => Ok(AccountData {
                address: f.address,
                signing_key: f.signing_key,
                sequence_number: f.sequence_number,
            }),
            None => Err(AccountError::NoFundedAccount),
        }
    }

    /// The single point of truth for ordering this account's transactions:
    /// the sequence number the next submission must carry.
    pub fn next_sequence(&self) -> (r: u64)
        ensures
            r == self.sequence_number,
    {
        self.sequence_number
    }

    /// The node accepted a transaction from this account: the local counter
    /// advances by exactly one.
    pub fn record_accepted(&mut self)
        requires
            old(self).sequence_number < u64::MAX,
        ensures
            final(self).sequence_number == old(self).sequence_number + 1,
            final(self).address@ == old(self).address@,
            final(self).signing_key@ == old(self).signing_key@,
    {
        self.sequence_number = self.sequence_number + 1;
    }

    /// A submission was rejected for a stale sequence number: overwrite the
    /// local counter with the value the remote ledger reported.
    pub fn resync(&mut self, authoritative: u64)
        ensures
            final(self).sequence_number == authoritative,
            final(self).address@ == old(self).address@,
            final(self).signing_key@ == old(self).signing_key@,
    {
        self.sequence_number = authoritative;
    }
}

} // verus!
