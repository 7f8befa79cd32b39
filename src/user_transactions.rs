//! Rows of the user_transactions table and of the signatures of a user
//! transaction.

use vstd::prelude::*;
use crate::address::{normalize, standardize_address};
use crate::rows::opt_text;
use crate::txn::Timestamp;

verus! {

/// The scheme a transaction was signed with.
#[derive(Clone, Copy, Debug, PartialEq, Eq, Structural)]
pub enum SignatureKind {
    Ed25519,
    MultiEd25519,
    MultiAgent,
    FeePayer,
    SingleSender,
}

impl SignatureKind {
    pub open spec fn spec_stored_name(self) -> Seq<char> {
        match self {
            SignatureKind::Ed25519 => "ed25519_signature"@,
            SignatureKind::MultiEd25519 => "multi_ed25519_signature"@,
            SignatureKind::MultiAgent => "multi_agent_signature"@,
            SignatureKind::FeePayer => "fee_payer_signature"@,
            SignatureKind::SingleSender => "single_sender"@,
        }
    }

    /// The name the signature type is stored under.
    pub fn stored_name(&self) -> (r: String)
        ensures
            r@ == self.spec_stored_name(),
    {
        match self {
            SignatureKind::Ed25519 => String::from_str("ed25519_signature"),
            SignatureKind::MultiEd25519 => String::from_str("multi_ed25519_signature"),
            SignatureKind::MultiAgent => String::from_str("multi_agent_signature"),
            SignatureKind::FeePayer => String::from_str("fee_payer_signature"),
            SignatureKind::SingleSender => String::from_str("single_sender"),
        }
    }
}

/// One signer's part of a transaction signature.
#[derive(Clone, Debug, PartialEq, Eq)]
pub struct SignerSignature {
    pub signer: String,
    pub public_key: String,
    pub signature: String,
}

/// The signature of a user transaction: its scheme and each signer's part.
#[derive(Clone, Debug, PartialEq, Eq)]
pub struct TransactionSignature {
    pub kind: SignatureKind,
    pub signers: Vec<SignerSignature>,
}

/// The function an entry-function transaction calls.
#[derive(Clone, Debug, PartialEq, Eq)]
pub struct EntryFunctionId {
    pub module_address: String,
    pub module_name: String,
    pub function_name: String,
}

/// The request of a user transaction.
#[derive(Clone, Debug, PartialEq, Eq)]
pub struct UserTransactionRequest {
    pub sender: String,
    pub sequence_number: u64,
    pub max_gas_amount: u64,
    pub gas_unit_price: u64,
    pub expiration_timestamp_secs: Option<Timestamp>,
    pub entry_function: Option<EntryFunctionId>,
    pub signature: Option<TransactionSignature>,
}

/// A user transaction as received.
#[derive(Clone, Debug, PartialEq, Eq)]
pub struct UserTransactionInput {
    pub request: Option<UserTransactionRequest>,
}

/// A row of the signatures table: one signer of one transaction.
#[derive(Clone, Debug, PartialEq, Eq)]
pub struct Signature {
    pub transaction_version: i64,
    pub transaction_block_height: i64,
    pub signer: String,
    pub is_sender_primary: bool,
    pub signature_type: String,
    pub public_key: String,
    pub signature: String,
    pub multi_agent_index: i64,
}

/// A row of the user_transactions table.
#[derive(Clone, Debug, PartialEq, Eq)]
pub struct UserTransaction {
    pub version: i64,
    pub block_height: i64,
    pub parent_signature_type: String,
    pub sender: String,
    pub sequence_number: i64,
    pub max_gas_amount: u64,
    pub expiration_timestamp_secs: Timestamp,
    pub gas_unit_price: u64,
    pub timestamp: Timestamp,
    pub entry_function_id_str: String,
    pub epoch: i64,
    pub entry_function_contract_address: Option<String>,
    pub entry_function_module_name: Option<String>,
    pub entry_function_function_name: Option<String>,
}

/// Why a user transaction could not be read.
#[derive(Clone, Copy, Debug, PartialEq, Eq, Structural)]
pub enum UserTransactionError {
    MissingRequest,
    MissingExpirationTimestamp,
}

/// `s` is the signature row of `signer`, the `index`-th signer.
pub open spec fn signature_row(
    s: Signature,
    sig: TransactionSignature,
    signer: SignerSignature,
    sender: Seq<char>,
    index: int,
    version: i64,
    block_height: i64,
) -> bool {
    &&& s.transaction_version == version
    &&& s.transaction_block_height == block_height
    &&& s.signer@ == normalize(signer.signer@)
    &&& s.is_sender_primary == (normalize(signer.signer@) == normalize(sender))
    &&& s.signature_type@ == sig.kind.spec_stored_name()
    &&& s.public_key@ == signer.public_key@
    &&& s.signature@ == signer.signature@
    &&& s.multi_agent_index == index as i64
}

/// `id` is `address::module::function`, the address in canonical form.
pub open spec fn entry_function_id_text(f: EntryFunctionId) -> Seq<char> {
    normalize(f.module_address@) + "::"@ + f.module_name@ + "::"@ + f.function_name@
}

impl UserTransaction {
    /// Builds the row of a user transaction and the rows of its signatures.
    pub fn from_transaction(
        txn: &UserTransactionInput,
        timestamp: &Timestamp,
        block_height: i64,
        epoch: i64,
        version: i64,
    ) -> (r: Result<(Self, Vec<Signature>), UserTransactionError>)
        ensures
            txn.request.is_none() ==> r == Err::<(Self, Vec<Signature>), UserTransactionError>(
                UserTransactionError::MissingRequest,
            ),
            txn.request.is_some() && txn.request->Some_0.expiration_timestamp_secs.is_none() ==> r == Err::<
                (Self, Vec<Signature>),
                UserTransactionError,
            >(UserTransactionError::MissingExpirationTimestamp),
            txn.request.is_some() && txn.request->Some_0.expiration_timestamp_secs.is_some() ==> r.is_ok(),
            r.is_ok() ==> {
                let req = txn.request->Some_0;
                let (u, sigs) = r->Ok_0;
                &&& req.expiration_timestamp_secs.is_some()
                &&& u.version == version
                &&& u.block_height == block_height
                &&& u.epoch == epoch
                &&& u.parent_signature_type@ == match req.signature {
                    Some(s) => s.kind.spec_stored_name(),
                    None => Seq::<char>::empty(),
                }
                &&& u.sender@ == normalize(req.sender@)
                &&& u.sequence_number == req.sequence_number as i64
                &&& u.max_gas_amount == req.max_gas_amount
                &&& u.gas_unit_price == req.gas_unit_price
                &&& u.expiration_timestamp_secs == req.expiration_timestamp_secs->Some_0
                &&& u.timestamp == *timestamp
                &&& match req.entry_function {
                    Some(f) => {
                        &&& u.entry_function_id_str@ == entry_function_id_text(f)
                        &&& opt_text(u.entry_function_contract_address) == Some(normalize(f.module_address@))
                        &&& opt_text(u.entry_function_module_name) == Some(f.module_name@)
                        &&& opt_text(u.entry_function_function_name) == Some(f.function_name@)
                    },
                    None => {
                        &&& u.entry_function_id_str@ == Seq::<char>::empty()
                        &&& opt_text(u.entry_function_contract_address) == Some(Seq::<char>::empty())
                        &&& opt_text(u.entry_function_module_name) == Some(Seq::<char>::empty())
                        &&& opt_text(u.entry_function_function_name) == Some(Seq::<char>::empty())
                    },
                }
                &&& signatures_of(sigs@, req, version, block_height)
            },
    {
        let req = match &txn.request {
            Some(req) => req,
            None => {
                return Err(UserTransactionError::MissingRequest);
            },
        };
        let expiration = match req.expiration_timestamp_secs {
            Some(t) => t,
            None => {
                return Err(UserTransactionError::MissingExpirationTimestamp);
            },
        };
        let parent_signature_type = match &req.signature {
            Some(s) => s.kind.stored_name(),
            None => String::new(),
        };
        let (id, address, module, function) = match &req.entry_function {
            Some(f) => {
                let address = standardize_address(f.module_address.as_str());
                let mut id = address.clone();
                id.append("::");
                id.append(f.module_name.as_str());
                id.append("::");
                id.append(f.function_name.as_str());
                (id, address, f.module_name.clone(), f.function_name.clone())
            },
            None => (String::new(), String::new(), String::new(), String::new()),
        };
        let u = UserTransaction {
            version,
            block_height,
            parent_signature_type,
            sender: standardize_address(req.sender.as_str()),
            sequence_number: req.sequence_number as i64,
            max_gas_amount: req.max_gas_amount,
            expiration_timestamp_secs: expiration,
            gas_unit_price: req.gas_unit_price,
            timestamp: *timestamp,
            entry_function_id_str: id,
            epoch,
            entry_function_contract_address: Some(address),
            entry_function_module_name: Some(module),
            entry_function_function_name: Some(function),
        };
        let sigs = Self::get_signatures(req, version, block_height);
        Ok((u, sigs))
    }

    /// The signature rows of a request: one per signer, none when unsigned.
    pub fn get_signatures(user_request: &UserTransactionRequest, version: i64, block_height: i64) -> (r: Vec<Signature>)
        ensures
            signatures_of(r@, *user_request, version, block_height),
    {
        let mut out: Vec<Signature> = Vec::new();
        match &user_request.signature {
            None => {},
            Some(sig) => {
                let sender = standardize_address(user_request.sender.as_str());
                let mut i: usize = 0;
                while i < sig.signers.len()
                    invariant
                        user_request.signature == Some(*sig),
                        sender@ == normalize(user_request.sender@),
                        i <= sig.signers@.len(),
                        out@.len() == i,
                        forall|j: int| 0 <= j < i ==> signature_row(
                            #[trigger] out@[j],
                            *sig,
                            sig.signers@[j],
                            user_request.sender@,
                            j,
                            version,
                            block_height,
                        ),
                    decreases sig.signers.len() - i,
                {
                    let s = &sig.signers[i];
                    let signer = standardize_address(s.signer.as_str());
                    let primary = signer == sender;
                    out.push(
                        Signature {
                            transaction_version: version,
                            transaction_block_height: block_height,
                            signer,
                            is_sender_primary: primary,
                            signature_type: sig.kind.stored_name(),
                            public_key: s.public_key.clone(),
                            signature: s.signature.clone(),
                            multi_agent_index: i as i64,
                        },
                    );
                    i = i + 1;
                }
            },
        }
        out
    }
}

/// `sigs` are the signature rows of `req`, signer by signer.
pub open spec fn signatures_of(sigs: Seq<Signature>, req: UserTransactionRequest, version: i64, block_height: i64) -> bool {
    match req.signature {
        None => sigs.len() == 0,
        Some(sig) => {
            &&& sigs.len() == sig.signers@.len()
            &&& forall|j: int|
                0 <= j < sigs.len() ==> signature_row(
                    #[trigger] sigs[j],
                    sig,
                    sig.signers@[j],
                    req.sender@,
                    j,
                    version,
                    block_height,
                )
        },
    }
}

} // verus!
