//! Instructions for other programs, built as plain values: the accounts they touch and
//! their data bytes. Sending them is the host's work.

use vstd::prelude::*;
use vstd::bytes::spec_u16_to_le_bytes;
use crate::codec::{encode_text, write_text, write_u16};
use crate::pubkey::{Pubkey, append_bytes};

verus! {

/// An account that an instruction touches, and how.
#[derive(Clone, Copy, Debug, PartialEq, Eq)]
pub struct AccountMeta {
    pub pubkey: Pubkey,
    pub is_writable: bool,
    pub is_signer: bool,
}

impl AccountMeta {
    /// A writable account that does not sign.
    pub fn writable(pubkey: &Pubkey) -> (r: Self)
        ensures
            r == (AccountMeta { pubkey: *pubkey, is_writable: true, is_signer: false }),
    {
        AccountMeta { pubkey: *pubkey, is_writable: true, is_signer: false }
    }

    /// A read-only account that does not sign.
    pub fn readonly(pubkey: &Pubkey) -> (r: Self)
        ensures
            r == (AccountMeta { pubkey: *pubkey, is_writable: false, is_signer: false }),
    {
        AccountMeta { pubkey: *pubkey, is_writable: false, is_signer: false }
    }

    /// A read-only account that signs.
    pub fn readonly_signer(pubkey: &Pubkey) -> (r: Self)
        ensures
            r == (AccountMeta { pubkey: *pubkey, is_writable: false, is_signer: true }),
    {
        AccountMeta { pubkey: *pubkey, is_writable: false, is_signer: true }
    }
}

/// An instruction for the program `program_id`.
pub struct Instruction {
    pub program_id: Pubkey,
    pub accounts: Vec<AccountMeta>,
    pub data: Vec<u8>,
}

/// Opcode of the create instruction.
pub const CREATE_OPCODE: u8 = 0;
/// Opcode of the transfer instruction.
pub const TRANSFER_OPCODE: u8 = 1;
/// Opcode of the token program's initialize-mint instruction.
pub const INITIALIZE_MINT_2_OPCODE: u8 = 20;
/// Opcode of the system program's nonce upgrade instruction.
pub const UPDATE_NONCE_ACCOUNT_OPCODE: u8 = 12;

/// Creates a metadata account.
pub struct Create {
    pub metadata_account: Pubkey,
    pub mint: Pubkey,
    pub mint_authority: Pubkey,
    pub payer: Pubkey,
    pub update_authority: Pubkey,
    pub name: String,
    pub symbol: String,
    pub uri: String,
    pub seller_fee_basis_points: u16,
}

impl Create {
    /// The instruction's data: the opcode, the three strings length-prefixed, the fee.
    pub open spec fn encoded(&self) -> Seq<u8> {
        seq![CREATE_OPCODE] + encode_text(self.name@) + encode_text(self.symbol@) + encode_text(
            self.uri@,
        ) + spec_u16_to_le_bytes(self.seller_fee_basis_points)
    }

    /// The instruction: metadata account writable, mint read-only, mint authority and payer
    /// signing, update authority read-only.
    pub fn instruction(&self, program_id: &Pubkey) -> (r: Instruction)
        ensures
            r.program_id == *program_id,
            r.accounts@ == seq![
                AccountMeta { pubkey: self.metadata_account, is_writable: true, is_signer: false },
                AccountMeta { pubkey: self.mint, is_writable: false, is_signer: false },
                AccountMeta { pubkey: self.mint_authority, is_writable: false, is_signer: true },
                AccountMeta { pubkey: self.payer, is_writable: false, is_signer: true },
                AccountMeta { pubkey: self.update_authority, is_writable: false, is_signer: false },
            ],
            r.data@ == self.encoded(),
    {
        let mut accounts: Vec<AccountMeta> = Vec::new();
        accounts.push(AccountMeta::writable(&self.metadata_account));
        accounts.push(AccountMeta::readonly(&self.mint));
        accounts.push(AccountMeta::readonly_signer(&self.mint_authority));
        accounts.push(AccountMeta::readonly_signer(&self.payer));
        accounts.push(AccountMeta::readonly(&self.update_authority));
        let mut data: Vec<u8> = Vec::new();
        data.push(CREATE_OPCODE);
        write_text(&mut data, self.name.as_str());
        write_text(&mut data, self.symbol.as_str());
        write_text(&mut data, self.uri.as_str());
        write_u16(&mut data, self.seller_fee_basis_points);
        assert(data@ =~= self.encoded());
        assert(accounts@ =~= seq![
            AccountMeta { pubkey: self.metadata_account, is_writable: true, is_signer: false },
            AccountMeta { pubkey: self.mint, is_writable: false, is_signer: false },
            AccountMeta { pubkey: self.mint_authority, is_writable: false, is_signer: true },
            AccountMeta { pubkey: self.payer, is_writable: false, is_signer: true },
            AccountMeta { pubkey: self.update_authority, is_writable: false, is_signer: false },
        ]);
        Instruction { program_id: *program_id, accounts, data }
    }
}

/// Transfers a metadata account to a new owner.
pub struct TransferMetadata {
    pub metadata: Pubkey,
    pub owner: Pubkey,
    pub new_owner: Pubkey,
}

impl TransferMetadata {
    /// The instruction: metadata writable, owner signing, new owner read-only; the data is
    /// the opcode alone.
    pub fn instruction(&self, program_id: &Pubkey) -> (r: Instruction)
        ensures
            r.program_id == *program_id,
            r.accounts@ == seq![
                AccountMeta { pubkey: self.metadata, is_writable: true, is_signer: false },
                AccountMeta { pubkey: self.owner, is_writable: false, is_signer: true },
                AccountMeta { pubkey: self.new_owner, is_writable: false, is_signer: false },
            ],
            r.data@ == seq![TRANSFER_OPCODE],
    {
        let mut accounts: Vec<AccountMeta> = Vec::new();
        accounts.push(AccountMeta::writable(&self.metadata));
        accounts.push(AccountMeta::readonly_signer(&self.owner));
        accounts.push(AccountMeta::readonly(&self.new_owner));
        let mut data: Vec<u8> = Vec::new();
        data.push(TRANSFER_OPCODE);
        assert(data@ =~= seq![TRANSFER_OPCODE]);
        assert(accounts@ =~= seq![
            AccountMeta { pubkey: self.metadata, is_writable: true, is_signer: false },
            AccountMeta { pubkey: self.owner, is_writable: false, is_signer: true },
            AccountMeta { pubkey: self.new_owner, is_writable: false, is_signer: false },
        ]);
        Instruction { program_id: *program_id, accounts, data }
    }
}

/// Initializes a new mint.
pub struct InitilizeMint2 {
    /// Mint account.
    pub mint: Pubkey,
    /// Decimals.
    pub decimals: u8,
    /// Mint authority.
    pub mint_authority: Pubkey,
    /// Freeze authority.
    pub freeze_authority: Option<Pubkey>,
}

impl InitilizeMint2 {
    /// The 67 data bytes: opcode, decimals, mint authority, then a presence byte and the
    /// freeze authority (zeros when there is none).
    pub open spec fn encoded(&self) -> Seq<u8> {
        seq![INITIALIZE_MINT_2_OPCODE, self.decimals] + self.mint_authority@ + match self.freeze_authority {
            Some(a) => seq![1u8] + a@,
            None => seq![0u8] + Seq::new(32, |i: int| 0u8),
        }
    }

    /// The instruction: the mint writable, and the data above.
    pub fn instruction(&self, program_id: &Pubkey) -> (r: Instruction)
        ensures
            r.program_id == *program_id,
            r.accounts@ == seq![AccountMeta { pubkey: self.mint, is_writable: true, is_signer: false }],
            r.data@ == self.encoded(),
            r.data@.len() == 67,
    {
        let mut accounts: Vec<AccountMeta> = Vec::new();
        accounts.push(AccountMeta::writable(&self.mint));
        let mut data: Vec<u8> = Vec::new();
        data.push(INITIALIZE_MINT_2_OPCODE);
        data.push(self.decimals);
        append_bytes(&mut data, self.mint_authority.as_slice());
        match &self.freeze_authority {
            Some(a) => {
                data.push(1u8);
                append_bytes(&mut data, a.as_slice());
            },
            None => {
                data.push(0u8);
                let zeros = [0u8; 32];
                assert(zeros@ =~= Seq::new(32, |i: int| 0u8));
                append_bytes(&mut data, zeros.as_slice());
            },
        }
        assert(data@ =~= self.encoded());
        assert(accounts@ =~= seq![AccountMeta { pubkey: self.mint, is_writable: true, is_signer: false }]);
        Instruction { program_id: *program_id, accounts, data }
    }
}

/// Upgrades a legacy nonce account, once.
pub struct UpdateNonceAccount {
    /// Nonce account.
    pub account: Pubkey,
}

impl UpdateNonceAccount {
    /// The instruction: the nonce account writable; the data is the opcode alone.
    pub fn instruction(&self, program_id: &Pubkey) -> (r: Instruction)
        ensures
            r.program_id == *program_id,
            r.accounts@ == seq![AccountMeta { pubkey: self.account, is_writable: true, is_signer: false }],
            r.data@ == seq![UPDATE_NONCE_ACCOUNT_OPCODE],
    {
        let mut accounts: Vec<AccountMeta> = Vec::new();
        accounts.push(AccountMeta::writable(&self.account));
        let mut data: Vec<u8> = Vec::new();
        data.push(UPDATE_NONCE_ACCOUNT_OPCODE);
        assert(data@ =~= seq![UPDATE_NONCE_ACCOUNT_OPCODE]);
        assert(accounts@ =~= seq![AccountMeta { pubkey: self.account, is_writable: true, is_signer: false }]);
        Instruction { program_id: *program_id, accounts, data }
    }
}

} // verus!
