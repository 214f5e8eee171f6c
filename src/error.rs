//! Error values surfaced to the host, and their numeric codes.

use vstd::prelude::*;

verus! {

/// Reasons an operation may fail, as reported to the host.
#[derive(Clone, Copy, Debug, PartialEq, Eq, Structural)]
pub enum ProgramError {
    /// A program-specific error, carried as a 32-bit code.
    Custom(u32),
    /// The arguments provided to a program instruction were invalid
    InvalidArgument,
    /// An instruction's data contents was invalid
    InvalidInstructionData,
    /// An account's data contents was invalid
    InvalidAccountData,
    /// An account's data was too small
    AccountDataTooSmall,
    /// An account's balance was too small to complete the instruction
    InsufficientFunds,
    /// The account did not have the expected program id
    IncorrectProgramId,
    /// A signature was required but not found
    MissingRequiredSignature,
    /// An initialize instruction was sent to an account that has already been initialized
    AccountAlreadyInitialized,
    /// An attempt to operate on an account that hasn't been initialized
    UninitializedAccount,
    /// The instruction expected additional account keys
    NotEnoughAccountKeys,
    /// Failed to borrow a reference to account data, already borrowed
    AccountBorrowFailed,
    /// Length of the seed is too long for address generation
    MaxSeedLengthExceeded,
    /// Provided seeds do not result in a valid address
    InvalidSeeds,
    /// IO Error
    BorshIoError,
    /// An account does not have enough lamports to be rent-exempt
    AccountNotRentExempt,
    /// Unsupported sysvar
    UnsupportedSysvar,
    /// Provided owner is not allowed
    IllegalOwner,
    /// Accounts data allocations exceeded the maximum allowed per transaction
    MaxAccountsDataAllocationsExceeded,
    /// Account data reallocation was invalid
    InvalidRealloc,
    /// Instruction trace length exceeded the maximum allowed per transaction
    MaxInstructionTraceLengthExceeded,
    /// Builtin programs must consume compute units
    BuiltinProgramsMustConsumeComputeUnits,
    /// Invalid account owner
    InvalidAccountOwner,
    /// Program arithmetic overflowed
    ArithmeticOverflow,
    /// Account is immutable
    Immutable,
    /// Incorrect authority provided
    IncorrectAuthority,
}

/// Built-in error codes occupy the upper 32 bits of the 64-bit code.
pub const BUILTIN_BIT_SHIFT: u64 = 32;

pub const CUSTOM_ZERO: u64 = 1 << 32;
pub const INVALID_ARGUMENT: u64 = 2 << 32;
pub const INVALID_INSTRUCTION_DATA: u64 = 3 << 32;
pub const INVALID_ACCOUNT_DATA: u64 = 4 << 32;
pub const ACCOUNT_DATA_TOO_SMALL: u64 = 5 << 32;
pub const INSUFFICIENT_FUNDS: u64 = 6 << 32;
pub const INCORRECT_PROGRAM_ID: u64 = 7 << 32;
pub const MISSING_REQUIRED_SIGNATURES: u64 = 8 << 32;
pub const ACCOUNT_ALREADY_INITIALIZED: u64 = 9 << 32;
pub const UNINITIALIZED_ACCOUNT: u64 = 10 << 32;
pub const NOT_ENOUGH_ACCOUNT_KEYS: u64 = 11 << 32;
pub const ACCOUNT_BORROW_FAILED: u64 = 12 << 32;
pub const MAX_SEED_LENGTH_EXCEEDED: u64 = 13 << 32;
pub const INVALID_SEEDS: u64 = 14 << 32;
pub const BORSH_IO_ERROR: u64 = 15 << 32;
pub const ACCOUNT_NOT_RENT_EXEMPT: u64 = 16 << 32;
pub const UNSUPPORTED_SYSVAR: u64 = 17 << 32;
pub const ILLEGAL_OWNER: u64 = 18 << 32;
pub const MAX_ACCOUNTS_DATA_ALLOCATIONS_EXCEEDED: u64 = 19 << 32;
pub const INVALID_ACCOUNT_DATA_REALLOC: u64 = 20 << 32;
pub const MAX_INSTRUCTION_TRACE_LENGTH_EXCEEDED: u64 = 21 << 32;
pub const BUILTIN_PROGRAMS_MUST_CONSUME_COMPUTE_UNITS: u64 = 22 << 32;
pub const INVALID_ACCOUNT_OWNER: u64 = 23 << 32;
pub const ARITHMETIC_OVERFLOW: u64 = 24 << 32;
pub const IMMUTABLE: u64 = 25 << 32;
pub const INCORRECT_AUTHORITY: u64 = 26 << 32;

/// Index of a built-in error within the upper 32 bits of its code (`Custom` has none).
pub open spec fn builtin_index(e: ProgramError) -> u64 {
    match e {
        ProgramError::Custom(_) => 0,
        ProgramError::InvalidArgument => 2,
        ProgramError::InvalidInstructionData => 3,
        ProgramError::InvalidAccountData => 4,
        ProgramError::AccountDataTooSmall => 5,
        ProgramError::InsufficientFunds => 6,
        ProgramError::IncorrectProgramId => 7,
        ProgramError::MissingRequiredSignature => 8,
        ProgramError::AccountAlreadyInitialized => 9,
        ProgramError::UninitializedAccount => 10,
        ProgramError::NotEnoughAccountKeys => 11,
        ProgramError::AccountBorrowFailed => 12,
        ProgramError::MaxSeedLengthExceeded => 13,
        ProgramError::InvalidSeeds => 14,
        ProgramError::BorshIoError => 15,
        ProgramError::AccountNotRentExempt => 16,
        ProgramError::UnsupportedSysvar => 17,
        ProgramError::IllegalOwner => 18,
        ProgramError::MaxAccountsDataAllocationsExceeded => 19,
        ProgramError::InvalidRealloc => 20,
        ProgramError::MaxInstructionTraceLengthExceeded => 21,
        ProgramError::BuiltinProgramsMustConsumeComputeUnits => 22,
        ProgramError::InvalidAccountOwner => 23,
        ProgramError::ArithmeticOverflow => 24,
        ProgramError::Immutable => 25,
        ProgramError::IncorrectAuthority => 26,
    }
}

/// The built-in error with the given index, for indices `2..=26`.
pub open spec fn builtin_of_index(i: u64) -> ProgramError {
    if i == 2 {
        ProgramError::InvalidArgument
    } else if i == 3 {
        ProgramError::InvalidInstructionData
    } else if i == 4 {
        ProgramError::InvalidAccountData
    } else if i == 5 {
        ProgramError::AccountDataTooSmall
    } else if i == 6 {
        ProgramError::InsufficientFunds
    } else if i == 7 {
        ProgramError::IncorrectProgramId
    } else if i == 8 {
        ProgramError::MissingRequiredSignature
    } else if i == 9 {
        ProgramError::AccountAlreadyInitialized
    } else if i == 10 {
        ProgramError::UninitializedAccount
    } else if i == 11 {
        ProgramError::NotEnoughAccountKeys
    } else if i == 12 {
        ProgramError::AccountBorrowFailed
    } else if i == 13 {
        ProgramError::MaxSeedLengthExceeded
    } else if i == 14 {
        ProgramError::InvalidSeeds
    } else if i == 15 {
        ProgramError::BorshIoError
    } else if i == 16 {
        ProgramError::AccountNotRentExempt
    } else if i == 17 {
        ProgramError::UnsupportedSysvar
    } else if i == 18 {
        ProgramError::IllegalOwner
    } else if i == 19 {
        ProgramError::MaxAccountsDataAllocationsExceeded
    } else if i == 20 {
        ProgramError::InvalidRealloc
    } else if i == 21 {
        ProgramError::MaxInstructionTraceLengthExceeded
    } else if i == 22 {
        ProgramError::BuiltinProgramsMustConsumeComputeUnits
    } else if i == 23 {
        ProgramError::InvalidAccountOwner
    } else if i == 24 {
        ProgramError::ArithmeticOverflow
    } else if i == 25 {
        ProgramError::Immutable
    } else if i == 26 {
        ProgramError::IncorrectAuthority
    } else {
        ProgramError::Custom(0)
    }
}

/// The 64-bit code of an error: built-ins sit in the upper half, custom codes in the
/// lower half, and `Custom(0)` takes the code of index 1 so that it differs from success.
pub open spec fn error_code(e: ProgramError) -> u64 {
    match e {
        ProgramError::Custom(c) => if c == 0 {
            CUSTOM_ZERO
        } else {
            c as u64
        },
        _ => (builtin_index(e) * 0x1_0000_0000) as u64,
    }
}

/// The error that a 64-bit code stands for; codes that are not built-in become custom
/// errors holding the low 32 bits.
pub open spec fn error_of_code(x: u64) -> ProgramError {
    if x % 0x1_0000_0000 == 0 && x / 0x1_0000_0000 == 1 {
        ProgramError::Custom(0)
    } else if x % 0x1_0000_0000 == 0 && 2 <= x / 0x1_0000_0000 <= 26 {
        builtin_of_index(x / 0x1_0000_0000)
    } else {
        ProgramError::Custom(x as u32)
    }
}

fn builtin_from_index(i: u64) -> (r: ProgramError)
    requires
        2 <= i <= 26,
    ensures
        r == builtin_of_index(i),
{
    match i {
        2 => ProgramError::InvalidArgument,
        3 => ProgramError::InvalidInstructionData,
        4 => ProgramError::InvalidAccountData,
        5 => ProgramError::AccountDataTooSmall,
        6 => ProgramError::InsufficientFunds,
        7 => ProgramError::IncorrectProgramId,
        8 => ProgramError::MissingRequiredSignature,
        9 => ProgramError::AccountAlreadyInitialized,
        10 => ProgramError::UninitializedAccount,
        11 => ProgramError::NotEnoughAccountKeys,
        12 => ProgramError::AccountBorrowFailed,
        13 => ProgramError::MaxSeedLengthExceeded,
        14 => ProgramError::InvalidSeeds,
        15 => ProgramError::BorshIoError,
        16 => ProgramError::AccountNotRentExempt,
        17 => ProgramError::UnsupportedSysvar,
        18 => ProgramError::IllegalOwner,
        19 => ProgramError::MaxAccountsDataAllocationsExceeded,
        20 => ProgramError::InvalidRealloc,
        21 => ProgramError::MaxInstructionTraceLengthExceeded,
        22 => ProgramError::BuiltinProgramsMustConsumeComputeUnits,
        23 => ProgramError::InvalidAccountOwner,
        24 => ProgramError::ArithmeticOverflow,
        25 => ProgramError::Immutable,
        26 => ProgramError::IncorrectAuthority,
        _ => ProgramError::IncorrectAuthority,
    }
}

fn index_of_builtin(e: &ProgramError) -> (r: u64)
    ensures
        r == builtin_index(*e),
{
    match e {
        ProgramError::Custom(_) => 0,
        ProgramError::InvalidArgument => 2,
        ProgramError::InvalidInstructionData => 3,
        ProgramError::InvalidAccountData => 4,
        ProgramError::AccountDataTooSmall => 5,
        ProgramError::InsufficientFunds => 6,
        ProgramError::IncorrectProgramId => 7,
        ProgramError::MissingRequiredSignature => 8,
        ProgramError::AccountAlreadyInitialized => 9,
        ProgramError::UninitializedAccount => 10,
        ProgramError::NotEnoughAccountKeys => 11,
        ProgramError::AccountBorrowFailed => 12,
        ProgramError::MaxSeedLengthExceeded => 13,
        ProgramError::InvalidSeeds => 14,
        ProgramError::BorshIoError => 15,
        ProgramError::AccountNotRentExempt => 16,
        ProgramError::UnsupportedSysvar => 17,
        ProgramError::IllegalOwner => 18,
        ProgramError::MaxAccountsDataAllocationsExceeded => 19,
        ProgramError::InvalidRealloc => 20,
        ProgramError::MaxInstructionTraceLengthExceeded => 21,
        ProgramError::BuiltinProgramsMustConsumeComputeUnits => 22,
        ProgramError::InvalidAccountOwner => 23,
        ProgramError::ArithmeticOverflow => 24,
        ProgramError::Immutable => 25,
        ProgramError::IncorrectAuthority => 26,
    }
}

impl From<u64> for ProgramError {
    fn from(x: u64) -> (r: ProgramError) {
        let hi = x >> 32;
        let lo = x & 0xffff_ffff;
        assert(x >> 32 == x / 0x1_0000_0000 && x & 0xffff_ffff == x % 0x1_0000_0000) by (bit_vector);
        if lo == 0 && hi == 1 {
            ProgramError::Custom(0)
        } else if lo == 0 && 2 <= hi && hi <= 26 {
            builtin_from_index(hi)
        } else {
            ProgramError::Custom(#[verifier::truncate] (x as u32))
        }
    }
}

impl vstd::std_specs::convert::FromSpecImpl<u64> for ProgramError {
    open spec fn obeys_from_spec() -> bool {
        true
    }

    open spec fn from_spec(x: u64) -> ProgramError {
        error_of_code(x)
    }
}

impl From<ProgramError> for u64 {
    fn from(e: ProgramError) -> (r: u64) {
        match e {
            ProgramError::Custom(c) => {
                if c == 0 {
                    CUSTOM_ZERO
                } else {
                    c as u64
                }
            },
            _ => {
                let i = index_of_builtin(&e);
                assert(i <= 26 ==> i << 32 == i * 0x1_0000_0000) by (bit_vector);
                i << 32
            },
        }
    }
}

impl vstd::std_specs::convert::FromSpecImpl<ProgramError> for u64 {
    open spec fn obeys_from_spec() -> bool {
        true
    }

    open spec fn from_spec(e: ProgramError) -> u64 {
        error_code(e)
    }
}

/// Errors that may be returned by the metadata program; each is reported to the host as
/// `ProgramError::Custom` with the variant's position as its code.
#[derive(Clone, Copy, Debug, PartialEq, Eq, Structural)]
pub enum MetadataError {
    /// 0 Failed to unpack instruction data
    InstructionUnpackError,
    /// Failed to pack instruction data
    InstructionPackError,
    /// Lamport balance below rent-exempt threshold.
    NotRentExempt,
    /// Already initialized
    AlreadyInitialized,
    /// Uninitialized
    Uninitialized,
    ///  Metadata's key must match seed of ['metadata', program id, mint] provided
    InvalidMetadataKey,
    ///  Edition's key must match seed of ['metadata', program id, name, 'edition'] provided
    InvalidEditionKey,
    /// Update Authority given does not match
    UpdateAuthorityIncorrect,
    /// Update Authority needs to be signer to update metadata
    UpdateAuthorityIsNotSigner,
    /// You must be the mint authority and signer on this transaction
    NotMintAuthority,
    /// 10 - Mint authority provided does not match the authority on the mint
    InvalidMintAuthority,
    /// Name too long
    NameTooLong,
    /// Symbol too long
    SymbolTooLong,
    /// URI too long
    UriTooLong,
    /// Update authority must be equivalent to the metadata's authority and also signer of this transaction
    UpdateAuthorityMustBeEqualToMetadataAuthorityAndSigner,
    /// Mint given does not match mint on Metadata
    MintMismatch,
    /// Editions must have exactly one token
    EditionsMustHaveExactlyOneToken,
    /// Maximum editions printed already
    MaxEditionsMintedAlready,
    /// Token mint to failed
    TokenMintToFailed,
    /// The master edition record passed must match the master record on the edition given
    MasterRecordMismatch,
    /// 20 - The destination account does not have the right mint
    DestinationMintMismatch,
    /// An edition can only mint one of its kind!
    EditionAlreadyMinted,
    /// Printing mint decimals should be zero
    PrintingMintDecimalsShouldBeZero,
    /// OneTimePrintingAuthorizationMint mint decimals should be zero
    OneTimePrintingAuthorizationMintDecimalsShouldBeZero,
    /// Edition mint decimals should be zero
    EditionMintDecimalsShouldBeZero,
    /// Token burn failed
    TokenBurnFailed,
    /// The One Time authorization mint does not match that on the token account!
    TokenAccountOneTimeAuthMintMismatch,
    /// Derived key invalid
    DerivedKeyInvalid,
    /// The Printing mint does not match that on the master edition!
    PrintingMintMismatch,
    /// The  One Time Printing Auth mint does not match that on the master edition!
    OneTimePrintingAuthMintMismatch,
    /// 30 - The mint of the token account does not match the Printing mint!
    TokenAccountMintMismatch,
    /// The mint of the token account does not match the master metadata mint!
    TokenAccountMintMismatchV2,
    /// Not enough tokens to mint a limited edition
    NotEnoughTokens,
    /// The mint on your authorization token holding account does not match your Printing mint!
    PrintingMintAuthorizationAccountMismatch,
    /// The authorization token account has a different owner than the update authority for the master edition!
    AuthorizationTokenAccountOwnerMismatch,
    /// This feature is currently disabled.
    Disabled,
    /// Creators list too long
    CreatorsTooLong,
    /// Creators must be at least one if set
    CreatorsMustBeAtleastOne,
    /// If using a creators array, you must be one of the creators listed
    MustBeOneOfCreators,
    /// This metadata does not have creators
    NoCreatorsPresentOnMetadata,
    /// 40 - This creator address was not found
    CreatorNotFound,
    /// Basis points cannot be more than 10000
    InvalidBasisPoints,
    /// Primary sale can only be flipped to true and is immutable
    PrimarySaleCanOnlyBeFlippedToTrue,
    /// Owner does not match that on the account given
    OwnerMismatch,
    /// This account has no tokens to be used for authorization
    NoBalanceInAccountForAuthorization,
    /// Share total must equal 100 for creator array
    ShareTotalMustBe100,
    /// This reservation list already exists!
    ReservationExists,
    /// This reservation list does not exist!
    ReservationDoesNotExist,
    /// This reservation list exists but was never set with reservations
    ReservationNotSet,
    /// This reservation list has already been set!
    ReservationAlreadyMade,
    /// 50 - Provided more addresses than max allowed in single reservation
    BeyondMaxAddressSize,
    /// NumericalOverflowError
    NumericalOverflowError,
    /// This reservation would go beyond the maximum supply of the master edition!
    ReservationBreachesMaximumSupply,
    /// Address not in reservation!
    AddressNotInReservation,
    /// You cannot unilaterally verify another creator, they must sign
    CannotVerifyAnotherCreator,
    /// You cannot unilaterally unverify another creator
    CannotUnverifyAnotherCreator,
    /// In initial reservation setting, spots remaining should equal total spots
    SpotMismatch,
    /// Incorrect account owner
    IncorrectOwner,
    /// printing these tokens would breach the maximum supply limit of the master edition
    PrintingWouldBreachMaximumSupply,
    /// Data is immutable
    DataIsImmutable,
    /// 60 - No duplicate creator addresses
    DuplicateCreatorAddress,
    /// Reservation spots remaining should match total spots when first being created
    ReservationSpotsRemainingShouldMatchTotalSpotsAtStart,
    /// Invalid token program
    InvalidTokenProgram,
    /// Data type mismatch
    DataTypeMismatch,
    /// Beyond alotted address size in reservation!
    BeyondAlottedAddressSize,
    /// The reservation has only been partially alotted
    ReservationNotComplete,
    /// You cannot splice over an existing reservation!
    TriedToReplaceAnExistingReservation,
    /// Invalid operation
    InvalidOperation,
    /// Invalid owner
    InvalidOwner,
    /// Printing mint supply must be zero for conversion
    PrintingMintSupplyMustBeZeroForConversion,
    /// 70 - One Time Auth mint supply must be zero for conversion
    OneTimeAuthMintSupplyMustBeZeroForConversion,
    /// You tried to insert one edition too many into an edition mark pda
    InvalidEditionIndex,
    ReservationArrayShouldBeSizeOne,
    /// Is Mutable can only be flipped to false
    IsMutableCanOnlyBeFlippedToFalse,
    CollectionCannotBeVerifiedInThisInstruction,
    Removed,
    MustBeBurned,
    InvalidUseMethod,
    CannotChangeUseMethodAfterFirstUse,
    CannotChangeUsesAfterFirstUse,
    CollectionNotFound,
    InvalidCollectionUpdateAuthority,
    CollectionMustBeAUniqueMasterEdition,
    UseAuthorityRecordAlreadyExists,
    UseAuthorityRecordAlreadyRevoked,
    Unusable,
    NotEnoughUses,
    InvalidUseAuthorityRecord,
    InvalidCollectionAuthorityRecord,
    InvalidFreezeAuthority,
    InvalidDelegate,
    CannotAdjustVerifiedCreator,
    CannotRemoveVerifiedCreator,
    CannotWipeVerifiedCreators,
    NotAllowedToChangeSellerFeeBasisPoints,
    /// Edition override cannot be zero
    EditionOverrideCannotBeZero,
    InvalidUser,
    /// Revoke Collection Authority signer is incorrect
    RevokeCollectionAuthoritySignerIncorrect,
    TokenCloseFailed,
    /// 101 - Calling v1.3 function on unsized collection
    UnsizedCollection,
    /// 102 - Calling v1.2 function on a sized collection
    SizedCollection,
    /// 103 - Missing collection metadata account.
    MissingCollectionMetadata,
    /// 104 - This NFT is not a member of the specified collection.
    NotAMemberOfCollection,
    /// 105 - This NFT is not a verified member of the specified collection.
    NotVerifiedMemberOfCollection,
    /// 106 - This NFT is not a collection parent NFT.
    NotACollectionParent,
    /// 107 - Could not determine a TokenStandard type.
    CouldNotDetermineTokenStandard,
    /// 108 - Missing edition account for a non-fungible token type.
    MissingEditionAccount,
    /// 109 - Not a Master Edition
    NotAMasterEdition,
    /// 110 - Master Edition has prints.
    MasterEditionHasPrints,
    /// 111 - Borsh Deserialization Error
    BorshDeserializationError,
    /// 112 - Cannot update a verified colleciton in this command
    CannotUpdateVerifiedCollection,
    /// 113 - Edition Account Doesnt Match Collection
    CollectionMasterEditionAccountInvalid,
    /// 114 - Item is already verified.
    AlreadyVerified,
    /// 115 - Item is already unverified.
    AlreadyUnverified,
    /// 116 - Not a Print Edition
    NotAPrintEdition,
    /// 117 - Invalid Edition Marker
    InvalidMasterEdition,
    /// 118 - Invalid Edition Marker
    InvalidPrintEdition,
    /// 119 - Invalid Edition Marker
    InvalidEditionMarker,
    /// 120 - Reservation List is Deprecated
    ReservationListDeprecated,
    /// 121 - Print Edition doesn't match Master Edition
    PrintEditionDoesNotMatchMasterEdition,
    /// 122 - Edition Number greater than max supply
    EditionNumberGreaterThanMaxSupply,
    /// 123 - Must unverify before migrating collections.
    MustUnverify,
    /// 124 - Invalid Escrow Account Bump Seed
    InvalidEscrowBumpSeed,
    /// 125 - Must be Escrow Authority
    MustBeEscrowAuthority,
    /// 126 - Invalid System Program
    InvalidSystemProgram,
    /// 127 - Must be a Non Fungible Token
    MustBeNonFungible,
    /// 128 - Insufficient tokens for transfer
    InsufficientTokens,
    /// 129 - Borsh Serialization Error
    BorshSerializationError,
    /// 130 - Cannot create NFT with no Freeze Authority.
    NoFreezeAuthoritySet,
    /// 131
    InvalidCollectionSizeChange,
    /// 132
    InvalidBubblegumSigner,
    /// 133
    EscrowParentHasDelegate,
    /// 134
    MintIsNotSigner,
    /// 135
    InvalidTokenStandard,
    /// 136
    InvalidMintForTokenStandard,
    /// 137
    InvalidAuthorizationRules,
    /// 138
    MissingAuthorizationRules,
    /// 139
    MissingProgrammableConfig,
    /// 140
    InvalidProgrammableConfig,
    /// 141
    DelegateAlreadyExists,
    /// 142
    DelegateNotFound,
    /// 143
    MissingAccountInBuilder,
    /// 144
    MissingArgumentInBuilder,
    /// 145
    FeatureNotSupported,
    /// 146
    InvalidSystemWallet,
    /// 147
    OnlySaleDelegateCanTransfer,
    /// 148
    MissingTokenAccount,
    /// 149
    MissingSplTokenProgram,
    /// 150
    MissingAuthorizationRulesProgram,
    /// 151
    InvalidDelegateRoleForTransfer,
    /// 152
    InvalidTransferAuthority,
    /// 153
    InstructionNotSupported,
    /// 154
    KeyMismatch,
    /// 155
    LockedToken,
    /// 156
    UnlockedToken,
    /// 157
    MissingDelegateRole,
    /// 158
    InvalidAuthorityType,
    /// 159
    MissingTokenRecord,
    /// 160
    MintSupplyMustBeZero,
    /// 161
    DataIsEmptyOrZeroed,
    /// 162
    MissingTokenOwnerAccount,
    /// 163
    InvalidMasterEditionAccountLength,
    /// 164
    IncorrectTokenState,
    /// 165
    InvalidDelegateRole,
    /// 166
    MissingPrintSupply,
    /// 167
    MissingMasterEditionAccount,
    /// 168
    AmountMustBeGreaterThanZero,
    /// 169
    InvalidDelegateArgs,
    /// 170
    MissingLockedTransferAddress,
    /// 171
    InvalidLockedTransferAddress,
    /// 172
    DataIncrementLimitExceeded,
    /// 173
    CannotUpdateAssetWithDelegate,
    /// 174
    InvalidAmount,
    /// 175
    MissingMasterEditionMintAccount,
    /// 176
    MissingMasterEditionTokenAccount,
    /// 177
    MissingEditionMarkerAccount,
    /// 178
    CannotBurnWithDelegate,
    /// 179
    MissingEdition,
    /// 180
    InvalidAssociatedTokenAccountProgram,
    /// 181
    InvalidInstructionsSysvar,
    /// 182
    InvalidParentAccounts,
    /// 183
    InvalidUpdateArgs,
    /// 184
    InsufficientTokenBalance,
    /// 185
    MissingCollectionMint,
    /// 186
    MissingCollectionMasterEdition,
    /// 187
    InvalidTokenRecord,
    /// 188
    InvalidCloseAuthority,
    /// 189
    InvalidInstruction,
    /// 190
    MissingDelegateRecord,
    /// 191
    InvalidFeeAccount,
    /// 192
    InvalidMetadataFlags,
    /// 193
    CannotChangeUpdateAuthorityWithDelegate,
    /// 194
    InvalidMintExtensionType,
    /// 195
    InvalidMintCloseAuthority,
    /// 196
    InvalidMetadataPointer,
    /// 197
    InvalidTokenExtensionType,
    /// 198
    MissingImmutableOwnerExtension,
    /// 199
    ExpectedUninitializedAccount,
    /// 200
    InvalidEditionAccountLength,
    /// 201
    AccountAlreadyResized,
    /// 202
    ConditionsForClosingNotMet,
}

impl MetadataError {
    /// The custom error code of this error: its position in the enumeration.
    pub fn code(&self) -> (r: u32)
        ensures
            r == *self as u32,
    {
        *self as u32
    }
}

impl From<MetadataError> for ProgramError {
    fn from(e: MetadataError) -> (r: ProgramError) {
        ProgramError::Custom(e.code())
    }
}

impl vstd::std_specs::convert::FromSpecImpl<MetadataError> for ProgramError {
    open spec fn obeys_from_spec() -> bool {
        true
    }

    open spec fn from_spec(e: MetadataError) -> ProgramError {
        ProgramError::Custom(e as u32)
    }
}

/// Why a record could not be decoded.
#[derive(Clone, Copy, Debug, PartialEq, Eq, Structural)]
pub enum DeserializeError {
    /// The bytes do not hold a record of the expected shape.
    InvalidData,
    /// The bytes hold a record of another account type.
    DataTypeMismatch,
    /// A length computation left the range of its integer type.
    NumericalOverflowError,
}

/// Every error survives the trip to its 64-bit code and back.
pub proof fn lemma_error_code_round_trip(e: ProgramError)
    ensures
        error_of_code(error_code(e)) == e,
{
    match e {
        ProgramError::Custom(c) => {
            assert(1u64 << 32 == 0x1_0000_0000u64) by (bit_vector);
            if c != 0 {
                assert((c as u64) % 0x1_0000_0000 == c as u64);
                assert(((c as u64) as u32) == c);
            }
        },
        _ => {},
    }
}

} // verus!
