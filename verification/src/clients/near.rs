//! The NEAR backend: its configuration, the credentials it signs with, and the
//! signed instruction it makes of a transfer.

use crate::amount::balance_text;
use crate::amount::decimal;
use crate::amount::parse_balance;
use crate::amount::parsed_balance;
use crate::clients::Client;
use crate::clients::TransferError;
use crate::clients::wire::account_id_is_valid;
use crate::clients::wire::check_public_point;
use crate::clients::wire::is_account_id;
use crate::clients::wire::json_object_of_two;
use crate::clients::wire::key_can_sign;
use crate::clients::wire::KeyKind;
use crate::clients::wire::MAX_FIELD_LEN;
use crate::clients::wire::parse_key_kind;
use crate::clients::wire::public_point_is_sound;
use crate::clients::wire::secret_key_kind;
use crate::clients::wire::sign_function_call;
use crate::clients::wire::sign_native_transfer;
use crate::clients::wire::signed_function_call;
use crate::clients::wire::signed_native_transfer;
use crate::clients::wire::write_json_object_of_two;
use crate::quota::Balance;
use crate::submit::Phase;
use crate::submit::RetryPolicy;
use crate::submit::Submission;
use vstd::prelude::*;

verus! {

/// The gas attached to a call of a token contract's transfer method.
pub const FT_TRANSFER_GAS: u64 = 20_000_000_000_000;

/// The deposit attached to a call of a token contract's transfer method.
pub const FT_TRANSFER_DEPOSIT: Balance = 1;

/// A reference to a recent block, which a signed instruction must cite.
pub type BlockHash = [u8; 32];

/// The configuration of the NEAR backend.
#[derive(Debug, Clone)]
pub struct NearConfig {
    /// The address of the ledger's RPC endpoint.
    pub rpc_url: String,
    /// The tokens that the backend dispenses.
    pub tokens: Vec<Token>,
}

/// A token that the backend dispenses.
#[derive(Debug, Clone)]
pub enum Token {
    /// The ledger's native asset.
    Near(TokenConfig),
    /// A fungible token, held by a contract.
    Ft(TokenConfig),
}

/// The account that pays out a token, and the token's quota.
#[derive(Debug, Clone)]
pub struct TokenConfig {
    /// The account that signs the transfers; for a fungible token also the account of
    /// the token's contract.
    pub account_id: String,
    /// The secret key of that account.
    pub secret_key: String,
    /// What one address may receive within one window, in decimal digits.
    pub limit: String,
}

impl TokenConfig {
    /// The quota as a number, where `limit` writes one.
    pub fn limit_value(&self) -> (limit: Option<Balance>)
        ensures
            limit == parsed_balance(self.limit@),
    {
        parse_balance(self.limit.as_str())
    }
}

impl Token {
    /// The token's account and quota.
    pub open spec fn spec_config(&self) -> TokenConfig {
        match self {
            Token::Near(config) => *config,
            Token::Ft(config) => *config,
        }
    }

    /// Whether the token is the ledger's native asset.
    pub open spec fn spec_is_native(&self) -> bool {
        self is Near
    }

    /// The name under which requests ask for the token: `near` for the native asset,
    /// the account of its contract for a fungible token.
    pub open spec fn spec_name(&self) -> Seq<char> {
        match self {
            Token::Near(_) => "near"@,
            Token::Ft(config) => config.account_id@,
        }
    }

    /// The token's account and quota.
    pub fn config(&self) -> (config: &TokenConfig)
        ensures
            *config == self.spec_config(),
    {
        match self {
            Token::Near(config) => config,
            Token::Ft(config) => config,
        }
    }

    /// Whether the token is the ledger's native asset.
    #[verifier::when_used_as_spec(spec_is_native)]
    pub fn is_native(&self) -> (native: bool)
        ensures
            native == self.spec_is_native(),
    {
        match self {
            Token::Near(_) => true,
            Token::Ft(_) => false,
        }
    }

    /// The name under which requests ask for the token.
    pub fn name(&self) -> (name: String)
        ensures
            name@ == self.spec_name(),
    {
        match self {
            Token::Near(_) => "near".to_owned(),
            Token::Ft(config) => config.account_id.clone(),
        }
    }
}

/// Why a credential cannot be used.
#[derive(Clone, Copy, Debug, PartialEq, Eq, Structural)]
pub enum CredentialError {
    /// The account identifier breaks the ledger's rule.
    InvalidAccountId,
    /// The text holds no secret key.
    InvalidSecretKey,
    /// The text holds an Ed25519 key whose public half is no sound curve point.
    UnsoundSecretKey,
}

/// Whether a credential can be used, given what the checks of its parts found:
/// whether the account identifier follows the ledger's rule, which scheme the secret
/// key has if the text holds one, and whether the key's public half is a sound curve
/// point. The account is judged first, and the public half counts for Ed25519 only.
pub open spec fn credential_verdict(
    account_ok: bool,
    kind: Option<KeyKind>,
    point_sound: bool,
) -> Result<(), CredentialError> {
    if !account_ok {
        Err(CredentialError::InvalidAccountId)
    } else {
        match kind {
            None => Err(CredentialError::InvalidSecretKey),
            Some(KeyKind::Secp256k1) => Ok(()),
            Some(KeyKind::Ed25519) => if point_sound {
                Ok(())
            } else {
                Err(CredentialError::UnsoundSecretKey)
            },
        }
    }
}

/// Judges a credential by what the checks of its parts found.
pub fn judge_credential(account_ok: bool, kind: Option<KeyKind>, point_sound: bool) -> (verdict:
    Result<(), CredentialError>)
    ensures
        verdict == credential_verdict(account_ok, kind, point_sound),
{
    if !account_ok {
        return Err(CredentialError::InvalidAccountId);
    }
    match kind {
        None => Err(CredentialError::InvalidSecretKey),
        Some(KeyKind::Secp256k1) => Ok(()),
        Some(KeyKind::Ed25519) => if point_sound {
            Ok(())
        } else {
            Err(CredentialError::UnsoundSecretKey)
        },
    }
}

/// What `Credential::new` answers for an account identifier and a secret key.
pub open spec fn credential_check(account_id: Seq<char>, secret_key: Seq<char>) -> Result<
    (),
    CredentialError,
> {
    credential_verdict(
        is_account_id(account_id),
        secret_key_kind(secret_key),
        public_point_is_sound(secret_key),
    )
}

/// What is asked of the ledger in one instruction, before it is signed.
#[derive(Debug)]
pub enum Instruction {
    /// Send `deposit` of the native asset to the account `receiver_id`.
    Transfer {
        /// The account that receives.
        receiver_id: String,
        /// How much it receives.
        deposit: Balance,
    },
    /// Call a method of the contract of the account `receiver_id`.
    FunctionCall {
        /// The account of the contract.
        receiver_id: String,
        /// The method that is called.
        method_name: String,
        /// The method's arguments.
        args: Vec<u8>,
        /// The gas attached to the call.
        gas: u64,
        /// The deposit attached to the call.
        deposit: Balance,
    },
}

/// An instruction as a mathematical value.
pub ghost enum InstructionView {
    /// Send `deposit` of the native asset to the account `receiver_id`.
    Transfer { receiver_id: Seq<char>, deposit: Balance },
    /// Call a method of the contract of the account `receiver_id`.
    FunctionCall {
        receiver_id: Seq<char>,
        method_name: Seq<char>,
        args: Seq<u8>,
        gas: u64,
        deposit: Balance,
    },
}

impl View for Instruction {
    type V = InstructionView;

    open spec fn view(&self) -> InstructionView {
        match self {
            Instruction::Transfer { receiver_id, deposit } => InstructionView::Transfer {
                receiver_id: receiver_id@,
                deposit: *deposit,
            },
            Instruction::FunctionCall {
                receiver_id,
                method_name,
                args,
                gas,
                deposit,
            } => InstructionView::FunctionCall {
                receiver_id: receiver_id@,
                method_name: method_name@,
                args: args@,
                gas: *gas,
                deposit: *deposit,
            },
        }
    }
}

impl InstructionView {
    /// Whether the instruction can be signed: its receiver is an account, and its
    /// texts are short enough for the ledger's encoding.
    pub open spec fn signable(self) -> bool {
        match self {
            InstructionView::Transfer { receiver_id, .. } => is_account_id(receiver_id),
            InstructionView::FunctionCall { receiver_id, method_name, args, .. } => {
                &&& is_account_id(receiver_id)
                &&& method_name.len() <= MAX_FIELD_LEN
                &&& args.len() <= MAX_FIELD_LEN
            },
        }
    }

    /// The instruction as the ledger's crates encode it once it is signed for
    /// `account` with the key that `secret` holds.
    pub open spec fn signed_by(
        self,
        account: Seq<char>,
        secret: Seq<char>,
        nonce: u64,
        anchor: Seq<u8>,
    ) -> Seq<u8> {
        match self {
            InstructionView::Transfer { receiver_id, deposit } => signed_native_transfer(
                account,
                secret,
                nonce,
                receiver_id,
                anchor,
                deposit,
            ),
            InstructionView::FunctionCall {
                receiver_id,
                method_name,
                args,
                gas,
                deposit,
            } => signed_function_call(
                account,
                secret,
                nonce,
                receiver_id,
                anchor,
                method_name,
                args,
                gas,
                deposit,
            ),
        }
    }
}

/// An account and the secret key that signs for it, both checked.
pub struct Credential {
    account_id: String,
    secret_key: String,
}

impl Credential {
    /// The account identifier.
    pub closed spec fn account(&self) -> Seq<char> {
        self.account_id@
    }

    /// The text of the secret key.
    pub closed spec fn secret(&self) -> Seq<char> {
        self.secret_key@
    }

    /// The invariant of a credential: the account identifier follows the ledger's rule,
    /// and the key is safe to sign with.
    pub open spec fn wf(&self) -> bool {
        is_account_id(self.account()) && key_can_sign(self.secret())
    }

    /// Checks an account identifier and a secret key, and keeps them where both pass.
    pub fn new(account_id: &str, secret_key: &str) -> (made: Result<Credential, CredentialError>)
        ensures
            match made {
                Ok(credential) => credential_check(account_id@, secret_key@) is Ok
                    && credential.wf() && credential.account() == account_id@
                    && credential.secret() == secret_key@,
                Err(error) => credential_check(account_id@, secret_key@) == Err::<
                    (),
                    CredentialError,
                >(error),
            },
    {
        let account_ok = account_id_is_valid(account_id);
        let kind = parse_key_kind(secret_key);
        let point_sound = match kind {
            Some(_) => check_public_point(secret_key),
            None => false,
        };
        match judge_credential(account_ok, kind, point_sound) {
            Ok(()) => Ok(
                Credential { account_id: account_id.to_owned(), secret_key: secret_key.to_owned() },
            ),
            Err(error) => Err(error),
        }
    }

    /// Signs an instruction with ordering counter `nonce`, citing `anchor`.
    pub fn sign(&self, instruction: &Instruction, nonce: u64, anchor: &BlockHash) -> (payload: Vec<
        u8,
    >)
        requires
            self.wf(),
            instruction@.signable(),
        ensures
            payload@ == instruction@.signed_by(self.account(), self.secret(), nonce, anchor@),
    {
        match instruction {
            Instruction::Transfer { receiver_id, deposit } => sign_native_transfer(
                self.account_id.as_str(),
                self.secret_key.as_str(),
                nonce,
                receiver_id.as_str(),
                anchor,
                *deposit,
            ),
            Instruction::FunctionCall { receiver_id, method_name, args, gas, deposit } => {
                sign_function_call(
                    self.account_id.as_str(),
                    self.secret_key.as_str(),
                    nonce,
                    receiver_id.as_str(),
                    anchor,
                    method_name.as_str(),
                    args,
                    *gas,
                    *deposit,
                )
            },
        }
    }

    /// The account identifier.
    pub fn account_id(&self) -> (account_id: &str)
        ensures
            account_id@ == self.account(),
    {
        self.account_id.as_str()
    }

    /// A copy of the credential.
    pub fn duplicate(&self) -> (copy: Credential)
        ensures
            copy.account() == self.account(),
            copy.secret() == self.secret(),
    {
        Credential { account_id: self.account_id.clone(), secret_key: self.secret_key.clone() }
    }
}

/// Why the ledger, or the making of an instruction, refuses a transfer for good.
#[derive(Debug)]
pub enum Rejection {
    /// The destination breaks the ledger's rule for account identifiers.
    InvalidDestination,
    /// The instruction would not fit the ledger's encoding.
    InstructionTooLarge,
    /// The ledger executed the instruction and reports that it failed.
    Execution(String),
}

impl Rejection {
    /// A copy of the cause.
    pub fn duplicate(&self) -> (copy: Rejection)
        ensures
            copy == *self,
    {
        match self {
            Rejection::InvalidDestination => Rejection::InvalidDestination,
            Rejection::InstructionTooLarge => Rejection::InstructionTooLarge,
            Rejection::Execution(reason) => Rejection::Execution(reason.clone()),
        }
    }
}

/// One transfer that is asked of the backend.
pub struct TransferRequest {
    /// The account that pays, and its key.
    pub credential: Credential,
    /// Whether the native asset is sent, or a fungible token.
    pub native: bool,
    /// The account that receives.
    pub destination: String,
    /// How much it receives.
    pub amount: Balance,
}

/// One signed instruction, made for one attempt to submit it.
#[derive(Debug)]
pub struct TransferAttempt {
    /// The signer's ordering counter that the instruction uses.
    pub ordering_token: u64,
    /// The block that the instruction cites.
    pub freshness_anchor: BlockHash,
    /// The signed instruction in the ledger's encoding.
    pub signed_payload: Vec<u8>,
}

/// The arguments of a token contract's transfer method for a payment to `destination`.
pub open spec fn ft_transfer_args(destination: Seq<char>, amount: Balance) -> Seq<u8> {
    json_object_of_two("receiver_id"@, destination, "amount"@, decimal(amount as nat))
}

impl TransferRequest {
    /// The credential is well formed.
    pub open spec fn wf(&self) -> bool {
        self.credential.wf()
    }

    /// The arguments of the token contract's transfer method for this transfer; the
    /// native asset needs none.
    pub open spec fn args(&self) -> Seq<u8> {
        if self.native {
            Seq::empty()
        } else {
            ft_transfer_args(self.destination@, self.amount)
        }
    }

    /// The instruction for this transfer, given whether the destination is an account
    /// identifier and the arguments for the token contract's method, or why there is
    /// none. The native asset goes to the destination in a transfer of the amount. A
    /// fungible token goes by a call of `ft_transfer` on the token's contract, which
    /// is the paying account.
    pub open spec fn planned(&self, destination_ok: bool, args: Seq<u8>) -> Result<
        InstructionView,
        Rejection,
    > {
        if !destination_ok {
            Err(Rejection::InvalidDestination)
        } else if self.native {
            Ok(InstructionView::Transfer { receiver_id: self.destination@, deposit: self.amount })
        } else if args.len() > MAX_FIELD_LEN {
            Err(Rejection::InstructionTooLarge)
        } else {
            Ok(
                InstructionView::FunctionCall {
                    receiver_id: self.credential.account(),
                    method_name: "ft_transfer"@,
                    args,
                    gas: FT_TRANSFER_GAS,
                    deposit: FT_TRANSFER_DEPOSIT,
                },
            )
        }
    }

    /// The signed instruction for this transfer with ordering counter `nonce`, citing
    /// `anchor`, or why there is none.
    pub open spec fn signed(&self, nonce: u64, anchor: BlockHash) -> Result<Seq<u8>, Rejection> {
        match self.planned(is_account_id(self.destination@), self.args()) {
            Ok(instruction) => Ok(
                instruction.signed_by(
                    self.credential.account(),
                    self.credential.secret(),
                    nonce,
                    anchor@,
                ),
            ),
            Err(rejection) => Err(rejection),
        }
    }

    /// Makes the instruction for this transfer, given whether the destination is an
    /// account identifier and the arguments for the token contract's method.
    pub fn plan(&self, destination_ok: bool, args: Vec<u8>) -> (made: Result<
        Instruction,
        Rejection,
    >)
        ensures
            match made {
                Ok(instruction) => self.planned(destination_ok, args@) == Ok::<
                    InstructionView,
                    Rejection,
                >(instruction@),
                Err(rejection) => self.planned(destination_ok, args@) == Err::<
                    InstructionView,
                    Rejection,
                >(rejection),
            },
    {
        if !destination_ok {
            Err(Rejection::InvalidDestination)
        } else if self.native {
            Ok(
                Instruction::Transfer {
                    receiver_id: self.destination.clone(),
                    deposit: self.amount,
                },
            )
        } else if args.len() > MAX_FIELD_LEN {
            Err(Rejection::InstructionTooLarge)
        } else {
            Ok(
                Instruction::FunctionCall {
                    receiver_id: self.credential.account_id.clone(),
                    method_name: "ft_transfer".to_owned(),
                    args,
                    gas: FT_TRANSFER_GAS,
                    deposit: FT_TRANSFER_DEPOSIT,
                },
            )
        }
    }

    /// Makes and signs the instruction for this transfer with ordering counter `nonce`,
    /// citing `anchor`. Only a destination that is no account identifier, or an
    /// instruction too large to encode, stops it.
    pub fn sign(&self, nonce: u64, anchor: &BlockHash) -> (made: Result<TransferAttempt, Rejection>)
        requires
            self.wf(),
        ensures
            match made {
                Ok(attempt) => self.signed(nonce, *anchor) == Ok::<Seq<u8>, Rejection>(
                    attempt.signed_payload@,
                ) && attempt.ordering_token == nonce && attempt.freshness_anchor == *anchor,
                Err(rejection) => self.signed(nonce, *anchor) == Err::<Seq<u8>, Rejection>(
                    rejection,
                ),
            },
    {
        let destination_ok = account_id_is_valid(self.destination.as_str());
        let args = if self.native {
            Vec::new()
        } else {
            let amount = balance_text(self.amount);
            write_json_object_of_two(
                "receiver_id",
                self.destination.as_str(),
                "amount",
                amount.as_str(),
            )
        };
        match self.plan(destination_ok, args) {
            Ok(instruction) => {
                proof {
                    reveal_strlit("ft_transfer");
                }
                let payload = self.credential.sign(&instruction, nonce, anchor);
                Ok(
                    TransferAttempt {
                        ordering_token: nonce,
                        freshness_anchor: *anchor,
                        signed_payload: payload,
                    },
                )
            },
            Err(rejection) => Err(rejection),
        }
    }
}

/// What `Credential::new` answers for the account and key of a token.
pub open spec fn token_check(token: Token) -> Result<(), CredentialError> {
    credential_check(token.spec_config().account_id@, token.spec_config().secret_key@)
}

/// A token that the backend can pay out: its name, its kind, and who signs.
pub struct TokenState {
    name: String,
    native: bool,
    credential: Credential,
}

impl TokenState {
    /// The name under which requests ask for the token.
    pub closed spec fn name(&self) -> Seq<char> {
        self.name@
    }

    /// Whether the token is the ledger's native asset.
    pub closed spec fn native(&self) -> bool {
        self.native
    }

    /// The account that pays, and its key.
    pub closed spec fn credential(&self) -> Credential {
        self.credential
    }

    /// Whether this is what the backend keeps of `token`.
    pub open spec fn stands_for(&self, token: Token) -> bool {
        &&& self.name() == token.spec_name()
        &&& self.native() == token.spec_is_native()
        &&& self.credential().account() == token.spec_config().account_id@
        &&& self.credential().secret() == token.spec_config().secret_key@
        &&& self.credential().wf()
    }
}

/// The position of the last token named `name` among the first `n`, if there is one.
pub open spec fn last_named(tokens: Seq<TokenState>, name: Seq<char>, n: int) -> Option<int>
    decreases n,
{
    if n <= 0 {
        None
    } else if tokens[n - 1].name() == name {
        Some(n - 1)
    } else {
        last_named(tokens, name, n - 1)
    }
}

/// The NEAR backend: the tokens it pays out.
pub struct NearClient {
    tokens: Vec<TokenState>,
}

impl View for NearClient {
    type V = Seq<TokenState>;

    /// The tokens, in the order of the configuration.
    closed spec fn view(&self) -> Seq<TokenState> {
        self.tokens@
    }
}

impl Client for NearClient {
    open spec fn ready(&self) -> bool {
        self.wf()
    }

    open spec fn refusal(&self, token: Seq<char>, amount: Seq<char>) -> Option<TransferError> {
        if self.token_named(token) is None {
            Some(TransferError::TokenNotFound)
        } else if parsed_balance(amount) is None {
            Some(TransferError::InvalidAmount)
        } else {
            None
        }
    }

    fn transfer(&self, to: &str, token: &str, amount: &str, policy: RetryPolicy) -> (begun: Result<
        Submission,
        TransferError,
    >) {
        NearClient::transfer(self, to, token, amount, policy)
    }
}

impl NearClient {
    /// The invariant of the backend: every token's credential is well formed.
    pub open spec fn wf(&self) -> bool {
        forall|i: int| 0 <= i < self@.len() ==> (#[trigger] self@[i]).credential().wf()
    }

    /// The token that a request for `name` means: the last of that name in the
    /// configuration.
    pub open spec fn token_named(&self, name: Seq<char>) -> Option<TokenState> {
        match last_named(self@, name, self@.len() as int) {
            Some(i) => Some(self@[i]),
            None => None,
        }
    }

    /// Makes the backend of a configuration. Every token's account and key are
    /// checked; the first that fails the check is the error.
    pub fn new(config: &NearConfig) -> (made: Result<NearClient, CredentialError>)
        ensures
            match made {
                Ok(client) => {
                    &&& client.wf()
                    &&& client@.len() == config.tokens@.len()
                    &&& forall|i: int|
                        0 <= i < config.tokens@.len() ==> token_check(#[trigger] config.tokens@[i])
                            is Ok
                    &&& forall|i: int|
                        0 <= i < config.tokens@.len() ==> (#[trigger] client@[i]).stands_for(
                            config.tokens@[i],
                        )
                },
                Err(error) => exists|i: int|
                    {
                        &&& 0 <= i < config.tokens@.len()
                        &&& token_check(#[trigger] config.tokens@[i]) == Err::<
                            (),
                            CredentialError,
                        >(error)
                        &&& forall|j: int|
                            0 <= j < i ==> token_check(#[trigger] config.tokens@[j]) is Ok
                    },
            },
    {
        let mut tokens: Vec<TokenState> = Vec::new();
        let mut i: usize = 0;
        while i < config.tokens.len()
            invariant
                i <= config.tokens@.len(),
                tokens@.len() == i,
                forall|j: int| 0 <= j < i ==> token_check(#[trigger] config.tokens@[j]) is Ok,
                forall|j: int|
                    0 <= j < i ==> (#[trigger] tokens@[j]).stands_for(config.tokens@[j]),
            decreases config.tokens@.len() - i,
        {
            let token = &config.tokens[i];
            let token_config = token.config();
            let made = Credential::new(
                token_config.account_id.as_str(),
                token_config.secret_key.as_str(),
            );
            match made {
                Ok(credential) => {
                    let state = TokenState {
                        name: token.name(),
                        native: token.is_native(),
                        credential,
                    };
                    assert(state.stands_for(*token));
                    tokens.push(state);
                },
                Err(error) => {
                    assert(token_check(config.tokens@[i as int]) == Err::<(), CredentialError>(
                        error,
                    ));
                    return Err(error);
                },
            }
            i += 1;
        }
        let client = NearClient { tokens };
        assert forall|j: int| 0 <= j < client@.len() implies (
        #[trigger] client@[j]).credential().wf() by {
            assert(client@[j].stands_for(config.tokens@[j]));
        }
        Ok(client)
    }

    /// The number of tokens that the backend pays out.
    pub fn token_count(&self) -> (count: usize)
        ensures
            count == self@.len(),
    {
        self.tokens.len()
    }

    /// The position of the token that a request for `name` means: the last of that
    /// name in the configuration.
    pub fn position(&self, name: &str) -> (pos: Option<usize>)
        ensures
            match pos {
                Some(i) => last_named(self@, name@, self@.len() as int) == Some(i as int) && i
                    < self@.len(),
                None => last_named(self@, name@, self@.len() as int) is None,
            },
    {
        let wanted = name.to_owned();
        let mut n = self.tokens.len();
        while n > 0
            invariant
                wanted@ == name@,
                n <= self@.len(),
                self@ == self.tokens@,
                last_named(self@, name@, self@.len() as int) == last_named(self@, name@, n as int),
            decreases n,
        {
            if self.tokens[n - 1].name == wanted {
                return Some(n - 1);
            }
            n -= 1;
        }
        None
    }

    /// Begins a transfer of `amount`, written in decimal digits, of the token named
    /// `token` to `to`. Nothing is asked of the ledger yet: the transfer that comes
    /// back is driven by handing it the ledger's answers.
    pub fn transfer(&self, to: &str, token: &str, amount: &str, policy: RetryPolicy) -> (begun:
        Result<Submission, TransferError>)
        requires
            self.wf(),
        ensures
            match begun {
                Ok(submission) => {
                    &&& self.token_named(token@) is Some
                    &&& parsed_balance(amount@) is Some
                    &&& submission.wf()
                    &&& submission.policy == policy
                    &&& submission.attempts == 0
                    &&& submission.phase == Phase::Init
                    &&& submission.request.native == self.token_named(token@).unwrap().native()
                    &&& submission.request.credential.account() == self.token_named(
                        token@,
                    ).unwrap().credential().account()
                    &&& submission.request.credential.secret() == self.token_named(
                        token@,
                    ).unwrap().credential().secret()
                    &&& submission.request.destination@ == to@
                    &&& submission.request.amount == parsed_balance(amount@).unwrap()
                },
                Err(TransferError::TokenNotFound) => self.token_named(token@) is None,
                Err(TransferError::InvalidAmount) => self.token_named(token@) is Some
                    && parsed_balance(amount@) is None,
            },
    {
        let state = match self.position(token) {
            Some(i) => &self.tokens[i],
            None => {
                return Err(TransferError::TokenNotFound);
            },
        };
        let amount = match parse_balance(amount) {
            Some(amount) => amount,
            None => {
                return Err(TransferError::InvalidAmount);
            },
        };
        let request = TransferRequest {
            credential: state.credential.duplicate(),
            native: state.native,
            destination: to.to_owned(),
            amount,
        };
        Ok(Submission::new(request, policy))
    }
}

} // verus!
