//! The values exchanged with the multi-provider ledger RPC service and the
//! sign-in (address resolution) service.

use vstd::prelude::*;
use crate::natural::BigNat;

verus! {

/// Arguments that the RPC service is set up with.
#[derive(Debug)]
pub struct InitArgs {
    pub nodes_in_subnet: u32,
}

/// A permission on the RPC service.
#[derive(Clone, Copy, Debug, PartialEq, Eq, Structural)]
pub enum Auth {
    RegisterProvider,
    FreeRpc,
    PriorityRpc,
    Manage,
}

/// A provider of the Sepolia test network.
#[derive(Clone, Copy, Debug, PartialEq, Eq, Structural)]
pub enum EthSepoliaService {
    Alchemy,
    BlockPi,
    PublicNode,
    Ankr,
}

/// A provider of the main network.
#[derive(Clone, Copy, Debug, PartialEq, Eq, Structural)]
pub enum EthMainnetService {
    Alchemy,
    BlockPi,
    Cloudflare,
    PublicNode,
    Ankr,
}

/// A header sent with requests to a custom provider.
#[derive(Debug)]
pub struct HttpHeader {
    pub value: String,
    pub name: String,
}

/// A custom provider's endpoint.
#[derive(Debug)]
pub struct RpcApi {
    pub url: String,
    pub headers: Option<Vec<HttpHeader>>,
}

/// The providers that a request fans out to.
#[derive(Debug)]
pub enum RpcServices {
    EthSepolia(Option<Vec<EthSepoliaService>>),
    Custom { chain_id: u64, services: Vec<RpcApi> },
    EthMainnet(Option<Vec<EthMainnetService>>),
}

/// Request options.
#[derive(Debug)]
pub struct RpcConfig {
    pub response_size_estimate: Option<u64>,
}

/// An error object of a JSON-RPC reply.
#[derive(Debug)]
pub struct JsonRpcError {
    pub code: i64,
    pub message: String,
}

/// A refusal by the RPC service's provider bookkeeping.
#[derive(Debug)]
pub enum ProviderError {
    TooFewCycles { expected: BigNat, received: BigNat },
    MissingRequiredProvider,
    ProviderNotFound,
    NoPermission,
}

/// A request that the RPC service found invalid.
#[derive(Debug)]
pub enum ValidationError {
    CredentialPathNotAllowed,
    HostNotAllowed(String),
    CredentialHeaderNotAllowed,
    UrlParseError(String),
    Custom(String),
    InvalidHex(String),
}

/// Why an inter-canister call was rejected.
#[derive(Clone, Copy, Debug, PartialEq, Eq, Structural)]
pub enum RejectionCode {
    NoError,
    CanisterError,
    SysTransient,
    DestinationInvalid,
    Unknown,
    SysFatal,
    CanisterReject,
}

/// A failure of the HTTP request to a provider.
#[derive(Debug)]
pub enum HttpOutcallError {
    IcError { code: RejectionCode, message: String },
    InvalidHttpJsonRpcResponse { status: u16, body: String, parsing_error: Option<String> },
}

/// Any failure that the RPC service reports.
#[derive(Debug)]
pub enum RpcError {
    JsonRpcError(JsonRpcError),
    ProviderError(ProviderError),
    ValidationError(ValidationError),
    HttpOutcallError(HttpOutcallError),
}

/// A single provider.
#[derive(Debug)]
pub enum RpcService {
    EthSepolia(EthSepoliaService),
    Custom(RpcApi),
    EthMainnet(EthMainnetService),
    Chain(u64),
    Provider(u64),
}

/// How the ledger took a raw transaction.
#[derive(Debug)]
pub enum SendRawTransactionStatus {
    /// Accepted, with the transaction hash where the provider gave one.
    Accepted(Option<String>),
    NonceTooLow,
    NonceTooHigh,
    InsufficientFunds,
}

/// One provider's answer to a raw transaction.
#[derive(Debug)]
pub enum SendRawTransactionResult {
    Status(SendRawTransactionStatus),
    Failure(RpcError),
}

/// The providers' answers to a raw transaction: one answer when they agree,
/// else each provider's own.
#[derive(Debug)]
pub enum MultiSendRawTransactionResult {
    Consistent(SendRawTransactionResult),
    Inconsistent(Vec<(RpcService, SendRawTransactionResult)>),
}

/// The answer to a raw JSON-RPC request: the reply text, or a failure.
#[derive(Debug)]
pub enum RequestResult {
    Reply(String),
    Failure(RpcError),
}

/// Changes to a provider's role.
#[derive(Debug)]
pub struct ManageProviderArgs {
    pub service: Option<RpcService>,
    pub primary: Option<bool>,
    pub provider_id: u64,
}

/// A provider to add.
#[derive(Debug)]
pub struct RegisterProviderArgs {
    pub cycles_per_call: u64,
    pub credential_path: String,
    pub hostname: String,
    pub credential_headers: Option<Vec<HttpHeader>>,
    pub chain_id: u64,
    pub cycles_per_message_byte: u64,
}

/// Changes to a provider's settings.
#[derive(Debug)]
pub struct UpdateProviderArgs {
    pub cycles_per_call: Option<u64>,
    pub credential_path: Option<String>,
    pub hostname: Option<String>,
    pub credential_headers: Option<Vec<HttpHeader>>,
    pub primary: Option<bool>,
    pub cycles_per_message_byte: Option<u64>,
    pub provider_id: u64,
}

/// The ledger address that the sign-in service holds for an identity.
#[derive(Debug)]
pub enum GetAddressResponse {
    Address(String),
    Failure(String),
}

/// The message that the sign-in service asks a wallet to sign.
#[derive(Debug)]
pub enum PrepareLoginResponse {
    Message(String),
    Failure(String),
}

impl GetAddressResponse {
    /// The resolved address, or the service's reason.
    pub fn into_result(self) -> (r: Result<String, String>)
        ensures
            self matches GetAddressResponse::Address(a) ==> r == Ok::<String, String>(a),
            self matches GetAddressResponse::Failure(e) ==> r == Err::<String, String>(e),
    {
        match self {
            GetAddressResponse::Address(a) => Ok(a),
            GetAddressResponse::Failure(e) => Err(e),
        }
    }
}

} // verus!
