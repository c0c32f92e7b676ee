//! Blockchain contract calls: resolution, dispatch contract, and the
//! three-way failure classification.
//!
//! Resolution is a pure lookup against the versioned ABI set attached to
//! the data source; no network is touched. The blocking dispatch itself is
//! the blockchain adapter's job; what it came back with is classified
//! here: a revert is a valid absent result, transport errors and timeouts
//! may stem from a chain reorganization, anything else is unknown, and a
//! failed resolution is an authoring bug — deterministic, never retried.

use vstd::prelude::*;
use vstd::string::StringExecFns;
use crate::codec::H160;
use crate::errors::{DeterministicHostError, EthereumCallError};

verus! {

broadcast use vstd::std_specs::vec::group_vec_axioms, vstd::seq::group_seq_axioms;

#[verifier::external_type_specification]
#[verifier::external_body]
pub struct ExToken(ethabi::Token);

#[verifier::external_type_specification]
#[verifier::external_body]
pub struct ExParamType(ethabi::ParamType);

/// One function of a contract ABI: its bare name and its full signature
/// rendering (`name(type,...)`).
pub struct AbiFunction {
    /// The function name; overloaded functions share it.
    pub name: String,
    /// The canonical signature string, unique per overload.
    pub signature: String,
}

/// One contract ABI document, attached to the data source by name.
pub struct MappingABI {
    /// The contract name the manifest refers to.
    pub name: String,
    /// The functions of the contract, in declaration order.
    pub functions: Vec<AbiFunction>,
}

/// A position on the chain: the block the call is evaluated against.
pub struct BlockPtr {
    /// The block hash.
    pub hash: Vec<u8>,
    /// The block number.
    pub number: u64,
}

/// A contract call as the sandbox hands it over, not yet resolved.
pub struct UnresolvedContractCall {
    /// Which ABI document to resolve against.
    pub contract_name: String,
    /// The target address.
    pub contract_address: H160,
    /// The function name to call.
    pub function_name: String,
    /// The full signature, given by newer mapping API versions; absent in
    /// the legacy calling convention, which resolves by name alone.
    pub function_signature: Option<String>,
    /// The already ABI-encoded arguments.
    pub function_args: Vec<ethabi::Token>,
}

/// A resolved call, ready for the blockchain adapter.
pub struct EthereumContractCall {
    /// The target address.
    pub address: H160,
    /// The chain position to evaluate at.
    pub block_ptr: BlockPtr,
    /// The resolved function.
    pub function: AbiFunction,
    /// The arguments.
    pub args: Vec<ethabi::Token>,
}

/// What the blockchain adapter came back with for a dispatched call.
pub enum ContractCallOutcome {
    /// The call succeeded with these return tokens.
    Success(Vec<ethabi::Token>),
    /// The contract reverted, with the given reason.
    Revert(String),
    /// The node reported a transport-level error.
    TransportError(String),
    /// The node did not answer in time.
    Timeout,
    /// Any other adapter failure.
    Other(String),
}

/// The first ABI document carrying the name, if any.
pub open spec fn lookup_abi(abis: Seq<MappingABI>, name: Seq<char>) -> Option<MappingABI>
    decreases abis,
{
    if abis.len() == 0 {
        None
    } else if abis.first().name@ == name {
        Some(abis.first())
    } else {
        lookup_abi(abis.drop_first(), name)
    }
}

/// The first function with the given name — the legacy convention, which
/// for overloaded functions always picks the same variant.
pub open spec fn lookup_fn_by_name(fs: Seq<AbiFunction>, name: Seq<char>) -> Option<AbiFunction>
    decreases fs,
{
    if fs.len() == 0 {
        None
    } else if fs.first().name@ == name {
        Some(fs.first())
    } else {
        lookup_fn_by_name(fs.drop_first(), name)
    }
}

/// The first function with the given name and exact signature.
pub open spec fn lookup_fn_by_sig(fs: Seq<AbiFunction>, name: Seq<char>, sig: Seq<char>) -> Option<
    AbiFunction,
>
    decreases fs,
{
    if fs.len() == 0 {
        None
    } else if fs.first().name@ == name && fs.first().signature@ == sig {
        Some(fs.first())
    } else {
        lookup_fn_by_sig(fs.drop_first(), name, sig)
    }
}

/// The function an unresolved call resolves to, if any: the ABI document
/// by contract name, then the function by name alone (legacy) or by exact
/// signature.
pub open spec fn resolve_spec(
    abis: Seq<MappingABI>,
    contract_name: Seq<char>,
    function_name: Seq<char>,
    function_signature: Option<Seq<char>>,
) -> Option<AbiFunction> {
    match lookup_abi(abis, contract_name) {
        None => None,
        Some(abi) => match function_signature {
            None => lookup_fn_by_name(abi.functions@, function_name),
            Some(sig) => lookup_fn_by_sig(abi.functions@, function_name, sig),
        },
    }
}

/// The view of an optional signature string.
pub open spec fn opt_str_view(o: Option<String>) -> Option<Seq<char>> {
    match o {
        Some(s) => Some(s@),
        None => None,
    }
}

/// First ABI document with the given name.
fn find_abi<'a>(abis: &'a Vec<MappingABI>, name: &String) -> (r: Option<&'a MappingABI>)
    ensures
        match r {
            Some(abi) => lookup_abi(abis@, name@) == Some(*abi),
            None => lookup_abi(abis@, name@) is None,
        },
{
    let n = abis.len();
    let mut i: usize = 0;
    proof {
        assert(abis@.skip(0) =~= abis@);
    }
    while i < n
        invariant
            i <= n,
            n == abis@.len(),
            lookup_abi(abis@, name@) == lookup_abi(abis@.skip(i as int), name@),
        decreases n - i,
    {
        proof {
            assert(abis@.skip(i as int).first() == abis@[i as int]);
            assert(abis@.skip(i as int).drop_first() =~= abis@.skip(i as int + 1));
        }
        if abis[i].name.eq(name) {
            return Some(&abis[i]);
        }
        i = i + 1;
    }
    None
}

/// First function with the given name, and optionally the given exact
/// signature.
fn find_function<'a>(fs: &'a Vec<AbiFunction>, name: &String, sig: Option<&String>) -> (r: Option<
    &'a AbiFunction,
>)
    ensures
        match (r, sig) {
            (Some(f), None) => lookup_fn_by_name(fs@, name@) == Some(*f),
            (None, None) => lookup_fn_by_name(fs@, name@) is None,
            (Some(f), Some(s)) => lookup_fn_by_sig(fs@, name@, s@) == Some(*f),
            (None, Some(s)) => lookup_fn_by_sig(fs@, name@, s@) is None,
        },
{
    let n = fs.len();
    let mut i: usize = 0;
    proof {
        assert(fs@.skip(0) =~= fs@);
    }
    while i < n
        invariant
            i <= n,
            n == fs@.len(),
            match sig {
                None => lookup_fn_by_name(fs@, name@) == lookup_fn_by_name(
                    fs@.skip(i as int),
                    name@,
                ),
                Some(s) => lookup_fn_by_sig(fs@, name@, s@) == lookup_fn_by_sig(
                    fs@.skip(i as int),
                    name@,
                    s@,
                ),
            },
        decreases n - i,
    {
        proof {
            assert(fs@.skip(i as int).first() == fs@[i as int]);
            assert(fs@.skip(i as int).drop_first() =~= fs@.skip(i as int + 1));
        }
        let name_matches = fs[i].name.eq(name);
        let sig_matches = match sig {
            None => true,
            Some(s) => fs[i].signature.eq(s),
        };
        if name_matches && sig_matches {
            return Some(&fs[i]);
        }
        i = i + 1;
    }
    None
}

/// The message of a contract whose ABI document is not attached.
pub open spec fn no_abi_message(contract_name: Seq<char>) -> Seq<char> {
    "could not find ABI for contract '"@ + contract_name
        + "', try adding it to the 'abis' section of the subgraph manifest"@
}

/// The message of a function the attached ABI does not declare.
pub open spec fn no_function_message(contract_name: Seq<char>, function_name: Seq<char>) -> Seq<
    char,
> {
    "unknown function '"@ + contract_name + "::"@ + function_name + "' called from the runtime"@
}

/// Resolves an unresolved call against the data source's ABI set: a pure
/// lookup, failing deterministically when the contract or the function is
/// not declared — an authoring bug, never retried — with a message naming
/// what was not found.
pub fn resolve_contract_call(
    abis: &Vec<MappingABI>,
    block_ptr: &BlockPtr,
    call: UnresolvedContractCall,
) -> (r: Result<EthereumContractCall, EthereumCallError>)
    ensures
        r is Ok <==> resolve_spec(
            abis@,
            call.contract_name@,
            call.function_name@,
            opt_str_view(call.function_signature),
        ) is Some,
        lookup_abi(abis@, call.contract_name@) is None ==> (r matches Err(e) && e matches
            EthereumCallError::DeterministicHostError(d) && d.message@ == no_abi_message(
            call.contract_name@,
        )),
        (lookup_abi(abis@, call.contract_name@) is Some && resolve_spec(
            abis@,
            call.contract_name@,
            call.function_name@,
            opt_str_view(call.function_signature),
        ) is None) ==> (r matches Err(e) && e matches EthereumCallError::DeterministicHostError(d)
            && d.message@ == no_function_message(call.contract_name@, call.function_name@)),
        r matches Ok(c) ==> {
            &&& Some(c.function) == resolve_spec(
                abis@,
                call.contract_name@,
                call.function_name@,
                opt_str_view(call.function_signature),
            )
            &&& c.address.bytes@ == call.contract_address.bytes@
            &&& c.args == call.function_args
            &&& c.block_ptr.hash@ == block_ptr.hash@
            &&& c.block_ptr.number == block_ptr.number
        },
        r matches Err(e) ==> e is DeterministicHostError,
{
    let abi = match find_abi(abis, &call.contract_name) {
        Some(abi) => abi,
        None => {
            return Err(
                EthereumCallError::DeterministicHostError(
                    DeterministicHostError::with_input(
                        "could not find ABI for contract '",
                        call.contract_name.as_str(),
                        "', try adding it to the 'abis' section of the subgraph manifest",
                    ),
                ),
            );
        },
    };
    let function = match find_function(
        &abi.functions,
        &call.function_name,
        call.function_signature.as_ref(),
    ) {
        Some(f) => f,
        None => {
            let mut m = String::from_str("unknown function '");
            m.append(call.contract_name.as_str());
            m.append("::");
            m.append(call.function_name.as_str());
            m.append("' called from the runtime");
            return Err(
                EthereumCallError::DeterministicHostError(DeterministicHostError { message: m }),
            );
        },
    };
    Ok(
        EthereumContractCall {
            address: call.contract_address,
            block_ptr: BlockPtr {
                hash: vstd::slice::slice_to_vec(block_ptr.hash.as_slice()),
                number: block_ptr.number,
            },
            function: AbiFunction {
                name: function.name.clone(),
                signature: function.signature.clone(),
            },
            args: call.function_args,
        },
    )
}

/// The call naming every contract-call failure carries: which function
/// of which contract was being called.
pub open spec fn call_context(function_name: Seq<char>, contract_name: Seq<char>) -> Seq<char> {
    "function '"@ + function_name + "' of contract '"@ + contract_name + "'"@
}

/// Renders the call context for a failure message.
fn call_context_text(function_name: &String, contract_name: &String) -> (r: String)
    ensures
        r@ == call_context(function_name@, contract_name@),
{
    let mut m = String::from_str("function '");
    m.append(function_name.as_str());
    m.append("' of contract '");
    m.append(contract_name.as_str());
    m.append("'");
    m
}

/// Classifies what the adapter came back with: a revert is a valid
/// absent result; a transport error or timeout may stem from a chain
/// reorganization and must be retried after reorg-aware re-validation;
/// anything else is an unknown, locally retryable failure. Every error
/// message names the function and the contract that were being called.
pub fn classify_call_outcome(
    outcome: ContractCallOutcome,
    function_name: &String,
    contract_name: &String,
) -> (r: Result<Option<Vec<ethabi::Token>>, EthereumCallError>)
    ensures
        outcome matches ContractCallOutcome::Success(tokens) ==> (r matches Ok(o) && o == Some(
            tokens,
        )),
        outcome matches ContractCallOutcome::Revert(_) ==> (r matches Ok(o) && o is None),
        outcome matches ContractCallOutcome::TransportError(m) ==> (r matches Err(e) && e matches
            EthereumCallError::PossibleReorg(msg) && msg@
            == "Ethereum node returned an error when calling "@ + call_context(
            function_name@,
            contract_name@,
        ) + ": "@ + m@),
        outcome is Timeout ==> (r matches Err(e) && e matches EthereumCallError::PossibleReorg(msg)
            && msg@ == "Ethereum node did not respond when calling "@ + call_context(
            function_name@,
            contract_name@,
        )),
        outcome matches ContractCallOutcome::Other(m) ==> (r matches Err(e) && e matches
            EthereumCallError::Unknown(msg) && msg@ == "failed to call "@ + call_context(
            function_name@,
            contract_name@,
        ) + ": "@ + m@),
{
    match outcome {
        ContractCallOutcome::Success(tokens) => Ok(Some(tokens)),
        ContractCallOutcome::Revert(_reason) => Ok(None),
        ContractCallOutcome::TransportError(m) => {
            let mut msg = String::from_str("Ethereum node returned an error when calling ");
            let ctx = call_context_text(function_name, contract_name);
            msg.append(ctx.as_str());
            msg.append(": ");
            msg.append(m.as_str());
            Err(EthereumCallError::PossibleReorg(msg))
        },
        ContractCallOutcome::Timeout => {
            let mut msg = String::from_str("Ethereum node did not respond when calling ");
            let ctx = call_context_text(function_name, contract_name);
            msg.append(ctx.as_str());
            Err(EthereumCallError::PossibleReorg(msg))
        },
        ContractCallOutcome::Other(m) => {
            let mut msg = String::from_str("failed to call ");
            let ctx = call_context_text(function_name, contract_name);
            msg.append(ctx.as_str());
            msg.append(": ");
            msg.append(m.as_str());
            Err(EthereumCallError::Unknown(msg))
        },
    }
}

/// Whether an ABI parameter-type string parses; relied on from
/// `ethabi`'s type-string reader.
pub uninterp spec fn is_abi_type_string(s: Seq<char>) -> bool;

/// What `ethabi::encode` returns for one token: the head/tail word
/// encoding, a function of the token alone.
pub uninterp spec fn abi_enc_of(t: ethabi::Token) -> Seq<u8>;

/// Whether the bytes decode under the one type the string reads to;
/// relied on from `ethabi::decode`.
pub uninterp spec fn abi_decodable(types: Seq<char>, data: Seq<u8>) -> bool;

/// Whether a token is a value of the one type the string reads to — the
/// shape `ethabi::decode` produces for it.
pub uninterp spec fn abi_token_matches(t: ethabi::Token, types: Seq<char>) -> bool;

/// Relies on `ethabi::encode`: the head/tail ABI encoding of one token,
/// always a whole number of 32-byte words.
#[verifier::external_body]
pub(crate) fn abi_encode_one(t: &ethabi::Token) -> (r: Vec<u8>)
    ensures
        r@ == abi_enc_of(*t),
        r@.len() % 32 == 0,
{
    ethabi::encode(core::slice::from_ref(t))
}

/// Relies on `ethabi::param_type::Reader::read` and `ethabi::decode`:
/// reads the one parameter type of the string and decodes exactly one
/// token of it, succeeding exactly on a readable type string whose bytes
/// decode; on a value's own encoding it inverts the encoder. The reader
/// slices the string at character-counted positions, so only ASCII
/// strings may be handed to it — anything else can make it panic.
#[verifier::external_body]
pub(crate) fn abi_decode_for(types: &str, data: &Vec<u8>) -> (r: Option<ethabi::Token>)
    requires
        vstd::string::is_ascii(types),
    ensures
        r is Some <==> (is_abi_type_string(types@) && abi_decodable(types@, data@)),
        r matches Some(t) ==> abi_token_matches(t, types@),
        forall|t: ethabi::Token|
            abi_token_matches(t, types@) && data@ == #[trigger] abi_enc_of(t) ==> r == Some(t),
{
    let ty = match ethabi::param_type::Reader::read(types) {
        Ok(t) => t,
        Err(_) => return None,
    };
    match ethabi::decode(&[ty], data.as_slice()) {
        Ok(mut v) => v.pop(),
        Err(_) => None,
    }
}

impl crate::host::HostExports {
    /// The local half of a contract call: charges the flat call cost and
    /// resolves the call against the data source's ABI set. The embedder
    /// dispatches the resolved call to the blockchain adapter, blocking,
    /// and hands what came back to [`classify_call_outcome`].
    pub fn ethereum_call_resolve(
        &self,
        block_ptr: &BlockPtr,
        call: UnresolvedContractCall,
        gas: &mut crate::gas::GasCounter,
    ) -> (r: Result<EthereumContractCall, EthereumCallError>)
        ensures
            final(gas).budget == old(gas).budget,
            final(gas).used == crate::gas::spec_sat_add(
                old(gas).used,
                crate::gas::ETHEREUM_CALL_COST,
            ),
            final(gas).used <= old(gas).budget ==> (r is Ok <==> resolve_spec(
                self.abis@,
                call.contract_name@,
                call.function_name@,
                opt_str_view(call.function_signature),
            ) is Some),
            final(gas).used > old(gas).budget ==> r is Err,
            (final(gas).used <= old(gas).budget && lookup_abi(self.abis@, call.contract_name@)
                is None) ==> (r matches Err(e) && e matches
                EthereumCallError::DeterministicHostError(d) && d.message@ == no_abi_message(
                call.contract_name@,
            )),
            (final(gas).used <= old(gas).budget && lookup_abi(self.abis@, call.contract_name@)
                is Some && resolve_spec(
                self.abis@,
                call.contract_name@,
                call.function_name@,
                opt_str_view(call.function_signature),
            ) is None) ==> (r matches Err(e) && e matches
                EthereumCallError::DeterministicHostError(d) && d.message@ == no_function_message(
                call.contract_name@,
                call.function_name@,
            )),
            r matches Ok(c) ==> {
                &&& Some(c.function) == resolve_spec(
                    self.abis@,
                    call.contract_name@,
                    call.function_name@,
                    opt_str_view(call.function_signature),
                )
                &&& c.address.bytes@ == call.contract_address.bytes@
                &&& c.args == call.function_args
                &&& c.block_ptr.hash@ == block_ptr.hash@
                &&& c.block_ptr.number == block_ptr.number
            },
            r matches Err(e) ==> e is DeterministicHostError,
    {
        if let Err(e) = gas.consume_host_fn(crate::gas::ETHEREUM_CALL_COST) {
            return Err(EthereumCallError::DeterministicHostError(e));
        }
        resolve_contract_call(&self.abis, block_ptr, call)
    }

    /// ABI-encodes one typed value; gas is charged right after the
    /// cheaply measured result, linear in its size.
    pub fn ethereum_encode(&self, token: &ethabi::Token, gas: &mut crate::gas::GasCounter) -> (r:
        Result<Vec<u8>, DeterministicHostError>)
        ensures
            final(gas).budget == old(gas).budget,
            final(gas).used >= old(gas).used,
            r matches Ok(v) ==> {
                &&& v@ == abi_enc_of(*token)
                &&& v@.len() % 32 == 0
                &&& final(gas).used == crate::gas::spec_sat_add(
                    old(gas).used,
                    crate::gas::spec_gas_linear(crate::gas::cap64(v@.len() as int)),
                )
                &&& final(gas).used <= old(gas).budget
            },
            r is Err ==> final(gas).used > old(gas).budget,
    {
        let encoded = abi_encode_one(token);
        gas.consume_host_fn(crate::gas::gas_linear(encoded.len() as u64))?;
        Ok(encoded)
    }

    /// ABI-decodes one value of the given parameter-type string: a
    /// non-ASCII or unreadable type string, and bytes that do not decode
    /// under it, are deterministic errors naming the type string; on the
    /// encoding of a value of the read type, decoding returns that value.
    pub fn ethereum_decode(&self, types: String, data: Vec<u8>, gas: &mut crate::gas::GasCounter)
        -> (r: Result<ethabi::Token, DeterministicHostError>)
        ensures
            final(gas).budget == old(gas).budget,
            final(gas).used == crate::gas::spec_sat_add(
                old(gas).used,
                crate::gas::spec_gas_linear(crate::gas::cap64(data@.len() as int)),
            ),
            (final(gas).used <= old(gas).budget && vstd::utf8::is_ascii_chars(types@)) ==> (r is Ok
                <==> (is_abi_type_string(types@) && abi_decodable(types@, data@))),
            r matches Ok(t) ==> (final(gas).used <= old(gas).budget && abi_token_matches(
                t,
                types@,
            )),
            forall|t: ethabi::Token|
                (final(gas).used <= old(gas).budget && vstd::utf8::is_ascii_chars(types@)
                    && abi_token_matches(t, types@) && data@ == #[trigger] abi_enc_of(t)) ==> r
                    == Ok::<ethabi::Token, DeterministicHostError>(t),
            (final(gas).used <= old(gas).budget && !vstd::utf8::is_ascii_chars(types@)) ==> (
            r matches Err(e) && e.message@ == "ABI types string holds non-ASCII characters: '"@
                + types@ + "'"@),
            (final(gas).used <= old(gas).budget && vstd::utf8::is_ascii_chars(types@) && !(
            is_abi_type_string(types@) && abi_decodable(types@, data@))) ==> (r matches Err(e)
                && e.message@ == "failed to decode against ABI type '"@ + types@ + "'"@),
    {
        gas.consume_host_fn(crate::gas::gas_linear(data.len() as u64))?;
        if !types.as_str().is_ascii() {
            return Err(
                DeterministicHostError::with_input(
                    "ABI types string holds non-ASCII characters: '",
                    types.as_str(),
                    "'",
                ),
            );
        }
        match abi_decode_for(types.as_str(), &data) {
            Some(t) => Ok(t),
            None => Err(
                DeterministicHostError::with_input(
                    "failed to decode against ABI type '",
                    types.as_str(),
                    "'",
                ),
            ),
        }
    }
}

} // verus!
