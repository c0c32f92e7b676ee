use host_bridge::errors::{DeterminismLevel, EthereumCallError, HostExportError};
use host_bridge::eth::{
    classify_call_outcome, AbiFunction, BlockPtr, ContractCallOutcome, MappingABI,
    UnresolvedContractCall,
};
use host_bridge::codec::string_to_h160;
use host_bridge::gas::{GasCounter, MAX_GAS_PER_HANDLER};
use host_bridge::host::{ApiVersion, HostExports, LogLevel};
use host_bridge::ipfs::{ipfs_map, CallbackOutcome};
use host_bridge::state::{BlockState, DataSourceTemplate, ProofOfIndexing, ProofOfIndexingEvent};
use host_bridge::value::{Entity, EntityTypeDef, Schema, Value};

fn schema_with_user() -> Schema {
    Schema {
        types: vec![EntityTypeDef {
            name: "User".to_string(),
            fields: vec!["id".to_string(), "name".to_string(), "email".to_string()],
            required: vec!["id".to_string(), "name".to_string()],
        }],
    }
}

fn host_with_schema() -> HostExports {
    HostExports::new(
        "subgraph".to_string(),
        ApiVersion { major: 0, minor: 0, patch: 5 },
        "source".to_string(),
        None,
        "mainnet".to_string(),
        None,
        vec![DataSourceTemplate { name: "Pair".to_string() }],
        vec![MappingABI {
            name: "ERC20".to_string(),
            functions: vec![
                AbiFunction {
                    name: "decimals".to_string(),
                    signature: "decimals():(uint8)".to_string(),
                },
                AbiFunction {
                    name: "transfer".to_string(),
                    signature: "transfer(address,uint256):(bool)".to_string(),
                },
            ],
        }],
        schema_with_user(),
    )
}

fn gas() -> GasCounter {
    GasCounter::new(MAX_GAS_PER_HANDLER)
}

fn user_entity(name: &str) -> Entity {
    let mut e = Entity::new();
    e.insert("name".to_string(), Value::Str(name.to_string()));
    e
}

fn entity_field_str(e: &Entity, field: &str) -> Option<String> {
    match e.get(&field.to_string()) {
        Some(Value::Str(s)) => Some(s.clone()),
        _ => None,
    }
}

#[test]
fn store_set_then_get_returns_entity_with_id() {
    let host = host_with_schema();
    let mut state = BlockState::new(Vec::new());
    let mut poi = Some(ProofOfIndexing::new());
    let mut g = gas();
    host.store_set(
        &mut state,
        &mut poi,
        "User".to_string(),
        "u1".to_string(),
        user_entity("Ada"),
        &mut g,
    )
    .unwrap();
    let got = host
        .store_get(&state, "User".to_string(), "u1".to_string(), &mut g)
        .unwrap()
        .unwrap();
    assert_eq!(entity_field_str(&got, "id").unwrap(), "u1");
    assert_eq!(entity_field_str(&got, "name").unwrap(), "Ada");
    let poi = poi.unwrap();
    assert_eq!(poi.events.len(), 1);
    assert_eq!(poi.events[0].0, "ethereum/mainnet");
    match &poi.events[0].1 {
        ProofOfIndexingEvent::SetEntity { entity_type, id, .. } => {
            assert_eq!(entity_type, "User");
            assert_eq!(id, "u1");
        }
        _ => panic!("expected a set-entity event"),
    }
}

#[test]
fn store_set_rejects_conflicting_id() {
    let host = host_with_schema();
    let mut state = BlockState::new(Vec::new());
    let mut poi = None;
    let mut g = gas();
    let mut data = user_entity("Ada");
    data.insert("id".to_string(), Value::Str("X".to_string()));
    let r = host.store_set(
        &mut state,
        &mut poi,
        "User".to_string(),
        "Y".to_string(),
        data,
        &mut g,
    );
    assert!(r.is_err());
    match r.unwrap_err() {
        HostExportError::Deterministic(m) => assert_eq!(
            m,
            "value of User attribute 'id' conflicts with the id passed to store_set: X != Y"
        ),
        _ => panic!("a conflicting id must fail deterministically"),
    }
    // No cache mutation took place.
    let got = host
        .store_get(&state, "User".to_string(), "Y".to_string(), &mut g)
        .unwrap();
    assert!(got.is_none());
}

#[test]
fn store_set_merges_partial_updates_for_validation() {
    let host = host_with_schema();
    let mut state = BlockState::new(Vec::new());
    let mut poi = None;
    let mut g = gas();
    // First write carries the required `name`.
    host.store_set(
        &mut state,
        &mut poi,
        "User".to_string(),
        "u1".to_string(),
        user_entity("Ada"),
        &mut g,
    )
    .unwrap();
    // A partial update without `name` fails the optimistic check but
    // passes against the merged entity the cache now holds.
    let mut patch = Entity::new();
    patch.insert("email".to_string(), Value::Str("ada@host".to_string()));
    host.store_set(
        &mut state,
        &mut poi,
        "User".to_string(),
        "u1".to_string(),
        patch,
        &mut g,
    )
    .unwrap();
    let got = host
        .store_get(&state, "User".to_string(), "u1".to_string(), &mut g)
        .unwrap()
        .unwrap();
    assert_eq!(entity_field_str(&got, "name").unwrap(), "Ada");
    assert_eq!(entity_field_str(&got, "email").unwrap(), "ada@host");
}

#[test]
fn store_set_rejects_undeclared_fields() {
    let host = host_with_schema();
    let mut state = BlockState::new(Vec::new());
    let mut poi = None;
    let mut g = gas();
    let mut data = user_entity("Ada");
    data.insert("age".to_string(), Value::Int(36));
    let r = host.store_set(
        &mut state,
        &mut poi,
        "User".to_string(),
        "u1".to_string(),
        data,
        &mut g,
    );
    assert!(r.is_err());
}

#[test]
fn store_remove_tombstones_the_key() {
    let host = host_with_schema();
    let mut state = BlockState::new(Vec::new());
    let mut poi = None;
    let mut g = gas();
    host.store_set(
        &mut state,
        &mut poi,
        "User".to_string(),
        "u1".to_string(),
        user_entity("Ada"),
        &mut g,
    )
    .unwrap();
    host.store_remove(
        &mut state,
        &mut poi,
        "User".to_string(),
        "u1".to_string(),
        &mut g,
    )
    .unwrap();
    let got = host
        .store_get(&state, "User".to_string(), "u1".to_string(), &mut g)
        .unwrap();
    assert!(got.is_none());
}

#[test]
fn gas_budget_aborts_before_cache_mutation() {
    let host = host_with_schema();
    let mut state = BlockState::new(Vec::new());
    let mut poi = None;
    let mut tiny = GasCounter::new(10);
    let r = host.store_set(
        &mut state,
        &mut poi,
        "User".to_string(),
        "u1".to_string(),
        user_entity("Ada"),
        &mut tiny,
    );
    assert!(r.is_err());
    assert_eq!(
        r.unwrap_err().determinism_level(),
        DeterminismLevel::Deterministic
    );
    let mut g = gas();
    let got = host
        .store_get(&state, "User".to_string(), "u1".to_string(), &mut g)
        .unwrap();
    assert!(got.is_none());
}

#[test]
fn gas_counter_is_monotonic_and_bounded() {
    let mut g = GasCounter::new(250_000);
    assert!(g.consume_host_fn(100_000).is_ok());
    assert!(g.consume_host_fn(100_000).is_ok());
    let before = g.used;
    assert!(g.consume_host_fn(100_000).is_err());
    assert!(g.used > before);
    // Once over budget, every further charge keeps failing.
    assert!(g.consume_host_fn(1).is_err());
}

#[test]
fn log_critical_aborts_deterministically() {
    let host = host_with_schema();
    let mut g = gas();
    assert!(host.log_log(LogLevel::Info, "fine".to_string(), &mut g).is_ok());
    assert!(host
        .log_log(LogLevel::Critical, "fatal".to_string(), &mut g)
        .is_err());
}

#[test]
fn data_source_create_resolves_templates() {
    let host = host_with_schema();
    let mut state = BlockState::new(Vec::new());
    let mut g = gas();
    host.data_source_create(
        &mut state,
        "Pair".to_string(),
        vec!["0xabc".to_string()],
        None,
        7,
        &mut g,
    )
    .unwrap();
    assert_eq!(state.created_data_sources.len(), 1);
    assert_eq!(state.created_data_sources[0].template.name, "Pair");
    assert_eq!(state.created_data_sources[0].params, vec!["0xabc".to_string()]);
    assert_eq!(state.created_data_sources[0].creation_block, 7);

    let r = host.data_source_create(
        &mut state,
        "Missing".to_string(),
        Vec::new(),
        None,
        7,
        &mut g,
    );
    match r {
        Err(HostExportError::Deterministic(m)) => assert_eq!(
            m,
            "failed to create data source from name `Missing`: no template with this name \
             in parent data source `source`. Available names: Pair."
        ),
        _ => panic!("a missing template must fail deterministically"),
    }
    assert_eq!(state.created_data_sources.len(), 1);
}

#[test]
fn context_accessors_return_the_configured_values() {
    let host = host_with_schema();
    let mut g = gas();
    assert_eq!(host.data_source_network(&mut g).unwrap(), "mainnet");
    let addr = host.data_source_address(&mut g).unwrap();
    assert_eq!(addr.bytes, vec![0u8; 20]);
    let ctx = host.data_source_context(&mut g).unwrap();
    assert_eq!(ctx.fields.len(), 0);
}

#[test]
fn ethereum_call_classification_is_three_way() {
    let host = host_with_schema();
    let block_ptr = BlockPtr { hash: vec![1, 2], number: 42 };
    let addr = string_to_h160("0xA16081F360e3847006dB660bae1c6d1b2e17eC2A").unwrap();
    let mut g = gas();
    let call = UnresolvedContractCall {
        contract_name: "ERC20".to_string(),
        contract_address: addr,
        function_name: "decimals".to_string(),
        function_signature: None,
        function_args: Vec::new(),
    };
    let resolved = host.ethereum_call_resolve(&block_ptr, call, &mut g).unwrap();
    assert_eq!(resolved.function.name, "decimals");
    assert_eq!(resolved.block_ptr.number, 42);

    // Unresolvable contract: a deterministic error.
    let bad = UnresolvedContractCall {
        contract_name: "Unknown".to_string(),
        contract_address: string_to_h160("0xA16081F360e3847006dB660bae1c6d1b2e17eC2A").unwrap(),
        function_name: "decimals".to_string(),
        function_signature: None,
        function_args: Vec::new(),
    };
    match host.ethereum_call_resolve(&block_ptr, bad, &mut g) {
        Err(EthereumCallError::DeterministicHostError(d)) => assert_eq!(
            d.message,
            "could not find ABI for contract 'Unknown', try adding it to the 'abis' \
             section of the subgraph manifest"
        ),
        _ => panic!("expected a deterministic resolution failure"),
    }

    // A revert is success-with-absence.
    let f = "decimals".to_string();
    let c = "ERC20".to_string();
    match classify_call_outcome(ContractCallOutcome::Revert("nope".to_string()), &f, &c) {
        Ok(None) => {}
        _ => panic!("a revert must classify as Ok(None)"),
    }
    // Transport errors and timeouts signal a possible reorg.
    match classify_call_outcome(ContractCallOutcome::TransportError("down".to_string()), &f, &c) {
        Err(EthereumCallError::PossibleReorg(m)) => assert_eq!(
            m,
            "Ethereum node returned an error when calling function 'decimals' of contract 'ERC20': down"
        ),
        _ => panic!("a transport error must classify as a possible reorg"),
    }
    match classify_call_outcome(ContractCallOutcome::Timeout, &f, &c) {
        Err(EthereumCallError::PossibleReorg(m)) => assert_eq!(
            m,
            "Ethereum node did not respond when calling function 'decimals' of contract 'ERC20'"
        ),
        _ => panic!("a timeout must classify as a possible reorg"),
    }
    // Anything else stays unknown.
    match classify_call_outcome(ContractCallOutcome::Other("odd".to_string()), &f, &c) {
        Err(EthereumCallError::Unknown(m)) => assert_eq!(
            m,
            "failed to call function 'decimals' of contract 'ERC20': odd"
        ),
        _ => panic!("other adapter failures must classify as unknown"),
    }
    // Success hands the tokens through.
    match classify_call_outcome(ContractCallOutcome::Success(vec![ethabi::Token::Bool(true)]), &f, &c) {
        Ok(Some(tokens)) => assert_eq!(tokens, vec![ethabi::Token::Bool(true)]),
        _ => panic!("success must hand the tokens through"),
    }
}

#[test]
fn ethereum_call_resolves_by_exact_signature() {
    let host = host_with_schema();
    let block_ptr = BlockPtr { hash: Vec::new(), number: 1 };
    let mut g = gas();
    let call = UnresolvedContractCall {
        contract_name: "ERC20".to_string(),
        contract_address: string_to_h160("0xA16081F360e3847006dB660bae1c6d1b2e17eC2A").unwrap(),
        function_name: "transfer".to_string(),
        function_signature: Some("transfer(address,uint256):(bool)".to_string()),
        function_args: Vec::new(),
    };
    let resolved = host.ethereum_call_resolve(&block_ptr, call, &mut g).unwrap();
    assert_eq!(resolved.function.signature, "transfer(address,uint256):(bool)");

    let wrong_sig = UnresolvedContractCall {
        contract_name: "ERC20".to_string(),
        contract_address: string_to_h160("0xA16081F360e3847006dB660bae1c6d1b2e17eC2A").unwrap(),
        function_name: "transfer".to_string(),
        function_signature: Some("transfer(uint256):(bool)".to_string()),
        function_args: Vec::new(),
    };
    assert!(host.ethereum_call_resolve(&block_ptr, wrong_sig, &mut g).is_err());
}

#[test]
fn ethereum_encode_decode_round_trip() {
    let host = host_with_schema();
    let mut g = gas();
    let token = ethabi::Token::Uint(ethabi::Uint::from(123456u64));
    let bytes = host.ethereum_encode(&token, &mut g).unwrap();
    assert_eq!(bytes.len(), 32);
    let back = host
        .ethereum_decode("uint256".to_string(), bytes, &mut g)
        .unwrap();
    assert_eq!(back, token);
    assert_eq!(
        host.ethereum_decode("uintx".to_string(), vec![0u8; 32], &mut g)
            .unwrap_err()
            .message,
        "failed to decode against ABI type 'uintx'"
    );
    // A non-ASCII type string is rejected deterministically, never
    // handed to the reader (whose slicing would panic on it).
    assert_eq!(
        host.ethereum_decode("uint\u{e9}".to_string(), vec![0u8; 32], &mut g)
            .unwrap_err()
            .message,
        "ABI types string holds non-ASCII characters: 'uint\u{e9}'"
    );
}

#[test]
fn streaming_map_produces_one_state_per_record_in_order() {
    let flags = vec!["json".to_string()];
    let outcomes = vec![
        CallbackOutcome::State(BlockState::new(Vec::new())),
        CallbackOutcome::State(BlockState::new(Vec::new())),
        CallbackOutcome::State(BlockState::new(Vec::new())),
    ];
    let states = ipfs_map(
        &"QmHash".to_string(),
        &"handleRecord".to_string(),
        &flags,
        outcomes,
    )
    .unwrap();
    assert_eq!(states.len(), 3);
}

#[test]
fn streaming_map_requires_the_json_flag() {
    let r = ipfs_map(
        &"QmHash".to_string(),
        &"handleRecord".to_string(),
        &Vec::new(),
        Vec::new(),
    );
    match r {
        Err(HostExportError::Deterministic(m)) => assert_eq!(m, "flags must contain 'json'"),
        _ => panic!("a missing json flag must fail deterministically"),
    }
}

#[test]
fn streaming_map_aborts_on_a_record_failure() {
    let flags = vec!["json".to_string()];
    let outcomes = vec![
        CallbackOutcome::State(BlockState::new(Vec::new())),
        CallbackOutcome::Failure("boom".to_string()),
    ];
    let r = ipfs_map(&"QmHash".to_string(), &"cb".to_string(), &flags, outcomes);
    match r {
        Err(HostExportError::Unknown(m)) => {
            assert_eq!(m, "ipfs_map: callback 'cb' failed when processing file 'QmHash': boom")
        }
        _ => panic!("a record failure must abort the whole operation"),
    }
}
