//! The host operations a sandboxed mapping module may call.
//!
//! One [`HostExports`] value stands for one data source's view of the
//! bridge: its subgraph, ABI set, templates, schema and context. Every
//! operation charges its declared gas before its effect; failures carry
//! the determinism classification of the taxonomy.

use vstd::prelude::*;
use vstd::string::{StringExecFns, StrSliceExecFns};
use crate::bigint::{bi_from_u64, bi_to_dec_string, dec_digits, dec_string_of};
use crate::codec::H160;
use crate::errors::{DeterministicHostError, HostExportError};
use crate::eth::MappingABI;
use crate::gas::{
    GasCounter, gas_linear, sat_add, spec_gas_linear, spec_sat_add, cap64, CREATE_DATA_SOURCE_COST,
    DEFAULT_BASE_COST, LOG_COST,
};
use crate::state::{
    BlockState, DataSourceTemplate, DataSourceTemplateInfo, PoiEventView, ProofOfIndexing,
    ProofOfIndexingEvent, poi_event_view,
};
use crate::value::{
    Entity, EntityKey, Schema, Value, ValueView, schema_allows, validate_entity,
};

verus! {

broadcast use vstd::std_specs::vec::group_vec_axioms, vstd::seq::group_seq_axioms;

/// The mapping API version the data source was authored against.
pub struct ApiVersion {
    pub major: u64,
    pub minor: u64,
    pub patch: u64,
}

/// A structured log severity; the highest one aborts the invocation.
#[derive(PartialEq, Eq, Structural, Clone, Copy, Debug)]
pub enum LogLevel {
    Critical,
    Error,
    Warning,
    Info,
    Debug,
}

/// First template carrying the name, if any.
pub open spec fn lookup_template(ts: Seq<DataSourceTemplate>, name: Seq<char>) -> Option<
    DataSourceTemplate,
>
    decreases ts,
{
    if ts.len() == 0 {
        None
    } else if ts.first().name@ == name {
        Some(ts.first())
    } else {
        lookup_template(ts.drop_first(), name)
    }
}

/// Whether the field map carries an `id` value conflicting with the id
/// the call names.
pub open spec fn id_conflict(data: Entity, entity_id: Seq<char>) -> bool {
    data.as_map().contains_key("id"@) && data.as_map()["id"@] != ValueView::Str(entity_id)
}

/// The gas declared by the store-set operation: linear in the sizes of
/// the key and of the field map.
pub open spec fn store_set_cost(key_size: nat, data_size: nat) -> u64 {
    spec_gas_linear(spec_sat_add(cap64(key_size as int), cap64(data_size as int)))
}

/// The location rendering of an explicit abort.
pub open spec fn abort_location(
    file_name: Option<Seq<char>>,
    line_number: Option<u32>,
    column_number: Option<u32>,
) -> Seq<char> {
    match (file_name, line_number, column_number) {
        (Some(f), Some(l), Some(c)) => f + ", line "@ + dec_digits(l as nat) + ", column "@
            + dec_digits(c as nat),
        (Some(f), Some(l), None) => f + ", line "@ + dec_digits(l as nat),
        (Some(f), None, _) => f,
        (None, _, _) => "an unknown location"@,
    }
}

/// The full message of an explicit abort.
pub open spec fn abort_message(
    message: Option<Seq<char>>,
    file_name: Option<Seq<char>>,
    line_number: Option<u32>,
    column_number: Option<u32>,
) -> Seq<char> {
    "Mapping aborted at "@ + abort_location(file_name, line_number, column_number) + ", with "@
        + (match message {
        Some(m) => "message: "@ + m,
        None => "no message"@,
    })
}

/// The message of a rejected conflicting `id` field.
pub open spec fn id_conflict_message(entity_type: Seq<char>, v: ValueView, entity_id: Seq<char>) -> Seq<char> {
    "value of "@ + entity_type + " attribute 'id' conflicts with the id passed to store_set: "@
        + crate::value::value_text(v) + " != "@ + entity_id
}

/// The comma-joined template names of the parent data source.
pub open spec fn template_names_text(ts: Seq<DataSourceTemplate>) -> Seq<char>
    decreases ts,
{
    if ts.len() == 0 {
        Seq::empty()
    } else if ts.len() == 1 {
        ts.first().name@
    } else {
        template_names_text(ts.drop_last()) + ", "@ + ts.last().name@
    }
}

/// The fixed part of the template-not-found message.
pub open spec fn template_list_prefix(name: Seq<char>, ds_name: Seq<char>) -> Seq<char> {
    "failed to create data source from name `"@ + name
        + "`: no template with this name in parent data source `"@ + ds_name
        + "`. Available names: "@
}

/// The full template-not-found message, listing every available name.
pub open spec fn no_template_message(
    name: Seq<char>,
    ds_name: Seq<char>,
    ts: Seq<DataSourceTemplate>,
) -> Seq<char> {
    template_list_prefix(name, ds_name) + template_names_text(ts) + "."@
}

/// The view of an optional string argument.
pub open spec fn opt_string_view(o: Option<String>) -> Option<Seq<char>> {
    match o {
        Some(s) => Some(s@),
        None => None,
    }
}

/// One data source's gateway to every host operation.
pub struct HostExports {
    /// The subgraph deployment identifier.
    pub subgraph_id: String,
    /// The mapping API version of the data source.
    pub api_version: ApiVersion,
    /// The data source's name, used to tag its log output.
    pub data_source_name: String,
    /// The contract address the data source watches, if any.
    pub data_source_address: Option<H160>,
    /// The network identifier the data source indexes.
    pub data_source_network: String,
    /// The free-form context record of the data source, if any.
    pub data_source_context: Option<Entity>,
    /// The causality region of the proof of indexing, derived from the
    /// network so that distinct sources of ordering never merge.
    pub causality_region: String,
    /// The templates new data sources may be instantiated from.
    pub templates: Vec<DataSourceTemplate>,
    /// The ABI documents attached to the data source.
    pub abis: Vec<MappingABI>,
    /// The schema entities are validated against.
    pub schema: Schema,
}

impl HostExports {
    /// Every entity held is well formed.
    pub open spec fn wf(self) -> bool {
        (self.data_source_address matches Some(a) ==> a.wf()) && (
        self.data_source_context matches Some(c) ==> c.wf())
    }

    /// Builds the bridge for one data source; the causality region is
    /// derived from the network identifier.
    pub fn new(
        subgraph_id: String,
        api_version: ApiVersion,
        data_source_name: String,
        data_source_address: Option<H160>,
        data_source_network: String,
        data_source_context: Option<Entity>,
        templates: Vec<DataSourceTemplate>,
        abis: Vec<MappingABI>,
        schema: Schema,
    ) -> (r: HostExports)
        requires
            data_source_address matches Some(a) ==> a.wf(),
            data_source_context matches Some(c) ==> c.wf(),
        ensures
            r.wf(),
            r.subgraph_id@ == subgraph_id@,
            r.api_version == api_version,
            r.data_source_name@ == data_source_name@,
            r.data_source_address == data_source_address,
            r.data_source_network@ == data_source_network@,
            r.data_source_context == data_source_context,
            r.causality_region@ == "ethereum/"@ + data_source_network@,
            r.templates == templates,
            r.abis == abis,
            r.schema == schema,
    {
        let causality_region = String::from_str("ethereum/").concat(data_source_network.as_str());
        HostExports {
            subgraph_id,
            api_version,
            data_source_name,
            data_source_address,
            data_source_network,
            data_source_context,
            causality_region,
            templates,
            abis,
            schema,
        }
    }

    /// Explicit deterministic abort of the invocation, formatting the
    /// optional message and source location into one error.
    pub fn abort(
        &self,
        message: Option<String>,
        file_name: Option<String>,
        line_number: Option<u32>,
        column_number: Option<u32>,
        gas: &mut GasCounter,
    ) -> (r: Result<(), DeterministicHostError>)
        requires
            line_number is Some ==> file_name is Some,
            column_number is Some ==> line_number is Some,
        ensures
            r is Err,
            final(gas).budget == old(gas).budget,
            final(gas).used == spec_sat_add(old(gas).used, DEFAULT_BASE_COST),
            spec_sat_add(old(gas).used, DEFAULT_BASE_COST) <= old(gas).budget ==> (r matches Err(e)
                && e.message@ == abort_message(
                opt_string_view(message),
                opt_string_view(file_name),
                line_number,
                column_number,
            )),
    {
        if let Err(e) = gas.consume_host_fn(DEFAULT_BASE_COST) {
            return Err(e);
        }
        let mut msg = String::from_str("Mapping aborted at ");
        match (&file_name, &line_number, &column_number) {
            (Some(f), Some(l), Some(c)) => {
                msg.append(f.as_str());
                msg.append(", line ");
                let ln = bi_to_dec_string(&bi_from_u64(*l as u64));
                proof {
                    assert(dec_string_of(*l as int) == dec_digits(*l as nat));
                }
                msg.append(ln.as_str());
                msg.append(", column ");
                let cn = bi_to_dec_string(&bi_from_u64(*c as u64));
                proof {
                    assert(dec_string_of(*c as int) == dec_digits(*c as nat));
                }
                msg.append(cn.as_str());
            },
            (Some(f), Some(l), None) => {
                msg.append(f.as_str());
                msg.append(", line ");
                let ln = bi_to_dec_string(&bi_from_u64(*l as u64));
                proof {
                    assert(dec_string_of(*l as int) == dec_digits(*l as nat));
                }
                msg.append(ln.as_str());
            },
            (Some(f), None, _) => {
                msg.append(f.as_str());
            },
            (None, _, _) => {
                msg.append("an unknown location");
            },
        }
        msg.append(", with ");
        match &message {
            Some(m) => {
                msg.append("message: ");
                msg.append(m.as_str());
            },
            None => {
                msg.append("no message");
            },
        }
        Err(DeterministicHostError { message: msg })
    }

    /// Writes an entity: logs the proof-of-indexing event, injects the
    /// `id` field (rejecting a conflicting caller-supplied value),
    /// charges gas, buffers the write, and validates — optimistically
    /// against the fields just written, and only if that fails against
    /// the merged entity the cache now holds. A write that still fails
    /// the merged validation surfaces the error, but its cache effect is
    /// not rolled back: the host discards the block state on abort.
    pub fn store_set(
        &self,
        state: &mut BlockState,
        proof_of_indexing: &mut Option<ProofOfIndexing>,
        entity_type: String,
        entity_id: String,
        data: Entity,
        gas: &mut GasCounter,
    ) -> (r: Result<(), HostExportError>)
        requires
            self.wf(),
            old(state).wf(),
            data.wf(),
        ensures
            final(state).wf(),
            final(state).entity_cache.base@ == old(state).entity_cache.base@,
            final(state).created_data_sources@ == old(state).created_data_sources@,
            final(gas).budget == old(gas).budget,
            (*old(proof_of_indexing)) is None ==> (*final(proof_of_indexing)) is None,
            (*old(proof_of_indexing)) matches Some(p) ==> ((*final(proof_of_indexing)) matches Some(q)
                && q.events@.len() == p.events@.len() + 1 && (forall|j: int|
                0 <= j < p.events@.len() ==> q.events@[j] == p.events@[j])
                && q.events@.last().0@ == self.causality_region@ && poi_event_view(
                q.events@.last().1,
            ) == PoiEventView::SetEntity(entity_type@, entity_id@, data.as_map())),
            id_conflict(data, entity_id@) ==> (r matches Err(he) && he matches HostExportError::Deterministic(m)
                && m@ == id_conflict_message(entity_type@, data.as_map()["id"@], entity_id@)
                && *final(state) == *old(state) && *final(gas) == *old(gas)),
            !id_conflict(data, entity_id@) ==> final(gas).used == spec_sat_add(
                old(gas).used,
                store_set_cost(
                    subgraph_id_size(*self) + entity_type@.len() + entity_id@.len(),
                    data.size(),
                ),
            ),
            !id_conflict(data, entity_id@) && spec_sat_add(
                old(gas).used,
                store_set_cost(
                    subgraph_id_size(*self) + entity_type@.len() + entity_id@.len(),
                    data.size(),
                ),
            ) > old(gas).budget ==> (r is Err && *final(state) == *old(state)),
            !id_conflict(data, entity_id@) && spec_sat_add(
                old(gas).used,
                store_set_cost(
                    subgraph_id_size(*self) + entity_type@.len() + entity_id@.len(),
                    data.size(),
                ),
            ) <= old(gas).budget ==> {
                let keyv = (self.subgraph_id@, entity_type@, entity_id@);
                let with_id = data.as_map().insert("id"@, ValueView::Str(entity_id@));
                let stored = match old(state).entity_cache.lookup(keyv) {
                    None => with_id,
                    Some(m) => m.union_prefer_right(with_id),
                };
                &&& final(state).entity_cache.lookup(keyv) == Some(stored)
                &&& (forall|k: (Seq<char>, Seq<char>, Seq<char>)|
                    k != keyv ==> #[trigger] final(state).entity_cache.lookup(k) == old(
                        state,
                    ).entity_cache.lookup(k))
                &&& (r is Ok <==> (schema_allows(self.schema, entity_type@, with_id)
                    || schema_allows(self.schema, entity_type@, stored)))
            },
            r matches Err(e) ==> e is Deterministic,
    {
        match proof_of_indexing {
            Some(p) => {
                p.write(
                    &self.causality_region,
                    ProofOfIndexingEvent::SetEntity {
                        entity_type: entity_type.clone(),
                        id: entity_id.clone(),
                        data: data.duplicate(),
                    },
                );
            },
            None => {},
        }
        let id_name = String::from_str("id");
        match data.get(&id_name) {
            None => {},
            Some(v) => {
                let matches_id: bool = match v {
                    Value::Str(s) => s.eq(&entity_id),
                    _ => false,
                };
                if !matches_id {
                    let vtext = v.to_text();
                    let mut m = String::from_str("value of ");
                    m.append(entity_type.as_str());
                    m.append(" attribute 'id' conflicts with the id passed to store_set: ");
                    m.append(vtext.as_str());
                    m.append(" != ");
                    m.append(entity_id.as_str());
                    return Err(HostExportError::Deterministic(m));
                }
            },
        }
        let key = EntityKey {
            subgraph_id: self.subgraph_id.clone(),
            entity_type: entity_type.clone(),
            entity_id: entity_id.clone(),
        };
        let cost = gas_linear(sat_add(key.gas_size(), data.gas_size()));
        if let Err(e) = gas.consume_host_fn(cost) {
            return Err(HostExportError::from_deterministic(e));
        }
        let mut entity = data;
        entity.insert(id_name, Value::Str(entity_id.clone()));
        let is_valid = validate_entity(&self.schema, &key, &entity);
        state.entity_cache.set(key.duplicate(), entity);
        if !is_valid {
            let merged = match state.entity_cache.get(&key) {
                Some(e) => e,
                None => {
                    proof {
                        assert(false);
                    }
                    return Err(HostExportError::Deterministic(String::new()));
                },
            };
            if !validate_entity(&self.schema, &key, &merged) {
                return Err(
                    HostExportError::Deterministic(
                        String::from_str("entity failed validation against the subgraph schema"),
                    ),
                );
            }
        }
        Ok(())
    }

    /// Removes an entity: logs the proof-of-indexing event, charges gas,
    /// and tombstones the key in the cache.
    pub fn store_remove(
        &self,
        state: &mut BlockState,
        proof_of_indexing: &mut Option<ProofOfIndexing>,
        entity_type: String,
        entity_id: String,
        gas: &mut GasCounter,
    ) -> (r: Result<(), HostExportError>)
        requires
            self.wf(),
            old(state).wf(),
        ensures
            final(state).wf(),
            final(state).entity_cache.base@ == old(state).entity_cache.base@,
            final(state).created_data_sources@ == old(state).created_data_sources@,
            final(gas).budget == old(gas).budget,
            (*old(proof_of_indexing)) is None ==> (*final(proof_of_indexing)) is None,
            (*old(proof_of_indexing)) matches Some(p) ==> ((*final(proof_of_indexing)) matches Some(q)
                && q.events@.len() == p.events@.len() + 1 && (forall|j: int|
                0 <= j < p.events@.len() ==> q.events@[j] == p.events@[j])
                && q.events@.last().0@ == self.causality_region@ && poi_event_view(
                q.events@.last().1,
            ) == PoiEventView::RemoveEntity(entity_type@, entity_id@)),
            final(gas).used == spec_sat_add(
                old(gas).used,
                spec_gas_linear(
                    cap64(
                        subgraph_id_size(*self) + entity_type@.len() + entity_id@.len() as int,
                    ),
                ),
            ),
            r is Ok <==> final(gas).used <= old(gas).budget,
            r is Ok ==> {
                let keyv = (self.subgraph_id@, entity_type@, entity_id@);
                &&& final(state).entity_cache.lookup(keyv) is None
                &&& (forall|k: (Seq<char>, Seq<char>, Seq<char>)|
                    k != keyv ==> #[trigger] final(state).entity_cache.lookup(k) == old(
                        state,
                    ).entity_cache.lookup(k))
            },
            r is Err ==> *final(state) == *old(state),
            r matches Err(e) ==> e is Deterministic,
    {
        match proof_of_indexing {
            Some(p) => {
                p.write(
                    &self.causality_region,
                    ProofOfIndexingEvent::RemoveEntity {
                        entity_type: entity_type.clone(),
                        id: entity_id.clone(),
                    },
                );
            },
            None => {},
        }
        let key = EntityKey {
            subgraph_id: self.subgraph_id.clone(),
            entity_type,
            entity_id,
        };
        let cost = gas_linear(key.gas_size());
        if let Err(e) = gas.consume_host_fn(cost) {
            return Err(HostExportError::from_deterministic(e));
        }
        state.entity_cache.remove(key);
        Ok(())
    }

    /// Reads an entity: the cache's merged view — the pending write if
    /// one exists, layered over the committed store — or nothing. Gas is
    /// charged right after the read, by the size of the key and of what
    /// was fetched: a cheaply measured result.
    pub fn store_get(
        &self,
        state: &BlockState,
        entity_type: String,
        entity_id: String,
        gas: &mut GasCounter,
    ) -> (r: Result<Option<Entity>, HostExportError>)
        requires
            state.wf(),
        ensures
            final(gas).budget == old(gas).budget,
            final(gas).used >= old(gas).used,
            r is Ok <==> final(gas).used <= old(gas).budget,
            r matches Ok(o) ==> final(gas).used == spec_sat_add(
                old(gas).used,
                spec_gas_linear(
                    match o {
                        Some(e) => spec_sat_add(
                            cap64(
                                subgraph_id_size(*self) + entity_type@.len()
                                    + entity_id@.len() as int,
                            ),
                            cap64(e.size() as int),
                        ),
                        None => cap64(
                            subgraph_id_size(*self) + entity_type@.len() + entity_id@.len() as int,
                        ),
                    },
                ),
            ),
            r matches Ok(o) ==> crate::state::opt_entity_view(o) == state.entity_cache.lookup(
                (self.subgraph_id@, entity_type@, entity_id@),
            ),
            r matches Ok(o) ==> (o matches Some(e) ==> e.wf()),
            r is Err ==> final(gas).used > old(gas).budget,
            r matches Err(e) ==> e is Deterministic,
    {
        let key = EntityKey {
            subgraph_id: self.subgraph_id.clone(),
            entity_type,
            entity_id,
        };
        let result = state.entity_cache.get(&key);
        let cost = match &result {
            Some(e) => gas_linear(sat_add(key.gas_size(), e.gas_size())),
            None => gas_linear(key.gas_size()),
        };
        if let Err(e) = gas.consume_host_fn(cost) {
            return Err(HostExportError::from_deterministic(e));
        }
        Ok(result)
    }

    /// Requests a new data source: charges gas, resolves the template by
    /// name (a deterministic error if it is not declared) and appends the
    /// request to the block state; nothing is spawned synchronously.
    pub fn data_source_create(
        &self,
        state: &mut BlockState,
        name: String,
        params: Vec<String>,
        context: Option<Entity>,
        creation_block: i32,
        gas: &mut GasCounter,
    ) -> (r: Result<(), HostExportError>)
        ensures
            final(state).entity_cache == old(state).entity_cache,
            final(gas).budget == old(gas).budget,
            final(gas).used == spec_sat_add(old(gas).used, CREATE_DATA_SOURCE_COST),
            final(gas).used > old(gas).budget ==> (r is Err && *final(state) == *old(state)),
            final(gas).used <= old(gas).budget ==> match lookup_template(self.templates@, name@) {
                None => r matches Err(he) && he matches HostExportError::Deterministic(m) && m@
                    == no_template_message(name@, self.data_source_name@, self.templates@)
                    && *final(state) == *old(state),
                Some(t) => {
                    &&& r is Ok
                    &&& final(state).created_data_sources@.len() == old(
                        state,
                    ).created_data_sources@.len() + 1
                    &&& (forall|j: int|
                        0 <= j < old(state).created_data_sources@.len()
                            ==> final(state).created_data_sources@[j] == old(
                            state,
                        ).created_data_sources@[j])
                    &&& final(state).created_data_sources@.last().template.name@ == t.name@
                    &&& final(state).created_data_sources@.last().params == params
                    &&& final(state).created_data_sources@.last().context == context
                    &&& final(state).created_data_sources@.last().creation_block == creation_block
                },
            },
            r matches Err(e) ==> e is Deterministic,
    {
        if let Err(e) = gas.consume_host_fn(CREATE_DATA_SOURCE_COST) {
            return Err(HostExportError::from_deterministic(e));
        }
        let n = self.templates.len();
        let mut i: usize = 0;
        proof {
            assert(self.templates@.skip(0) =~= self.templates@);
        }
        while i < n
            invariant
                i <= n,
                n == self.templates@.len(),
                *state == *old(state),
                gas.budget == old(gas).budget,
                gas.used == spec_sat_add(old(gas).used, CREATE_DATA_SOURCE_COST),
                gas.used <= gas.budget,
                lookup_template(self.templates@, name@) == lookup_template(
                    self.templates@.skip(i as int),
                    name@,
                ),
            decreases n - i,
        {
            proof {
                assert(self.templates@.skip(i as int).first() == self.templates@[i as int]);
                assert(self.templates@.skip(i as int).drop_first() =~= self.templates@.skip(
                    i as int + 1,
                ));
            }
            if self.templates[i].name.eq(&name) {
                let info = DataSourceTemplateInfo {
                    template: DataSourceTemplate { name: self.templates[i].name.clone() },
                    params,
                    context,
                    creation_block,
                };
                state.push_created_data_source(info);
                return Ok(());
            }
            i = i + 1;
        }
        proof {
            assert(self.templates@.skip(n as int).len() == 0);
        }
        let mut msg = String::from_str("failed to create data source from name `");
        msg.append(name.as_str());
        msg.append("`: no template with this name in parent data source `");
        msg.append(self.data_source_name.as_str());
        msg.append("`. Available names: ");
        proof {
            assert(template_names_text(self.templates@.take(0)) =~= Seq::<char>::empty());
            assert(msg@ =~= template_list_prefix(name@, self.data_source_name@));
        }
        let mut k: usize = 0;
        while k < n
            invariant
                k <= n,
                n == self.templates@.len(),
                *state == *old(state),
                gas.budget == old(gas).budget,
                gas.used == spec_sat_add(old(gas).used, CREATE_DATA_SOURCE_COST),
                gas.used <= gas.budget,
                lookup_template(self.templates@, name@) is None,
                msg@ == template_list_prefix(name@, self.data_source_name@) + template_names_text(
                    self.templates@.take(k as int),
                ),
            decreases n - k,
        {
            proof {
                assert(self.templates@.take(k as int + 1).drop_last() =~= self.templates@.take(
                    k as int,
                ));
                assert(self.templates@.take(k as int + 1).last() == self.templates@[k as int]);
                if k == 0 {
                    assert(self.templates@.take(1).first() == self.templates@[0]);
                }
            }
            if k > 0 {
                msg.append(", ");
            }
            msg.append(self.templates[k].name.as_str());
            k = k + 1;
        }
        proof {
            assert(self.templates@.take(n as int) =~= self.templates@);
        }
        msg.append(".");
        Err(HostExportError::Deterministic(msg))
    }

    /// Emits one structured log line tagged with the data source's name;
    /// a critical-level log is itself a deterministic abort. The actual
    /// transport is the embedder's: the bridge only meters and decides.
    pub fn log_log(&self, level: LogLevel, msg: String, gas: &mut GasCounter) -> (r: Result<
        (),
        DeterministicHostError,
    >)
        ensures
            final(gas).budget == old(gas).budget,
            final(gas).used == spec_sat_add(old(gas).used, LOG_COST),
            r is Ok <==> (final(gas).used <= old(gas).budget && level != LogLevel::Critical),
            (final(gas).used <= old(gas).budget && level == LogLevel::Critical) ==> (r matches Err(
                e,
            ) && e.message@ == "Critical error logged in mapping"@),
    {
        if let Err(e) = gas.consume_host_fn(LOG_COST) {
            return Err(e);
        }
        if level == LogLevel::Critical {
            return Err(DeterministicHostError::new("Critical error logged in mapping"));
        }
        Ok(())
    }

    /// The address of the data source, or the zero address where it has
    /// none; constant gas.
    pub fn data_source_address(&self, gas: &mut GasCounter) -> (r: Result<
        H160,
        DeterministicHostError,
    >)
        requires
            self.wf(),
        ensures
            final(gas).budget == old(gas).budget,
            final(gas).used == spec_sat_add(old(gas).used, DEFAULT_BASE_COST),
            r is Ok <==> final(gas).used <= old(gas).budget,
            r matches Ok(h) ==> h.wf() && h.bytes@ == (match self.data_source_address {
                Some(a) => a.bytes@,
                None => Seq::new(20, |i: int| 0u8),
            }),
    {
        gas.consume_host_fn(DEFAULT_BASE_COST)?;
        match &self.data_source_address {
            Some(a) => Ok(a.duplicate()),
            None => {
                let z = H160::zero();
                proof {
                    assert(z.bytes@ =~= Seq::new(20, |i: int| 0u8));
                }
                Ok(z)
            },
        }
    }

    /// The network identifier of the data source; constant gas.
    pub fn data_source_network(&self, gas: &mut GasCounter) -> (r: Result<
        String,
        DeterministicHostError,
    >)
        ensures
            final(gas).budget == old(gas).budget,
            final(gas).used == spec_sat_add(old(gas).used, DEFAULT_BASE_COST),
            r is Ok <==> final(gas).used <= old(gas).budget,
            r matches Ok(s) ==> s@ == self.data_source_network@,
    {
        gas.consume_host_fn(DEFAULT_BASE_COST)?;
        Ok(self.data_source_network.clone())
    }

    /// The free-form context record of the data source, empty where it
    /// has none; constant gas.
    pub fn data_source_context(&self, gas: &mut GasCounter) -> (r: Result<
        Entity,
        DeterministicHostError,
    >)
        requires
            self.wf(),
        ensures
            final(gas).budget == old(gas).budget,
            final(gas).used == spec_sat_add(old(gas).used, DEFAULT_BASE_COST),
            r is Ok <==> final(gas).used <= old(gas).budget,
            r matches Ok(e) ==> e.wf() && e.as_map() == (match self.data_source_context {
                Some(c) => c.as_map(),
                None => Map::<Seq<char>, ValueView>::empty(),
            }),
    {
        gas.consume_host_fn(DEFAULT_BASE_COST)?;
        match &self.data_source_context {
            Some(c) => Ok(c.duplicate()),
            None => Ok(Entity::new()),
        }
    }
}

/// The size of the subgraph identifier, as the gas formulas measure it.
pub open spec fn subgraph_id_size(h: HostExports) -> nat {
    h.subgraph_id@.len()
}

/// After a successful store-set of a field map that carries no
/// conflicting `id`, the cache's merged view at the written key — what a
/// following store-get returns — holds an `id` field equal to the key's
/// entity id, whatever the store answered before.
pub proof fn lemma_store_set_then_get(
    prev: Option<Map<Seq<char>, ValueView>>,
    data: Map<Seq<char>, ValueView>,
    entity_id: Seq<char>,
)
    requires
        data.contains_key("id"@) ==> data["id"@] == ValueView::Str(entity_id),
    ensures
        ({
            let with_id = data.insert("id"@, ValueView::Str(entity_id));
            let stored = match prev {
                None => with_id,
                Some(m) => m.union_prefer_right(with_id),
            };
            stored.contains_key("id"@) && stored["id"@] == ValueView::Str(entity_id)
        }),
{
    let with_id = data.insert("id"@, ValueView::Str(entity_id));
    assert(with_id.contains_key("id"@));
    match prev {
        None => {},
        Some(m) => {
            assert(m.union_prefer_right(with_id)["id"@] == with_id["id"@]);
        },
    }
}

} // verus!
