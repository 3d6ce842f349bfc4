//! The endpoint builder and service assembler: resolves each operation's
//! body and parameters, classifies parameters by location, groups endpoints
//! by their first tag, and emits one service artifact per declared tag.

use vstd::prelude::*;

use crate::assemble::{group_by_namespace, group_nested};
use crate::casing::{kebab_case, kebab_of, pascal_case, pascal_of};
use crate::imports::{group_imports, group_imports_spec};
use crate::model::{
    Endpoint, EndpointV, Field, FieldV, GenError, GenErrorV, Import, ImportV, Model, ModelV,
    Resolved, ServiceFile, ServiceFileV, SkipNote, SkipNoteV,
};
use crate::resolve::{generate_model, qualified, resolve_node};
use crate::specs::{
    MediaTypeSpec, OperationSpec, ParamSpec, PathSpec, RefOr, RequestBodySpec, SchemaSpec, TagSpec,
};
use crate::strutil::{lookup_pair, lookup_pairs, str_eq};
use crate::views::{group_deep_view, seq_deep};

verus! {

broadcast use group_deep_view;

// ---------------------------------------------------------------------------
// Ghost model
// ---------------------------------------------------------------------------

/// Everything building one endpoint produces: the owning tag, the endpoint
/// itself, the descriptors and imports its parameters brought along, and the
/// skips that were logged while resolving.
#[verifier::ext_equal]
pub struct EndpointBuildV {
    pub tag: Seq<char>,
    pub endpoint: EndpointV,
    pub models: Seq<(Option<Seq<char>>, ModelV)>,
    pub imports: Seq<ImportV>,
    pub skips: Seq<SkipNoteV>,
}

/// One declared tag's bucket while endpoints are grouped.
#[verifier::ext_equal]
pub struct TagBucketV {
    pub tag: Seq<char>,
    pub endpoints: Seq<EndpointV>,
    pub models: Seq<(Option<Seq<char>>, ModelV)>,
    pub imports: Seq<ImportV>,
}

/// The classified parameters of one operation, with everything their
/// resolution produced.
#[verifier::ext_equal]
pub struct ParamsAccV {
    pub path_params: Seq<FieldV>,
    pub query_params: Seq<FieldV>,
    pub header_params: Seq<FieldV>,
    pub models: Seq<(Option<Seq<char>>, ModelV)>,
    pub imports: Seq<ImportV>,
    pub skips: Seq<SkipNoteV>,
}

/// The schema of a request body's JSON content entry, if one is declared; a
/// referenced body passes through as a reference node.
pub open spec fn body_schema_of(rb: RefOr<RequestBodySpec>) -> Option<RefOr<SchemaSpec>> {
    match rb {
        RefOr::Ref { ref_path } => Some(RefOr::Ref { ref_path }),
        RefOr::Object(body) => match lookup_pairs(body.content@, "application/json"@) {
            None => None,
            Some(mt) => Some(mt.schema),
        },
    }
}

/// Resolving one operation's request body into its body field: the body
/// schema is resolved under the synthesized name `<PascalOperationId>Request`;
/// an alias root lends the field its target, any other root its name. Only
/// the root is kept; the body's nested descriptors are dropped.
pub open spec fn body_field_of(op: OperationSpec, depth: nat) -> Result<
    (Option<FieldV>, Seq<ImportV>, Seq<SkipNoteV>),
    GenErrorV,
> {
    match op.request_body {
        Option::None => Ok((None, Seq::empty(), Seq::empty())),
        Option::Some(rb) => match body_schema_of(rb) {
            None => Err(GenErrorV::MissingRequestBody { operation_id: op.operation_id@ }),
            Some(node) => {
                let rname = pascal_of(op.operation_id@) + "Request"@;
                match resolve_node(rname, node, None, depth) {
                    Err(e) => Err(e),
                    Ok(r) => if r.models.len() == 0 {
                        Err(GenErrorV::EmptyResolution { name: rname })
                    } else {
                        match r.models[0].1 {
                            ModelV::Alias { alias, is_array, .. } => Ok(
                                (
                                    Some(
                                        FieldV {
                                            name: alias,
                                            field_type: alias,
                                            required: true,
                                            is_array,
                                        },
                                    ),
                                    r.imports,
                                    r.skips,
                                ),
                            ),
                            root => Ok(
                                (
                                    Some(
                                        FieldV {
                                            name: root.name_of(),
                                            field_type: root.name_of(),
                                            required: true,
                                            is_array: false,
                                        },
                                    ),
                                    r.imports,
                                    r.skips,
                                ),
                            ),
                        }
                    },
                }
            },
        },
    }
}

/// Folding one operation's parameters in declaration order. Each parameter's
/// schema is resolved under its own pascal-cased name, namespaced by the tag
/// and the operation id; the root descriptor supplies the field type, while
/// name and required flag come from the parameter's own declaration. Fields
/// are classified by location; any other location is fatal.
pub open spec fn params_fold(
    params: Seq<ParamSpec>,
    operation_id: Seq<char>,
    pns: Seq<char>,
    depth: nat,
) -> Result<ParamsAccV, GenErrorV>
    decreases params.len(),
{
    if params.len() == 0 {
        Ok(
            ParamsAccV {
                path_params: Seq::empty(),
                query_params: Seq::empty(),
                header_params: Seq::empty(),
                models: Seq::empty(),
                imports: Seq::empty(),
                skips: Seq::empty(),
            },
        )
    } else {
        match params_fold(params.drop_last(), operation_id, pns, depth) {
            Err(e) => Err(e),
            Ok(acc) => {
                let p = params.last();
                match resolve_node(pascal_of(p.name@), p.schema, Some(pns), depth) {
                    Err(e) => Err(e),
                    Ok(r) => if r.models.len() == 0 {
                        Err(GenErrorV::EmptyResolution { name: pascal_of(p.name@) })
                    } else {
                        let fm = match r.models[0].1 {
                            ModelV::Alias { alias, is_array, .. } => (
                                FieldV {
                                    name: p.name@,
                                    field_type: alias,
                                    required: p.required,
                                    is_array,
                                },
                                r.models.skip(1),
                            ),
                            root => (
                                FieldV {
                                    name: p.name@,
                                    field_type: qualified(pns, root.name_of()),
                                    required: p.required,
                                    is_array: false,
                                },
                                r.models,
                            ),
                        };
                        if p.location@ == "query"@ {
                            Ok(
                                ParamsAccV {
                                    query_params: acc.query_params.push(fm.0),
                                    models: acc.models + fm.1,
                                    imports: acc.imports + r.imports,
                                    skips: acc.skips + r.skips,
                                    ..acc
                                },
                            )
                        } else if p.location@ == "header"@ {
                            Ok(
                                ParamsAccV {
                                    header_params: acc.header_params.push(fm.0),
                                    models: acc.models + fm.1,
                                    imports: acc.imports + r.imports,
                                    skips: acc.skips + r.skips,
                                    ..acc
                                },
                            )
                        } else if p.location@ == "path"@ {
                            Ok(
                                ParamsAccV {
                                    path_params: acc.path_params.push(fm.0),
                                    models: acc.models + fm.1,
                                    imports: acc.imports + r.imports,
                                    skips: acc.skips + r.skips,
                                    ..acc
                                },
                            )
                        } else {
                            Err(
                                GenErrorV::UnknownParameterLocation {
                                    operation_id,
                                    name: p.name@,
                                    location: p.location@,
                                },
                            )
                        }
                    },
                }
            },
        }
    }
}

/// Building one operation's endpoint: `None` when the operation carries no
/// tag at all (it is skipped and logged); otherwise the endpoint under its
/// first declared tag, the body field, the classified parameters, and a
/// placeholder return type.
pub open spec fn endpoint_of(
    path: Seq<char>,
    method: Seq<char>,
    op: OperationSpec,
    depth: nat,
) -> Result<Option<EndpointBuildV>, GenErrorV> {
    if op.tags@.len() == 0 {
        Ok(None)
    } else {
        let tag = op.tags@[0]@;
        match body_field_of(op, depth) {
            Err(e) => Err(e),
            Ok(body) => {
                let pns = pascal_of(tag) + "."@ + pascal_of(op.operation_id@);
                match params_fold(op.parameters@, op.operation_id@, pns, depth) {
                    Err(e) => Err(e),
                    Ok(pa) => Ok(
                        Some(
                            EndpointBuildV {
                                tag,
                                endpoint: EndpointV {
                                    name: op.operation_id@,
                                    body_param: body.0,
                                    path_params: pa.path_params,
                                    query_params: pa.query_params,
                                    header_params: pa.header_params,
                                    return_type: "undefined"@,
                                    method,
                                    path,
                                },
                                models: pa.models,
                                imports: body.1 + pa.imports,
                                skips: body.2 + pa.skips,
                            },
                        ),
                    ),
                }
            },
        }
    }
}

/// The index of the first bucket for `tag`, if one exists.
pub open spec fn find_bucket(buckets: Seq<TagBucketV>, tag: Seq<char>) -> Option<int>
    decreases buckets.len(),
{
    if buckets.len() == 0 {
        None
    } else if buckets[0].tag == tag {
        Some(0)
    } else {
        match find_bucket(buckets.skip(1), tag) {
            None => None,
            Some(j) => Some(j + 1),
        }
    }
}

/// One empty bucket per declared tag, in declaration order.
pub open spec fn seed_buckets(tags: Seq<TagSpec>) -> Seq<TagBucketV> {
    tags.map_values(
        |t: TagSpec|
            TagBucketV {
                tag: t.name@,
                endpoints: Seq::empty(),
                models: Seq::empty(),
                imports: Seq::empty(),
            },
    )
}

/// Folding one operation into the tag buckets: an untagged operation only
/// logs a skip; a tag never declared by the document is fatal; otherwise the
/// endpoint and everything it brought along join the tag's bucket.
pub open spec fn fold_op(
    buckets: Seq<TagBucketV>,
    skips: Seq<SkipNoteV>,
    path: Seq<char>,
    method: Seq<char>,
    op: OperationSpec,
    depth: nat,
) -> Result<(Seq<TagBucketV>, Seq<SkipNoteV>), GenErrorV> {
    match endpoint_of(path, method, op, depth) {
        Err(e) => Err(e),
        Ok(None) => Ok(
            (
                buckets,
                skips.push(
                    SkipNoteV::UntaggedOperation { operation_id: op.operation_id@, method },
                ),
            ),
        ),
        Ok(Some(b)) => match find_bucket(buckets, b.tag) {
            None => Err(GenErrorV::UnknownTag { tag: b.tag }),
            Some(k) => Ok(
                (
                    buckets.update(
                        k,
                        TagBucketV {
                            tag: buckets[k].tag,
                            endpoints: buckets[k].endpoints.push(b.endpoint),
                            models: buckets[k].models + b.models,
                            imports: buckets[k].imports + b.imports,
                        },
                    ),
                    skips + b.skips,
                ),
            ),
        },
    }
}

/// One possibly-absent operation folded into the state.
pub open spec fn step_op(
    state: Result<(Seq<TagBucketV>, Seq<SkipNoteV>), GenErrorV>,
    path: Seq<char>,
    method: Seq<char>,
    op: Option<OperationSpec>,
    depth: nat,
) -> Result<(Seq<TagBucketV>, Seq<SkipNoteV>), GenErrorV> {
    match state {
        Err(e) => Err(e),
        Ok(st) => match op {
            Option::None => Ok(st),
            Option::Some(o) => fold_op(st.0, st.1, path, method, o, depth),
        },
    }
}

/// All operations of one path folded in, in the fixed method order.
pub open spec fn fold_path(
    state: Result<(Seq<TagBucketV>, Seq<SkipNoteV>), GenErrorV>,
    path: Seq<char>,
    ps: PathSpec,
    depth: nat,
) -> Result<(Seq<TagBucketV>, Seq<SkipNoteV>), GenErrorV> {
    let s1 = step_op(state, path, "get"@, ps.get, depth);
    let s2 = step_op(s1, path, "post"@, ps.post, depth);
    let s3 = step_op(s2, path, "put"@, ps.put, depth);
    let s4 = step_op(s3, path, "patch"@, ps.patch, depth);
    let s5 = step_op(s4, path, "delete"@, ps.delete, depth);
    let s6 = step_op(s5, path, "head"@, ps.head, depth);
    let s7 = step_op(s6, path, "trace"@, ps.trace, depth);
    step_op(s7, path, "options"@, ps.options, depth)
}

/// All paths folded in, in declaration order.
pub open spec fn fold_paths(
    state: Result<(Seq<TagBucketV>, Seq<SkipNoteV>), GenErrorV>,
    paths: Seq<(String, PathSpec)>,
    depth: nat,
) -> Result<(Seq<TagBucketV>, Seq<SkipNoteV>), GenErrorV>
    decreases paths.len(),
{
    if paths.len() == 0 {
        state
    } else {
        fold_path(
            fold_paths(state, paths.drop_last(), depth),
            paths.last().0@,
            paths.last().1,
            depth,
        )
    }
}

/// One bucket turned into its service artifact, named after its tag and
/// carrying the first declared server URL as base path.
pub open spec fn service_of(client: Seq<char>, base: Seq<char>, b: TagBucketV) -> ServiceFileV {
    ServiceFileV {
        client_name_pascal: pascal_of(client),
        client_name_kebab: kebab_of(client),
        imports: group_imports_spec(b.imports),
        name: pascal_of(b.tag) + "Service"@,
        base_path: base,
        endpoints: b.endpoints,
        nested: group_nested(b.models),
    }
}

/// The whole service assembly: buckets seeded from the declared tag list,
/// every operation of every path folded into its first tag's bucket, and one
/// service artifact emitted per declared tag, in declaration order.
pub open spec fn services_spec(
    client: Seq<char>,
    base: Seq<char>,
    tags: Seq<TagSpec>,
    paths: Seq<(String, PathSpec)>,
    depth: nat,
) -> Result<(Seq<ServiceFileV>, Seq<SkipNoteV>), GenErrorV> {
    match fold_paths(Ok((seed_buckets(tags), Seq::empty())), paths, depth) {
        Err(e) => Err(e),
        Ok(st) => Ok((st.0.map_values(|b: TagBucketV| service_of(client, base, b)), st.1)),
    }
}

// ---------------------------------------------------------------------------
// Executable assembly
// ---------------------------------------------------------------------------

/// One declared tag's bucket while endpoints are grouped.
#[derive(Debug)]
pub struct TagBucket {
    pub tag: String,
    pub endpoints: Vec<Endpoint>,
    pub models: Vec<(Option<String>, Model)>,
    pub imports: Vec<Import>,
}

impl DeepView for TagBucket {
    type V = TagBucketV;

    open spec fn deep_view(&self) -> TagBucketV {
        TagBucketV {
            tag: self.tag@,
            endpoints: self.endpoints.deep_view(),
            models: self.models.deep_view(),
            imports: self.imports.deep_view(),
        }
    }
}

proof fn lemma_find_bucket_at(buckets: Seq<TagBucketV>, tag: Seq<char>, k: int)
    requires
        0 <= k < buckets.len(),
        buckets[k].tag == tag,
        forall|j: int| 0 <= j < k ==> buckets[j].tag != tag,
    ensures
        find_bucket(buckets, tag) == Some(k),
    decreases k,
{
    if k == 0 {
    } else {
        assert(buckets.skip(1)[k - 1] == buckets[k]);
        assert(forall|j: int| 0 <= j < k - 1 ==> buckets.skip(1)[j] == buckets[j + 1]);
        lemma_find_bucket_at(buckets.skip(1), tag, k - 1);
    }
}

proof fn lemma_find_bucket_none(buckets: Seq<TagBucketV>, tag: Seq<char>)
    requires
        forall|j: int| 0 <= j < buckets.len() ==> buckets[j].tag != tag,
    ensures
        find_bucket(buckets, tag) is None,
    decreases buckets.len(),
{
    if buckets.len() > 0 {
        assert(forall|j: int| 0 <= j < buckets.skip(1).len() ==> buckets.skip(1)[j] == buckets[j
            + 1]);
        lemma_find_bucket_none(buckets.skip(1), tag);
    }
}

/// Finds the first bucket whose tag reads as `tag`.
fn find_bucket_exec(buckets: &Vec<TagBucket>, tag: &str) -> (r: Option<usize>)
    ensures
        match r {
            Some(k) => k < buckets@.len() && buckets.deep_view()[k as int].tag == tag@
                && find_bucket(buckets.deep_view(), tag@) == Some(k as int),
            None => find_bucket(buckets.deep_view(), tag@) is None,
        },
{
    let mut k: usize = 0;
    while k < buckets.len()
        invariant
            0 <= k <= buckets@.len(),
            forall|j: int| 0 <= j < k ==> buckets.deep_view()[j].tag != tag@,
        decreases buckets@.len() - k,
    {
        if str_eq(buckets[k].tag.as_str(), tag) {
            proof {
                lemma_find_bucket_at(buckets.deep_view(), tag@, k as int);
            }
            return Some(k);
        }
        k = k + 1;
    }
    proof {
        lemma_find_bucket_none(buckets.deep_view(), tag@);
    }
    None
}

/// Resolves the request body of one operation into its body field, exactly
/// as [`body_field_of`] states.
fn build_body_field(op: &OperationSpec, depth: u32) -> (r: Result<
    (Option<Field>, Vec<Import>, Vec<SkipNote>),
    GenError,
>)
    ensures
        match r {
            Ok(out) => body_field_of(*op, depth as nat) == Ok::<
                (Option<FieldV>, Seq<ImportV>, Seq<SkipNoteV>),
                GenErrorV,
            >((out.0.deep_view(), out.1.deep_view(), out.2.deep_view())),
            Err(e) => body_field_of(*op, depth as nat) == Err::<
                (Option<FieldV>, Seq<ImportV>, Seq<SkipNoteV>),
                GenErrorV,
            >(e.deep_view()),
        },
{
    let rb = match &op.request_body {
        Option::None => {
            let out = (None, Vec::new(), Vec::new());
            proof {
                assert(out.1.deep_view() =~= Seq::<ImportV>::empty());
                assert(out.2.deep_view() =~= Seq::<SkipNoteV>::empty());
            }
            return Ok(out);
        },
        Option::Some(rb) => rb,
    };
    let node: RefOr<SchemaSpec> = match rb {
        RefOr::Ref { ref_path } => RefOr::Ref { ref_path: ref_path.clone() },
        RefOr::Object(body) => {
            match lookup_pair(&body.content, "application/json") {
                Option::None => {
                    return Err(
                        GenError::MissingRequestBody { operation_id: op.operation_id.clone() },
                    );
                },
                Option::Some(mt) => {
                    return build_body_from_schema(op, &mt.schema, depth);
                },
            }
        },
    };
    build_body_from_schema(op, &node, depth)
}

/// Resolves an already-extracted body schema node into the body field.
fn build_body_from_schema(op: &OperationSpec, node: &RefOr<SchemaSpec>, depth: u32) -> (r: Result<
    (Option<Field>, Vec<Import>, Vec<SkipNote>),
    GenError,
>)
    requires
        op.request_body matches Some(rb) && body_schema_of(rb) == Some(*node),
    ensures
        match r {
            Ok(out) => body_field_of(*op, depth as nat) == Ok::<
                (Option<FieldV>, Seq<ImportV>, Seq<SkipNoteV>),
                GenErrorV,
            >((out.0.deep_view(), out.1.deep_view(), out.2.deep_view())),
            Err(e) => body_field_of(*op, depth as nat) == Err::<
                (Option<FieldV>, Seq<ImportV>, Seq<SkipNoteV>),
                GenErrorV,
            >(e.deep_view()),
        },
{
    let rname = pascal_case(op.operation_id.as_str()).concat("Request");
    match generate_model(rname.as_str(), node, None, depth) {
        Err(e) => Err(e),
        Ok(rr) => {
            let ghost rv = resolve_node(rname@, *node, None, depth as nat)->Ok_0;
            if rr.models.len() == 0 {
                Err(GenError::EmptyResolution { name: rname })
            } else {
                let field = match &rr.models[0].1 {
                    Model::Alias { alias, is_array, .. } => Field {
                        name: alias.clone(),
                        field_type: alias.clone(),
                        required: true,
                        is_array: *is_array,
                    },
                    other => {
                        let n = other.name();
                        Field {
                            name: n.clone(),
                            field_type: n,
                            required: true,
                            is_array: false,
                        }
                    },
                };
                Ok((Some(field), rr.imports, rr.skips))
            }
        },
    }
}


/// Everything building one endpoint produces.
#[derive(Debug)]
pub struct EndpointBuild {
    pub tag: String,
    pub endpoint: Endpoint,
    pub models: Vec<(Option<String>, Model)>,
    pub imports: Vec<Import>,
    pub skips: Vec<SkipNote>,
}

impl DeepView for EndpointBuild {
    type V = EndpointBuildV;

    open spec fn deep_view(&self) -> EndpointBuildV {
        EndpointBuildV {
            tag: self.tag@,
            endpoint: self.endpoint.deep_view(),
            models: self.models.deep_view(),
            imports: self.imports.deep_view(),
            skips: self.skips.deep_view(),
        }
    }
}

/// The classified parameters of one operation.
#[derive(Debug)]
pub struct ParamsAcc {
    pub path_params: Vec<Field>,
    pub query_params: Vec<Field>,
    pub header_params: Vec<Field>,
    pub models: Vec<(Option<String>, Model)>,
    pub imports: Vec<Import>,
    pub skips: Vec<SkipNote>,
}

impl DeepView for ParamsAcc {
    type V = ParamsAccV;

    open spec fn deep_view(&self) -> ParamsAccV {
        ParamsAccV {
            path_params: self.path_params.deep_view(),
            query_params: self.query_params.deep_view(),
            header_params: self.header_params.deep_view(),
            models: self.models.deep_view(),
            imports: self.imports.deep_view(),
            skips: self.skips.deep_view(),
        }
    }
}

proof fn lemma_params_err_persists(
    params: Seq<ParamSpec>,
    operation_id: Seq<char>,
    pns: Seq<char>,
    depth: nat,
    j: int,
)
    requires
        0 <= j <= params.len(),
        params_fold(params.take(j), operation_id, pns, depth) is Err,
    ensures
        params_fold(params, operation_id, pns, depth) == params_fold(
            params.take(j),
            operation_id,
            pns,
            depth,
        ),
    decreases params.len() - j,
{
    if j == params.len() {
        assert(params.take(j) =~= params);
    } else {
        assert(params.take(j + 1).drop_last() =~= params.take(j));
        lemma_params_err_persists(params, operation_id, pns, depth, j + 1);
    }
}

/// Resolves and classifies one operation's parameters, exactly as
/// [`params_fold`] states.
fn build_params(op: &OperationSpec, pns: &String, depth: u32) -> (r: Result<ParamsAcc, GenError>)
    ensures
        match r {
            Ok(acc) => params_fold(op.parameters@, op.operation_id@, pns@, depth as nat) == Ok::<
                ParamsAccV,
                GenErrorV,
            >(acc.deep_view()),
            Err(e) => params_fold(op.parameters@, op.operation_id@, pns@, depth as nat) == Err::<
                ParamsAccV,
                GenErrorV,
            >(e.deep_view()),
        },
{
    let mut acc = ParamsAcc {
        path_params: Vec::new(),
        query_params: Vec::new(),
        header_params: Vec::new(),
        models: Vec::new(),
        imports: Vec::new(),
        skips: Vec::new(),
    };
    let ghost params = op.parameters@;
    let mut i: usize = 0;
    proof {
        assert(params.take(0) =~= Seq::<ParamSpec>::empty());
        assert(acc.deep_view() =~= (ParamsAccV {
            path_params: Seq::empty(),
            query_params: Seq::empty(),
            header_params: Seq::empty(),
            models: Seq::empty(),
            imports: Seq::empty(),
            skips: Seq::empty(),
        }));
    }
    while i < op.parameters.len()
        invariant
            0 <= i <= params.len(),
            params == op.parameters@,
            params_fold(params.take(i as int), op.operation_id@, pns@, depth as nat) == Ok::<
                ParamsAccV,
                GenErrorV,
            >(acc.deep_view()),
        decreases params.len() - i,
    {
        let p = &op.parameters[i];
        proof {
            assert(params.take(i as int + 1).drop_last() =~= params.take(i as int));
            assert(params.take(i as int + 1).last() == params[i as int]);
        }
        let pas = pascal_case(p.name.as_str());
        match generate_model(pas.as_str(), &p.schema, Some(pns.clone()), depth) {
            Err(e) => {
                proof {
                    lemma_params_err_persists(
                        params,
                        op.operation_id@,
                        pns@,
                        depth as nat,
                        i as int + 1,
                    );
                }
                return Err(e);
            },
            Ok(rr) => {
                let ghost rv = resolve_node(
                    pascal_of(params[i as int].name@),
                    params[i as int].schema,
                    Some(pns@),
                    depth as nat,
                )->Ok_0;
                if rr.models.len() == 0 {
                    proof {
                        lemma_params_err_persists(
                            params,
                            op.operation_id@,
                            pns@,
                            depth as nat,
                            i as int + 1,
                        );
                    }
                    return Err(GenError::EmptyResolution { name: pas });
                }
                let ghost acc0 = acc.deep_view();
                let root_alias: Option<(String, bool)> = match &rr.models[0].1 {
                    Model::Alias { alias, is_array, .. } => Some((alias.clone(), *is_array)),
                    _ => None,
                };
                let field: Field;
                let mut sub: Vec<(Option<String>, Model)>;
                match root_alias {
                    Option::Some((alias, is_arr)) => {
                        field = Field {
                            name: p.name.clone(),
                            field_type: alias,
                            required: p.required,
                            is_array: is_arr,
                        };
                        let Resolved { models: mut rm, imports: mut rimp, skips: mut rsk } = rr;
                        let _ = rm.remove(0);
                        proof {
                            assert(seq_deep(rm@) =~= rv.models.skip(1));
                        }
                        sub = rm;
                        acc.imports.append(&mut rimp);
                        acc.skips.append(&mut rsk);
                    },
                    Option::None => {
                        let root_name = rr.models[0].1.name();
                        let qual = pns.clone().concat(".").concat(root_name.as_str());
                        field = Field {
                            name: p.name.clone(),
                            field_type: qual,
                            required: p.required,
                            is_array: false,
                        };
                        let Resolved { models: rm, imports: mut rimp, skips: mut rsk } = rr;
                        sub = rm;
                        acc.imports.append(&mut rimp);
                        acc.skips.append(&mut rsk);
                    },
                }
                acc.models.append(&mut sub);
                if str_eq(p.location.as_str(), "query") {
                    acc.query_params.push(field);
                } else if str_eq(p.location.as_str(), "header") {
                    acc.header_params.push(field);
                } else if str_eq(p.location.as_str(), "path") {
                    acc.path_params.push(field);
                } else {
                    proof {
                        lemma_params_err_persists(
                            params,
                            op.operation_id@,
                            pns@,
                            depth as nat,
                            i as int + 1,
                        );
                    }
                    return Err(
                        GenError::UnknownParameterLocation {
                            operation_id: op.operation_id.clone(),
                            name: p.name.clone(),
                            location: p.location.clone(),
                        },
                    );
                }
                proof {
                    assert(params_fold(
                        params.take(i as int + 1),
                        op.operation_id@,
                        pns@,
                        depth as nat,
                    ) == Ok::<ParamsAccV, GenErrorV>(acc.deep_view()));
                }
            },
        }
        i = i + 1;
    }
    proof {
        assert(params.take(params.len() as int) =~= params);
    }
    Ok(acc)
}

/// Builds one operation's endpoint, exactly as [`endpoint_of`] states:
/// `None` when the operation carries no tag.
pub fn build_endpoint(path: &String, method: &str, op: &OperationSpec, depth: u32) -> (r: Result<
    Option<EndpointBuild>,
    GenError,
>)
    ensures
        match r {
            Ok(out) => endpoint_of(path@, method@, *op, depth as nat) == Ok::<
                Option<EndpointBuildV>,
                GenErrorV,
            >(
                match out {
                    Option::None => None,
                    Option::Some(b) => Some(b.deep_view()),
                },
            ),
            Err(e) => endpoint_of(path@, method@, *op, depth as nat) == Err::<
                Option<EndpointBuildV>,
                GenErrorV,
            >(e.deep_view()),
        },
{
    if op.tags.len() == 0 {
        return Ok(None);
    }
    let tag = &op.tags[0];
    let body = match build_body_field(op, depth) {
        Err(e) => {
            return Err(e);
        },
        Ok(b) => b,
    };
    let pns = pascal_case(tag.as_str()).concat(".").concat(
        pascal_case(op.operation_id.as_str()).as_str(),
    );
    let mut pa = match build_params(op, &pns, depth) {
        Err(e) => {
            return Err(e);
        },
        Ok(pa) => pa,
    };
    let endpoint = Endpoint {
        name: op.operation_id.clone(),
        body_param: body.0,
        path_params: pa.path_params,
        query_params: pa.query_params,
        header_params: pa.header_params,
        return_type: "undefined".to_owned(),
        method: method.to_owned(),
        path: path.clone(),
    };
    let mut imports = body.1;
    imports.append(&mut pa.imports);
    let mut skips = body.2;
    skips.append(&mut pa.skips);
    let out = EndpointBuild { tag: tag.clone(), endpoint, models: pa.models, imports, skips };
    proof {
        let b = endpoint_of(path@, method@, *op, depth as nat)->Ok_0->Some_0;
        assert(out.deep_view().endpoint =~= b.endpoint);
        assert(out.deep_view().imports =~= b.imports);
        assert(out.deep_view().skips =~= b.skips);
        assert(out.deep_view() =~= b);
    }
    Ok(Some(out))
}

/// Folds one operation into its first tag's bucket, exactly as [`fold_op`]
/// states; an untagged operation only logs a skip.
fn handle_op(
    buckets: &mut Vec<TagBucket>,
    skips: &mut Vec<SkipNote>,
    path: &String,
    method: &str,
    op: &OperationSpec,
    depth: u32,
) -> (r: Result<(), GenError>)
    ensures
        match r {
            Ok(_) => fold_op(
                old(buckets).deep_view(),
                old(skips).deep_view(),
                path@,
                method@,
                *op,
                depth as nat,
            ) == Ok::<(Seq<TagBucketV>, Seq<SkipNoteV>), GenErrorV>(
                (final(buckets).deep_view(), final(skips).deep_view()),
            ),
            Err(e) => fold_op(
                old(buckets).deep_view(),
                old(skips).deep_view(),
                path@,
                method@,
                *op,
                depth as nat,
            ) == Err::<(Seq<TagBucketV>, Seq<SkipNoteV>), GenErrorV>(e.deep_view()),
        },
{
    let ghost buckets0 = buckets.deep_view();
    let ghost skips0 = skips.deep_view();
    match build_endpoint(path, method, op, depth) {
        Err(e) => Err(e),
        Ok(Option::None) => {
            skips.push(
                SkipNote::UntaggedOperation {
                    operation_id: op.operation_id.clone(),
                    method: method.to_owned(),
                },
            );
            proof {
                assert(skips.deep_view() =~= skips0.push(
                    SkipNoteV::UntaggedOperation {
                        operation_id: op.operation_id@,
                        method: method@,
                    },
                ));
            }
            Ok(())
        },
        Ok(Option::Some(b)) => {
            match find_bucket_exec(buckets, b.tag.as_str()) {
                Option::None => Err(GenError::UnknownTag { tag: b.tag }),
                Option::Some(k) => {
                    let ghost bv = b.deep_view();
                    let EndpointBuild {
                        tag: _,
                        endpoint,
                        models: mut bmodels,
                        imports: mut bimports,
                        skips: mut bskips,
                    } = b;
                    let mut bucket = buckets.remove(k);
                    bucket.endpoints.push(endpoint);
                    bucket.models.append(&mut bmodels);
                    bucket.imports.append(&mut bimports);
                    proof {
                        assert(bucket.deep_view() =~= (TagBucketV {
                            tag: buckets0[k as int].tag,
                            endpoints: buckets0[k as int].endpoints.push(bv.endpoint),
                            models: buckets0[k as int].models + bv.models,
                            imports: buckets0[k as int].imports + bv.imports,
                        }));
                    }
                    buckets.insert(k, bucket);
                    skips.append(&mut bskips);
                    proof {
                        assert(buckets.deep_view() =~= buckets0.update(
                            k as int,
                            TagBucketV {
                                tag: buckets0[k as int].tag,
                                endpoints: buckets0[k as int].endpoints.push(bv.endpoint),
                                models: buckets0[k as int].models + bv.models,
                                imports: buckets0[k as int].imports + bv.imports,
                            },
                        ));
                        assert(skips.deep_view() =~= skips0 + bv.skips);
                    }
                    Ok(())
                },
            }
        },
    }
}

/// Folds one possibly-absent operation into the buckets, exactly as
/// [`step_op`] states.
fn handle_op_opt(
    buckets: &mut Vec<TagBucket>,
    skips: &mut Vec<SkipNote>,
    path: &String,
    method: &str,
    op: &Option<OperationSpec>,
    depth: u32,
) -> (r: Result<(), GenError>)
    ensures
        match r {
            Ok(_) => step_op(
                Ok((old(buckets).deep_view(), old(skips).deep_view())),
                path@,
                method@,
                *op,
                depth as nat,
            ) == Ok::<(Seq<TagBucketV>, Seq<SkipNoteV>), GenErrorV>(
                (final(buckets).deep_view(), final(skips).deep_view()),
            ),
            Err(e) => step_op(
                Ok((old(buckets).deep_view(), old(skips).deep_view())),
                path@,
                method@,
                *op,
                depth as nat,
            ) == Err::<(Seq<TagBucketV>, Seq<SkipNoteV>), GenErrorV>(e.deep_view()),
        },
{
    match op {
        Option::None => Ok(()),
        Option::Some(o) => handle_op(buckets, skips, path, method, o, depth),
    }
}

proof fn lemma_fold_path_err(
    e: GenErrorV,
    path: Seq<char>,
    ps: PathSpec,
    depth: nat,
)
    ensures
        fold_path(Err(e), path, ps, depth) == Err::<(Seq<TagBucketV>, Seq<SkipNoteV>), GenErrorV>(
            e,
        ),
{
}

proof fn lemma_fold_paths_err_persists(
    init: Result<(Seq<TagBucketV>, Seq<SkipNoteV>), GenErrorV>,
    paths: Seq<(String, PathSpec)>,
    depth: nat,
    j: int,
)
    requires
        0 <= j <= paths.len(),
        fold_paths(init, paths.take(j), depth) is Err,
    ensures
        fold_paths(init, paths, depth) == fold_paths(init, paths.take(j), depth),
    decreases paths.len() - j,
{
    if j == paths.len() {
        assert(paths.take(j) =~= paths);
    } else {
        assert(paths.take(j + 1).drop_last() =~= paths.take(j));
        let e = fold_paths(init, paths.take(j), depth)->Err_0;
        lemma_fold_path_err(e, paths[j].0@, paths[j].1, depth);
        lemma_fold_paths_err_persists(init, paths, depth, j + 1);
    }
}

/// Assembles one service per declared tag from the document's paths, exactly
/// as [`services_spec`] states: endpoints grouped by their first tag in
/// discovery order, with aggregated imports and the descriptors their
/// parameters generated.
pub fn generate_services(
    client_name: &str,
    base_path: &str,
    tags: &Vec<TagSpec>,
    paths: &Vec<(String, PathSpec)>,
    depth: u32,
) -> (r: Result<(Vec<ServiceFile>, Vec<SkipNote>), GenError>)
    ensures
        match r {
            Ok(out) => services_spec(client_name@, base_path@, tags@, paths@, depth as nat)
                == Ok::<(Seq<ServiceFileV>, Seq<SkipNoteV>), GenErrorV>(
                (out.0.deep_view(), out.1.deep_view()),
            ),
            Err(e) => services_spec(client_name@, base_path@, tags@, paths@, depth as nat)
                == Err::<(Seq<ServiceFileV>, Seq<SkipNoteV>), GenErrorV>(e.deep_view()),
        },
{
    // seed one empty bucket per declared tag, in declaration order
    let mut buckets: Vec<TagBucket> = Vec::new();
    let mut i: usize = 0;
    proof {
        assert(tags@.take(0) =~= Seq::<TagSpec>::empty());
        assert(buckets.deep_view() =~= seed_buckets(tags@.take(0)));
    }
    while i < tags.len()
        invariant
            0 <= i <= tags@.len(),
            buckets.deep_view() == seed_buckets(tags@.take(i as int)),
        decreases tags@.len() - i,
    {
        buckets.push(
            TagBucket {
                tag: tags[i].name.clone(),
                endpoints: Vec::new(),
                models: Vec::new(),
                imports: Vec::new(),
            },
        );
        proof {
            assert(seed_buckets(tags@.take(i as int + 1)) =~= seed_buckets(
                tags@.take(i as int),
            ).push(
                TagBucketV {
                    tag: tags@[i as int].name@,
                    endpoints: Seq::empty(),
                    models: Seq::empty(),
                    imports: Seq::empty(),
                },
            ));
            assert(buckets.deep_view() =~= seed_buckets(tags@.take(i as int)).push(
                TagBucketV {
                    tag: tags@[i as int].name@,
                    endpoints: Seq::empty(),
                    models: Seq::empty(),
                    imports: Seq::empty(),
                },
            ));
        }
        i = i + 1;
    }
    proof {
        assert(tags@.take(tags@.len() as int) =~= tags@);
    }
    let mut skips: Vec<SkipNote> = Vec::new();
    let ghost init = Ok::<(Seq<TagBucketV>, Seq<SkipNoteV>), GenErrorV>(
        (seed_buckets(tags@), Seq::empty()),
    );
    let mut j: usize = 0;
    proof {
        assert(paths@.take(0) =~= Seq::<(String, PathSpec)>::empty());
        assert(skips.deep_view() =~= Seq::<SkipNoteV>::empty());
    }
    while j < paths.len()
        invariant
            0 <= j <= paths@.len(),
            init == Ok::<(Seq<TagBucketV>, Seq<SkipNoteV>), GenErrorV>(
                (seed_buckets(tags@), Seq::<SkipNoteV>::empty()),
            ),
            fold_paths(init, paths@.take(j as int), depth as nat) == Ok::<
                (Seq<TagBucketV>, Seq<SkipNoteV>),
                GenErrorV,
            >((buckets.deep_view(), skips.deep_view())),
        decreases paths@.len() - j,
    {
        let path = &paths[j].0;
        let ps = &paths[j].1;
        proof {
            assert(paths@.take(j as int + 1).drop_last() =~= paths@.take(j as int));
            assert(paths@.take(j as int + 1).last() == paths@[j as int]);
        }
        let ghost st0 = Ok::<(Seq<TagBucketV>, Seq<SkipNoteV>), GenErrorV>(
            (buckets.deep_view(), skips.deep_view()),
        );
        match handle_op_opt(&mut buckets, &mut skips, path, "get", &ps.get, depth) {
            Err(e) => {
                proof {
                    lemma_fold_paths_err_persists(init, paths@, depth as nat, j as int + 1);
                }
                return Err(e);
            },
            Ok(_) => {},
        }
        let ghost st1 = Ok::<(Seq<TagBucketV>, Seq<SkipNoteV>), GenErrorV>(
            (buckets.deep_view(), skips.deep_view()),
        );
        match handle_op_opt(&mut buckets, &mut skips, path, "post", &ps.post, depth) {
            Err(e) => {
                proof {
                    lemma_fold_paths_err_persists(init, paths@, depth as nat, j as int + 1);
                }
                return Err(e);
            },
            Ok(_) => {},
        }
        let ghost st2 = Ok::<(Seq<TagBucketV>, Seq<SkipNoteV>), GenErrorV>(
            (buckets.deep_view(), skips.deep_view()),
        );
        match handle_op_opt(&mut buckets, &mut skips, path, "put", &ps.put, depth) {
            Err(e) => {
                proof {
                    lemma_fold_paths_err_persists(init, paths@, depth as nat, j as int + 1);
                }
                return Err(e);
            },
            Ok(_) => {},
        }
        let ghost st3 = Ok::<(Seq<TagBucketV>, Seq<SkipNoteV>), GenErrorV>(
            (buckets.deep_view(), skips.deep_view()),
        );
        match handle_op_opt(&mut buckets, &mut skips, path, "patch", &ps.patch, depth) {
            Err(e) => {
                proof {
                    lemma_fold_paths_err_persists(init, paths@, depth as nat, j as int + 1);
                }
                return Err(e);
            },
            Ok(_) => {},
        }
        let ghost st4 = Ok::<(Seq<TagBucketV>, Seq<SkipNoteV>), GenErrorV>(
            (buckets.deep_view(), skips.deep_view()),
        );
        match handle_op_opt(&mut buckets, &mut skips, path, "delete", &ps.delete, depth) {
            Err(e) => {
                proof {
                    lemma_fold_paths_err_persists(init, paths@, depth as nat, j as int + 1);
                }
                return Err(e);
            },
            Ok(_) => {},
        }
        let ghost st5 = Ok::<(Seq<TagBucketV>, Seq<SkipNoteV>), GenErrorV>(
            (buckets.deep_view(), skips.deep_view()),
        );
        match handle_op_opt(&mut buckets, &mut skips, path, "head", &ps.head, depth) {
            Err(e) => {
                proof {
                    lemma_fold_paths_err_persists(init, paths@, depth as nat, j as int + 1);
                }
                return Err(e);
            },
            Ok(_) => {},
        }
        let ghost st6 = Ok::<(Seq<TagBucketV>, Seq<SkipNoteV>), GenErrorV>(
            (buckets.deep_view(), skips.deep_view()),
        );
        match handle_op_opt(&mut buckets, &mut skips, path, "trace", &ps.trace, depth) {
            Err(e) => {
                proof {
                    lemma_fold_paths_err_persists(init, paths@, depth as nat, j as int + 1);
                }
                return Err(e);
            },
            Ok(_) => {},
        }
        let ghost st7 = Ok::<(Seq<TagBucketV>, Seq<SkipNoteV>), GenErrorV>(
            (buckets.deep_view(), skips.deep_view()),
        );
        match handle_op_opt(&mut buckets, &mut skips, path, "options", &ps.options, depth) {
            Err(e) => {
                proof {
                    lemma_fold_paths_err_persists(init, paths@, depth as nat, j as int + 1);
                }
                return Err(e);
            },
            Ok(_) => {},
        }
        j = j + 1;
    }
    proof {
        assert(paths@.take(paths@.len() as int) =~= paths@);
    }
    // emit one service per bucket, in declaration order
    let client_pascal = pascal_case(client_name);
    let client_kebab = kebab_case(client_name);
    let ghost all = buckets.deep_view();
    let mut rest = buckets;
    let mut services: Vec<ServiceFile> = Vec::new();
    let ghost mut k: int = 0;
    proof {
        assert(all.take(0) =~= Seq::<TagBucketV>::empty());
        assert(services.deep_view() =~= all.take(0).map_values(
            |b: TagBucketV| service_of(client_name@, base_path@, b),
        ));
        assert(rest.deep_view() =~= all.skip(0));
    }
    while rest.len() > 0
        invariant
            0 <= k <= all.len(),
            rest.deep_view() == all.skip(k),
            rest@.len() == all.len() - k,
            client_pascal@ == pascal_of(client_name@),
            client_kebab@ == kebab_of(client_name@),
            services.deep_view() == all.take(k).map_values(
                |b: TagBucketV| service_of(client_name@, base_path@, b),
            ),
        decreases rest@.len(),
    {
        let ghost prev = rest@;
        let bucket = rest.remove(0);
        proof {
            assert(all.skip(k)[0] == all[k]);
            assert(bucket.deep_view() == all[k]);
            assert(seq_deep(prev) == all.skip(k));
            assert(rest@.len() == prev.len() - 1);
            assert(forall|m: int| 0 <= m < rest@.len() ==> rest@[m] == prev[m + 1]);
            assert(forall|m: int|
                0 <= m < rest@.len() ==> #[trigger] rest.deep_view()[m] == seq_deep(prev)[m + 1]);
            assert(forall|m: int|
                0 <= m < rest@.len() ==> #[trigger] all.skip(k + 1)[m] == all.skip(k)[m + 1]);
            assert(rest.deep_view() =~= all.skip(k + 1));
        }
        let grouped = group_imports(&bucket.imports);
        let nested = group_by_namespace(bucket.models);
        let service = ServiceFile {
            client_name_pascal: client_pascal.clone(),
            client_name_kebab: client_kebab.clone(),
            imports: grouped,
            name: pascal_case(bucket.tag.as_str()).concat("Service"),
            base_path: base_path.to_owned(),
            endpoints: bucket.endpoints,
            nested,
        };
        let ghost services0 = services.deep_view();
        proof {
            assert(service.deep_view() =~= service_of(client_name@, base_path@, all[k]));
        }
        services.push(service);
        proof {
            assert(all.take(k + 1).drop_last() =~= all.take(k));
            assert(all.take(k + 1).map_values(
                |b: TagBucketV| service_of(client_name@, base_path@, b),
            ) =~= all.take(k).map_values(|b: TagBucketV| service_of(client_name@, base_path@, b)).push(
                service_of(client_name@, base_path@, all[k]),
            ));
            assert(services.deep_view() =~= services0.push(
                service_of(client_name@, base_path@, all[k]),
            ));
            k = k + 1;
        }
    }
    proof {
        assert(all.take(k) =~= all);
    }
    Ok((services, skips))
}

} // verus!
