//! The schema resolver: turns one schema node into an ordered sequence of
//! namespaced model descriptors plus import records.
//!
//! The ghost functions in this module are the resolver's mathematical model;
//! [`generate_model`] is the executable resolver, proved equal to it.

use vstd::prelude::*;

use crate::casing::{kebab_case, kebab_of, pascal_case, pascal_of};
use crate::model::{
    EnumVariant, EnumVariantV, Field, FieldV, GenError, GenErrorV, Import, ImportV, Model, ModelV,
    Resolved, ResolvedV, SkipNote, SkipNoteV,
};
use crate::specs::{RefOr, SchemaSpec};
use crate::strutil::{contains_string, split_at_char, split_char, str_eq};
use crate::views::{group_deep_view, seq_deep};

verus! {

broadcast use group_deep_view;

/// How deep schema nesting may go before resolution fails with
/// `RecursionLimitExceeded` instead of overflowing the call stack.
pub const DEPTH_LIMIT: u32 = 64;

/// The namespace that scopes sub-models generated while resolving a node
/// called `name` under `namespace`.
pub open spec fn child_ns_of(namespace: Option<Seq<char>>, name: Seq<char>) -> Seq<char> {
    match namespace {
        Option::None => pascal_of(name),
        Option::Some(parent) => parent + "."@ + pascal_of(name),
    }
}

/// A name referenced through its namespace path.
pub open spec fn qualified(ns: Seq<char>, name: Seq<char>) -> Seq<char> {
    ns + "."@ + name
}

/// The `/`-separated segments of a reference path.
pub open spec fn ref_parts(path: Seq<char>) -> Seq<Seq<char>> {
    split_at_char(path, '/')
}

/// One variant per declared literal, the name equal to the value.
pub open spec fn enum_variants_of(lits: Seq<String>) -> Seq<EnumVariantV> {
    lits.map_values(|l: String| EnumVariantV { name: l@, value: l@ })
}

/// A resolution that produced nothing at all.
pub open spec fn empty_resolved() -> ResolvedV {
    ResolvedV { models: Seq::empty(), imports: Seq::empty(), skips: Seq::empty() }
}

/// Resolving a reference node: one alias to the referenced type name and one
/// import record keyed by the reference's module segment, no recursion.
pub open spec fn resolve_ref(name: Seq<char>, path: Seq<char>, namespace: Option<Seq<char>>)
    -> Result<ResolvedV, GenErrorV> {
    if ref_parts(path).len() < 4 {
        Err(GenErrorV::InvalidReference { path })
    } else {
        Ok(ResolvedV {
            models: seq![
                (namespace, ModelV::Alias { name, alias: ref_parts(path)[3], is_array: false }),
            ],
            imports: seq![
                ImportV {
                    import_type: pascal_of(ref_parts(path)[3]),
                    file: kebab_of(ref_parts(path)[2]),
                },
            ],
            skips: Seq::empty(),
        })
    }
}

/// Resolving an enumeration: supported only when the declared type is string
/// or absent; any other declared type is skipped with a logged note.
pub open spec fn resolve_enum(name: Seq<char>, s: SchemaSpec, namespace: Option<Seq<char>>)
    -> ResolvedV {
    match s.schema_type {
        Option::None => ResolvedV {
            models: seq![
                (namespace, ModelV::Enum { name, variants: enum_variants_of(s.schema_enum@) }),
            ],
            imports: Seq::empty(),
            skips: Seq::empty(),
        },
        Option::Some(t) => if t@ == "string"@ {
            ResolvedV {
                models: seq![
                    (namespace, ModelV::Enum { name, variants: enum_variants_of(s.schema_enum@) }),
                ],
                imports: Seq::empty(),
                skips: Seq::empty(),
            }
        } else {
            ResolvedV {
                models: Seq::empty(),
                imports: Seq::empty(),
                skips: seq![SkipNoteV::SchemaUnsupported { name, declared: t@ }],
            }
        },
    }
}

/// What one resolved node contributes to its owning object: at most one
/// field, the descriptors and imports it carries, and its logged skips.
#[verifier::ext_equal]
pub struct PropsAccV {
    pub fields: Seq<FieldV>,
    pub models: Seq<(Option<Seq<char>>, ModelV)>,
    pub imports: Seq<ImportV>,
    pub skips: Seq<SkipNoteV>,
}

/// Resolving one schema node, `depth` nesting levels allowed.
pub open spec fn resolve_node(
    name: Seq<char>,
    node: RefOr<SchemaSpec>,
    namespace: Option<Seq<char>>,
    depth: nat,
) -> Result<ResolvedV, GenErrorV>
    decreases depth, 0int, 0int,
{
    if depth == 0 {
        Err(GenErrorV::RecursionLimitExceeded { name })
    } else {
        match node {
            RefOr::Ref { ref_path } => resolve_ref(name, ref_path@, namespace),
            RefOr::Object(s) => {
                if s.schema_enum@.len() > 0 {
                    Ok(resolve_enum(name, s, namespace))
                } else {
                    match s.schema_type {
                        Option::Some(t) => {
                            if t@ == "string"@ || t@ == "number"@ {
                                Ok(ResolvedV {
                                    models: seq![
                                        (
                                            namespace,
                                            ModelV::Alias { name, alias: t@, is_array: false },
                                        ),
                                    ],
                                    imports: Seq::empty(),
                                    skips: Seq::empty(),
                                })
                            } else if t@ == "array"@ {
                                resolve_array(name, s, namespace, (depth - 1) as nat)
                            } else if t@ == "object"@ {
                                resolve_object(name, s, namespace, (depth - 1) as nat)
                            } else {
                                Ok(empty_resolved())
                            }
                        },
                        Option::None => Ok(empty_resolved()),
                    }
                }
            },
        }
    }
}

/// Resolving an array node: the item schema is resolved under the name
/// `Item` in the child namespace, and one level of alias indirection is
/// collapsed; an item that is itself an array is fatal.
pub open spec fn resolve_array(
    name: Seq<char>,
    s: SchemaSpec,
    namespace: Option<Seq<char>>,
    depth: nat,
) -> Result<ResolvedV, GenErrorV>
    decreases depth, 1int, 0int,
{
    let cns = child_ns_of(namespace, name);
    match s.items {
        Option::None => Ok(ResolvedV {
            models: Seq::empty(),
            imports: Seq::empty(),
            skips: seq![SkipNoteV::MissingItemsSchema { name }],
        }),
        Option::Some(b) => match resolve_node("Item"@, *b, Some(cns), depth) {
            Err(e) => Err(e),
            Ok(r) => if r.models.len() == 0 {
                Ok(ResolvedV {
                    models: Seq::empty(),
                    imports: r.imports,
                    skips: r.skips.push(SkipNoteV::NoDescriptors { name }),
                })
            } else {
                match r.models[0].1 {
                    ModelV::Alias { alias, is_array, .. } => if is_array {
                        Err(GenErrorV::NestedArray { name })
                    } else {
                        Ok(ResolvedV {
                            models: seq![
                                (namespace, ModelV::Alias { name, alias, is_array: true }),
                            ] + r.models.skip(1),
                            imports: r.imports,
                            skips: r.skips,
                        })
                    },
                    root => Ok(ResolvedV {
                        models: seq![
                            (
                                namespace,
                                ModelV::Alias {
                                    name,
                                    alias: qualified(cns, root.name_of()),
                                    is_array: true,
                                },
                            ),
                        ] + r.models,
                        imports: r.imports,
                        skips: r.skips,
                    }),
                }
            },
        },
    }
}

/// Resolving an object node: one struct descriptor whose fields come from
/// the properties in declaration order, above all descriptors the
/// properties generated.
pub open spec fn resolve_object(
    name: Seq<char>,
    s: SchemaSpec,
    namespace: Option<Seq<char>>,
    depth: nat,
) -> Result<ResolvedV, GenErrorV>
    decreases depth, 1int, 0int,
{
    let cns = child_ns_of(namespace, name);
    match resolve_props(s.properties@, s.required@, cns, depth) {
        Err(e) => Err(e),
        Ok(acc) => Ok(ResolvedV {
            models: seq![(namespace, ModelV::Struct { name, fields: acc.fields })] + acc.models,
            imports: acc.imports,
            skips: acc.skips,
        }),
    }
}

/// Folding an object's properties in declaration order. Each property is
/// resolved under its own pascal-cased name in the owner's child namespace;
/// its root descriptor supplies the field type, its required flag is
/// membership in the owner's required set, and everything else the property
/// generated is carried upward unchanged. A property that resolves to no
/// descriptor contributes no field, only a logged skip.
pub open spec fn resolve_props(
    props: Seq<(String, RefOr<SchemaSpec>)>,
    required: Seq<String>,
    cns: Seq<char>,
    depth: nat,
) -> Result<PropsAccV, GenErrorV>
    decreases depth, 0int, props.len(),
{
    if props.len() == 0 {
        Ok(PropsAccV {
            fields: Seq::empty(),
            models: Seq::empty(),
            imports: Seq::empty(),
            skips: Seq::empty(),
        })
    } else {
        match resolve_props(props.drop_last(), required, cns, depth) {
            Err(e) => Err(e),
            Ok(acc) => {
                let pname = props.last().0;
                let pnode = props.last().1;
                match resolve_node(pascal_of(pname@), pnode, Some(cns), depth) {
                    Err(e) => Err(e),
                    Ok(r) => if r.models.len() == 0 {
                        Ok(PropsAccV {
                            fields: acc.fields,
                            models: acc.models,
                            imports: acc.imports + r.imports,
                            skips: acc.skips + r.skips.push(SkipNoteV::NoDescriptors {
                                name: qualified(cns, pascal_of(pname@)),
                            }),
                        })
                    } else {
                        let is_required = seq_deep(required).contains(pname@);
                        match r.models[0].1 {
                            ModelV::Alias { alias, is_array, .. } => Ok(PropsAccV {
                                fields: acc.fields.push(FieldV {
                                    name: pname@,
                                    field_type: alias,
                                    required: is_required,
                                    is_array,
                                }),
                                models: acc.models + r.models.skip(1),
                                imports: acc.imports + r.imports,
                                skips: acc.skips + r.skips,
                            }),
                            root => Ok(PropsAccV {
                                fields: acc.fields.push(FieldV {
                                    name: pname@,
                                    field_type: qualified(cns, root.name_of()),
                                    required: is_required,
                                    is_array: false,
                                }),
                                models: acc.models + r.models,
                                imports: acc.imports + r.imports,
                                skips: acc.skips + r.skips,
                            }),
                        }
                    },
                }
            },
        }
    }
}

/// The deep view of a resolution result.
pub open spec fn resolved_result_view(r: Result<Resolved, GenError>) -> Result<
    ResolvedV,
    GenErrorV,
> {
    match r {
        Ok(x) => Ok(x.deep_view()),
        Err(e) => Err(e.deep_view()),
    }
}

proof fn lemma_take_step<T>(s: Seq<T>, i: int)
    requires
        0 <= i < s.len(),
    ensures
        s.take(i + 1).drop_last() =~= s.take(i),
        s.take(i + 1).last() == s[i],
{
}

/// Once a prefix of the property fold has failed, the whole fold fails the
/// same way.
proof fn lemma_props_err_persists(
    props: Seq<(String, RefOr<SchemaSpec>)>,
    required: Seq<String>,
    cns: Seq<char>,
    depth: nat,
    j: int,
)
    requires
        0 <= j <= props.len(),
        resolve_props(props.take(j), required, cns, depth) is Err,
    ensures
        resolve_props(props, required, cns, depth) == resolve_props(
            props.take(j),
            required,
            cns,
            depth,
        ),
    decreases props.len() - j,
{
    if j == props.len() {
        assert(props.take(j) =~= props);
    } else {
        lemma_take_step(props, j);
        assert(resolve_props(props.take(j + 1), required, cns, depth) == resolve_props(
            props.take(j),
            required,
            cns,
            depth,
        ));
        lemma_props_err_persists(props, required, cns, depth, j + 1);
    }
}

/// Splits a reference path into the referenced type name and the import
/// record its module segment yields.
pub fn get_ref(path: &String) -> (r: Result<(String, Import), GenError>)
    ensures
        match r {
            Ok(p) => ref_parts(path@).len() >= 4 && p.0@ == ref_parts(path@)[3]
                && p.1.deep_view() == (ImportV {
                import_type: pascal_of(ref_parts(path@)[3]),
                file: kebab_of(ref_parts(path@)[2]),
            }),
            Err(e) => ref_parts(path@).len() < 4 && e.deep_view() == (
            GenErrorV::InvalidReference { path: path@ }),
        },
{
    let parts = split_char(path.as_str(), '/');
    if parts.len() < 4 {
        return Err(GenError::InvalidReference { path: path.clone() });
    }
    let import = Import {
        import_type: pascal_case(parts[3].as_str()),
        file: kebab_case(parts[2].as_str()),
    };
    Ok((parts[3].clone(), import))
}

/// The namespace scoping sub-models of a node called `name` under
/// `namespace`.
fn child_namespace(namespace: &Option<String>, name: &str) -> (r: String)
    ensures
        r@ == child_ns_of(namespace.deep_view(), name@),
{
    match namespace {
        Option::None => pascal_case(name),
        Option::Some(parent) => parent.clone().concat(".").concat(pascal_case(name).as_str()),
    }
}

/// The executable resolver: one schema node to its ordered descriptor
/// sequence plus import records, exactly as [`resolve_node`] states.
pub fn generate_model(
    name: &str,
    node: &RefOr<SchemaSpec>,
    namespace: Option<String>,
    depth: u32,
) -> (r: Result<Resolved, GenError>)
    ensures
        resolved_result_view(r) == resolve_node(name@, *node, namespace.deep_view(), depth as nat),
    decreases depth, 0int,
{
    let ghost nsv = namespace.deep_view();
    if depth == 0 {
        return Err(GenError::RecursionLimitExceeded { name: name.to_owned() });
    }
    match node {
        RefOr::Ref { ref_path } => {
            match get_ref(ref_path) {
                Err(e) => Err(e),
                Ok((ref_type, import)) => {
                    let m = Model::Alias { name: name.to_owned(), alias: ref_type, is_array: false };
                    let mut models: Vec<(Option<String>, Model)> = Vec::new();
                    models.push((namespace, m));
                    let mut imports: Vec<Import> = Vec::new();
                    imports.push(import);
                    let res = Resolved { models, imports, skips: Vec::new() };
                    proof {
                        let s = resolve_ref(name@, ref_path@, nsv)->Ok_0;
                        assert(res.deep_view().models =~= s.models);
                        assert(res.deep_view().imports =~= s.imports);
                        assert(res.deep_view().skips =~= s.skips);
                        assert(res.deep_view() =~= s);
                    }
                    Ok(res)
                },
            }
        },
        RefOr::Object(schema) => {
            if schema.schema_enum.len() > 0 {
                generate_enum(name, schema, namespace)
            } else {
                match &schema.schema_type {
                    Option::Some(t) => {
                        if str_eq(t.as_str(), "string") || str_eq(t.as_str(), "number") {
                            let m = Model::Alias {
                                name: name.to_owned(),
                                alias: t.clone(),
                                is_array: false,
                            };
                            let mut models: Vec<(Option<String>, Model)> = Vec::new();
                            models.push((namespace, m));
                            let res = Resolved { models, imports: Vec::new(), skips: Vec::new() };
                            proof {
                                let s = resolve_node(name@, *node, nsv, depth as nat)->Ok_0;
                                assert(res.deep_view().models =~= s.models);
                                assert(res.deep_view().imports =~= s.imports);
                                assert(res.deep_view().skips =~= s.skips);
                                assert(res.deep_view() =~= s);
                            }
                            Ok(res)
                        } else if str_eq(t.as_str(), "array") {
                            generate_array(name, schema, namespace, depth - 1)
                        } else if str_eq(t.as_str(), "object") {
                            generate_object(name, schema, namespace, depth - 1)
                        } else {
                            let res = Resolved {
                                models: Vec::new(),
                                imports: Vec::new(),
                                skips: Vec::new(),
                            };
                            proof {
                                assert(res.deep_view() =~= empty_resolved());
                            }
                            Ok(res)
                        }
                    },
                    Option::None => {
                        let res = Resolved {
                            models: Vec::new(),
                            imports: Vec::new(),
                            skips: Vec::new(),
                        };
                        proof {
                            assert(res.deep_view() =~= empty_resolved());
                        }
                        Ok(res)
                    },
                }
            }
        },
    }
}

/// Resolves an enumeration node, as [`resolve_enum`] states.
fn generate_enum(name: &str, schema: &SchemaSpec, namespace: Option<String>) -> (r: Result<
    Resolved,
    GenError,
>)
    ensures
        resolved_result_view(r) == Ok::<ResolvedV, GenErrorV>(
            resolve_enum(name@, *schema, namespace.deep_view()),
        ),
{
    let ghost nsv = namespace.deep_view();
    let supported = match &schema.schema_type {
        Option::None => true,
        Option::Some(t) => str_eq(t.as_str(), "string"),
    };
    if supported {
        let mut variants: Vec<EnumVariant> = Vec::new();
        let ghost lits = schema.schema_enum@;
        let mut i: usize = 0;
        proof {
            assert(variants.deep_view() =~= enum_variants_of(lits.take(0)));
        }
        while i < schema.schema_enum.len()
            invariant
                0 <= i <= lits.len(),
                lits == schema.schema_enum@,
                variants.deep_view() == enum_variants_of(lits.take(i as int)),
            decreases lits.len() - i,
        {
            let lit = &schema.schema_enum[i];
            variants.push(EnumVariant { name: lit.clone(), value: lit.clone() });
            proof {
                assert(enum_variants_of(lits.take(i as int + 1)) =~= enum_variants_of(
                    lits.take(i as int),
                ).push(EnumVariantV { name: lits[i as int]@, value: lits[i as int]@ }));
            }
            i = i + 1;
        }
        let m = Model::Enum { name: name.to_owned(), variants };
        let mut models: Vec<(Option<String>, Model)> = Vec::new();
        models.push((namespace, m));
        let res = Resolved { models, imports: Vec::new(), skips: Vec::new() };
        proof {
            assert(lits.take(lits.len() as int) =~= lits);
            let s = resolve_enum(name@, *schema, nsv);
            assert(res.deep_view().models =~= s.models);
            assert(res.deep_view().imports =~= s.imports);
            assert(res.deep_view().skips =~= s.skips);
            assert(res.deep_view() =~= s);
        }
        Ok(res)
    } else {
        let t = match &schema.schema_type {
            Option::Some(t) => t.clone(),
            Option::None => String::new(),
        };
        let mut skips: Vec<SkipNote> = Vec::new();
        skips.push(SkipNote::SchemaUnsupported { name: name.to_owned(), declared: t });
        let res = Resolved { models: Vec::new(), imports: Vec::new(), skips };
        proof {
            let s = resolve_enum(name@, *schema, nsv);
            assert(res.deep_view().models =~= s.models);
            assert(res.deep_view().imports =~= s.imports);
            assert(res.deep_view().skips =~= s.skips);
            assert(res.deep_view() =~= s);
        }
        Ok(res)
    }
}

/// Resolves an array node, as [`resolve_array`] states.
fn generate_array(name: &str, schema: &SchemaSpec, namespace: Option<String>, depth: u32) -> (r:
    Result<Resolved, GenError>)
    ensures
        resolved_result_view(r) == resolve_array(
            name@,
            *schema,
            namespace.deep_view(),
            depth as nat,
        ),
    decreases depth, 1int,
{
    let ghost nsv = namespace.deep_view();
    let cns = child_namespace(&namespace, name);
    match &schema.items {
        Option::None => {
            let mut skips: Vec<SkipNote> = Vec::new();
            skips.push(SkipNote::MissingItemsSchema { name: name.to_owned() });
            let res = Resolved { models: Vec::new(), imports: Vec::new(), skips };
            proof {
                let s = resolve_array(name@, *schema, nsv, depth as nat)->Ok_0;
                assert(res.deep_view().models =~= s.models);
                assert(res.deep_view().imports =~= s.imports);
                assert(res.deep_view().skips =~= s.skips);
                assert(res.deep_view() =~= s);
            }
            Ok(res)
        },
        Option::Some(b) => {
            let item = generate_model("Item", &**b, Some(cns.clone()), depth);
            match item {
                Err(e) => Err(e),
                Ok(rr) => {
                    let ghost rv = resolve_node("Item"@, *(*b), Some(cns@), depth as nat)->Ok_0;
                    if rr.models.len() == 0 {
                        let Resolved { models: _, imports: rimp, skips: mut rsk } = rr;
                        rsk.push(SkipNote::NoDescriptors { name: name.to_owned() });
                        let res = Resolved { models: Vec::new(), imports: rimp, skips: rsk };
                        proof {
                            let s = resolve_array(name@, *schema, nsv, depth as nat)->Ok_0;
                            assert(res.deep_view().models =~= s.models);
                            assert(res.deep_view().imports =~= s.imports);
                            assert(res.deep_view().skips =~= s.skips);
                            assert(res.deep_view() =~= s);
                        }
                        Ok(res)
                    } else {
                        let root_alias: Option<(String, bool)> = match &rr.models[0].1 {
                            Model::Alias { alias, is_array, .. } => Some((alias.clone(), *is_array)),
                            _ => None,
                        };
                        match root_alias {
                            Option::Some((_, true)) => Err(GenError::NestedArray {
                                name: name.to_owned(),
                            }),
                            Option::Some((alias, false)) => {
                                let Resolved { models: mut rm, imports: rimp, skips: rsk } = rr;
                                let _ = rm.remove(0);
                                proof {
                                    assert(seq_deep(rm@) =~= rv.models.skip(1));
                                }
                                let m = Model::Alias {
                                    name: name.to_owned(),
                                    alias,
                                    is_array: true,
                                };
                                let mut models: Vec<(Option<String>, Model)> = Vec::new();
                                models.push((namespace, m));
                                models.append(&mut rm);
                                let res = Resolved { models, imports: rimp, skips: rsk };
                                proof {
                                    let s = resolve_array(name@, *schema, nsv, depth as nat)->Ok_0;
                                    assert(res.deep_view().models =~= s.models);
                                    assert(res.deep_view().imports =~= s.imports);
                                    assert(res.deep_view().skips =~= s.skips);
                                    assert(res.deep_view() =~= s);
                                }
                                Ok(res)
                            },
                            Option::None => {
                                let root_name = rr.models[0].1.name();
                                let qual = cns.clone().concat(".").concat(root_name.as_str());
                                let Resolved { models: mut rm, imports: rimp, skips: rsk } = rr;
                                let m = Model::Alias {
                                    name: name.to_owned(),
                                    alias: qual,
                                    is_array: true,
                                };
                                let mut models: Vec<(Option<String>, Model)> = Vec::new();
                                models.push((namespace, m));
                                models.append(&mut rm);
                                let res = Resolved { models, imports: rimp, skips: rsk };
                                proof {
                                    let s = resolve_array(name@, *schema, nsv, depth as nat)->Ok_0;
                                    assert(res.deep_view().models =~= s.models);
                                    assert(res.deep_view().imports =~= s.imports);
                                    assert(res.deep_view().skips =~= s.skips);
                                    assert(res.deep_view() =~= s);
                                }
                                Ok(res)
                            },
                        }
                    }
                },
            }
        },
    }
}

/// Resolves an object node, as [`resolve_object`] states.
fn generate_object(name: &str, schema: &SchemaSpec, namespace: Option<String>, depth: u32) -> (r:
    Result<Resolved, GenError>)
    ensures
        resolved_result_view(r) == resolve_object(
            name@,
            *schema,
            namespace.deep_view(),
            depth as nat,
        ),
    decreases depth, 1int,
{
    let ghost nsv = namespace.deep_view();
    let cns = child_namespace(&namespace, name);
    let mut fields: Vec<Field> = Vec::new();
    let mut sub_models: Vec<(Option<String>, Model)> = Vec::new();
    let mut imports: Vec<Import> = Vec::new();
    let mut skips: Vec<SkipNote> = Vec::new();
    let ghost props = schema.properties@;
    let ghost req = schema.required@;
    let mut i: usize = 0;
    proof {
        assert(props.take(0) =~= Seq::<(String, RefOr<SchemaSpec>)>::empty());
        assert(resolve_props(props.take(0), req, cns@, depth as nat) == (Ok::<
            PropsAccV,
            GenErrorV,
        >(
            PropsAccV {
                fields: Seq::empty(),
                models: Seq::empty(),
                imports: Seq::empty(),
                skips: Seq::empty(),
            },
        )));
        assert(fields.deep_view() =~= Seq::<FieldV>::empty());
        assert(sub_models.deep_view() =~= Seq::<(Option<Seq<char>>, ModelV)>::empty());
        assert(imports.deep_view() =~= Seq::<ImportV>::empty());
        assert(skips.deep_view() =~= Seq::<SkipNoteV>::empty());
    }
    while i < schema.properties.len()
        invariant
            0 <= i <= props.len(),
            props == schema.properties@,
            req == schema.required@,
            cns@ == child_ns_of(namespace.deep_view(), name@),
            resolve_props(props.take(i as int), req, cns@, depth as nat) == (Ok::<
                PropsAccV,
                GenErrorV,
            >(
                PropsAccV {
                    fields: fields.deep_view(),
                    models: sub_models.deep_view(),
                    imports: imports.deep_view(),
                    skips: skips.deep_view(),
                },
            )),
        decreases props.len() - i,
    {
        let pname = &schema.properties[i].0;
        let pnode = &schema.properties[i].1;
        let pas = pascal_case(pname.as_str());
        let r = generate_model(pas.as_str(), pnode, Some(cns.clone()), depth);
        proof {
            lemma_take_step(props, i as int);
        }
        match r {
            Err(e) => {
                proof {
                    assert(resolve_props(props.take(i as int + 1), req, cns@, depth as nat)
                        == Err::<PropsAccV, GenErrorV>(e.deep_view()));
                    lemma_props_err_persists(props, req, cns@, depth as nat, i as int + 1);
                }
                return Err(e);
            },
            Ok(rr) => {
                let ghost rv = resolve_node(
                    pascal_of(props[i as int].0@),
                    props[i as int].1,
                    Some(cns@),
                    depth as nat,
                )->Ok_0;
                let ghost fields0 = fields.deep_view();
                let ghost sub0 = sub_models.deep_view();
                let ghost imports0 = imports.deep_view();
                let ghost skips0 = skips.deep_view();
                if rr.models.len() == 0 {
                    let Resolved { models: _, imports: mut rimp, skips: mut rsk } = rr;
                    imports.append(&mut rimp);
                    skips.append(&mut rsk);
                    skips.push(SkipNote::NoDescriptors {
                        name: cns.clone().concat(".").concat(pas.as_str()),
                    });
                    proof {
                        assert(imports.deep_view() =~= imports0 + rv.imports);
                        assert(skips.deep_view() =~= skips0 + rv.skips.push(
                            SkipNoteV::NoDescriptors {
                                name: qualified(cns@, pascal_of(props[i as int].0@)),
                            },
                        ));
                        assert(resolve_props(props.take(i as int + 1), req, cns@, depth as nat)
                            == (Ok::<PropsAccV, GenErrorV>(
                            PropsAccV {
                                fields: fields.deep_view(),
                                models: sub_models.deep_view(),
                                imports: imports.deep_view(),
                                skips: skips.deep_view(),
                            },
                        )));
                    }
                } else {
                    let required_flag = contains_string(&schema.required, pname.as_str());
                    let root_alias: Option<(String, bool)> = match &rr.models[0].1 {
                        Model::Alias { alias, is_array, .. } => Some((alias.clone(), *is_array)),
                        _ => None,
                    };
                    match root_alias {
                        Option::Some((alias, is_arr)) => {
                            fields.push(
                                Field {
                                    name: pname.clone(),
                                    field_type: alias,
                                    required: required_flag,
                                    is_array: is_arr,
                                },
                            );
                            let Resolved { models: mut rm, imports: mut rimp, skips: mut rsk } =
                                rr;
                            let _ = rm.remove(0);
                            proof {
                                assert(seq_deep(rm@) =~= rv.models.skip(1));
                            }
                            sub_models.append(&mut rm);
                            imports.append(&mut rimp);
                            skips.append(&mut rsk);
                            proof {
                                assert(sub_models.deep_view() =~= sub0 + rv.models.skip(1));
                                assert(imports.deep_view() =~= imports0 + rv.imports);
                                assert(skips.deep_view() =~= skips0 + rv.skips);
                                assert(fields.deep_view() =~= fields0.push(
                                    FieldV {
                                        name: props[i as int].0@,
                                        field_type: rv.models[0].1->Alias_alias,
                                        required: seq_deep(req).contains(props[i as int].0@),
                                        is_array: rv.models[0].1->Alias_is_array,
                                    },
                                ));
                                assert(resolve_props(
                                    props.take(i as int + 1),
                                    req,
                                    cns@,
                                    depth as nat,
                                ) == (Ok::<PropsAccV, GenErrorV>(
                                    PropsAccV {
                                        fields: fields.deep_view(),
                                        models: sub_models.deep_view(),
                                        imports: imports.deep_view(),
                                        skips: skips.deep_view(),
                                    },
                                )));
                            }
                        },
                        Option::None => {
                            let root_name = rr.models[0].1.name();
                            let qual = cns.clone().concat(".").concat(root_name.as_str());
                            fields.push(
                                Field {
                                    name: pname.clone(),
                                    field_type: qual,
                                    required: required_flag,
                                    is_array: false,
                                },
                            );
                            let Resolved { models: mut rm, imports: mut rimp, skips: mut rsk } =
                                rr;
                            sub_models.append(&mut rm);
                            imports.append(&mut rimp);
                            skips.append(&mut rsk);
                            proof {
                                assert(sub_models.deep_view() =~= sub0 + rv.models);
                                assert(imports.deep_view() =~= imports0 + rv.imports);
                                assert(skips.deep_view() =~= skips0 + rv.skips);
                                assert(fields.deep_view() =~= fields0.push(
                                    FieldV {
                                        name: props[i as int].0@,
                                        field_type: qualified(cns@, rv.models[0].1.name_of()),
                                        required: seq_deep(req).contains(props[i as int].0@),
                                        is_array: false,
                                    },
                                ));
                                assert(resolve_props(
                                    props.take(i as int + 1),
                                    req,
                                    cns@,
                                    depth as nat,
                                ) == (Ok::<PropsAccV, GenErrorV>(
                                    PropsAccV {
                                        fields: fields.deep_view(),
                                        models: sub_models.deep_view(),
                                        imports: imports.deep_view(),
                                        skips: skips.deep_view(),
                                    },
                                )));
                            }
                        },
                    }
                }
            },
        }
        i = i + 1;
    }
    proof {
        assert(props.take(props.len() as int) =~= props);
    }
    let m = Model::Struct { name: name.to_owned(), fields };
    let mut models: Vec<(Option<String>, Model)> = Vec::new();
    models.push((namespace, m));
    models.append(&mut sub_models);
    let res = Resolved { models, imports, skips };
    proof {
        let s = resolve_object(name@, *schema, nsv, depth as nat)->Ok_0;
        assert(res.deep_view().models =~= s.models);
        assert(res.deep_view().imports =~= s.imports);
        assert(res.deep_view().skips =~= s.skips);
        assert(res.deep_view() =~= s);
    }
    Ok(res)
}

} // verus!