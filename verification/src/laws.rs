//! The guarantees the generator gives, stated on their own and proved from
//! the resolution model.

use vstd::prelude::*;

use crate::generate::{generate_spec, GeneratedClient, GeneratedClientV};
use crate::imports::{add_record, find_group, group_imports_spec};
use crate::model::{GenErrorV, GroupedImportV, ImportV, ModelV, ResolvedV, SkipNoteV};
use crate::resolve::{ref_parts, resolve_node, resolve_object, resolve_props};
use crate::specs::{OpenApiSpec, RefOr, SchemaSpec};
use crate::views::seq_deep;

verus! {

/// Law: generation is deterministic. Two runs over equal documents yield
/// structurally identical artifacts — the whole output is a function of the
/// document alone.
pub proof fn lemma_generation_deterministic(
    d1: OpenApiSpec,
    d2: OpenApiSpec,
    r1: GeneratedClient,
    r2: GeneratedClient,
    depth: nat,
)
    requires
        d1 == d2,
        generate_spec(d1, depth) == Ok::<GeneratedClientV, GenErrorV>(r1.deep_view()),
        generate_spec(d2, depth) == Ok::<GeneratedClientV, GenErrorV>(r2.deep_view()),
    ensures
        r1.deep_view() == r2.deep_view(),
{
}

/// Law: a primitive-typed schema resolves to a single alias descriptor whose
/// target is exactly the declared primitive type, with no imports and no
/// skips.
pub proof fn lemma_primitive_schema_alias(
    name: Seq<char>,
    s: SchemaSpec,
    namespace: Option<Seq<char>>,
    depth: nat,
)
    requires
        depth >= 1,
        s.schema_enum@.len() == 0,
        s.schema_type matches Some(t) && (t@ == "string"@ || t@ == "number"@),
    ensures
        resolve_node(name, RefOr::Object(s), namespace, depth) matches Ok(r) && r.models.len()
            == 1 && r.models[0].1 == (ModelV::Alias {
            name,
            alias: s.schema_type->Some_0@,
            is_array: false,
        }) && r.imports.len() == 0 && r.skips.len() == 0,
{
}

/// Law: a string enumeration (declared type string or absent) resolves to a
/// single enumeration descriptor with exactly one variant per declared
/// literal, in declaration order, each variant's name equal to its value.
pub proof fn lemma_enum_variants(
    name: Seq<char>,
    s: SchemaSpec,
    namespace: Option<Seq<char>>,
    depth: nat,
)
    requires
        depth >= 1,
        s.schema_enum@.len() > 0,
        s.schema_type is None || s.schema_type->Some_0@ == "string"@,
    ensures
        resolve_node(name, RefOr::Object(s), namespace, depth) matches Ok(r) && r.models.len()
            == 1 && (r.models[0].1 matches ModelV::Enum { name: n, variants } && n == name
            && variants.len() == s.schema_enum@.len() && forall|i: int|
            0 <= i < s.schema_enum@.len() ==> (#[trigger] variants[i]).name == s.schema_enum@[i]@
                && variants[i].value == s.schema_enum@[i]@),
{
}

/// Law: every field an object's property fold emits carries a required flag
/// that equals its name's membership in the owner's required set.
pub proof fn lemma_props_required_flags(
    props: Seq<(String, RefOr<SchemaSpec>)>,
    required: Seq<String>,
    cns: Seq<char>,
    depth: nat,
)
    ensures
        resolve_props(props, required, cns, depth) matches Ok(acc) ==> forall|i: int|
            0 <= i < acc.fields.len() ==> (#[trigger] acc.fields[i]).required == seq_deep(
                required,
            ).contains(acc.fields[i].name),
    decreases props.len(),
{
    if props.len() > 0 {
        lemma_props_required_flags(props.drop_last(), required, cns, depth);
    }
}

/// Law: for an object schema, every field of the generated struct descriptor
/// has its required flag equal to membership of the field's name in the
/// schema's required set.
pub proof fn lemma_object_required_flags(
    name: Seq<char>,
    s: SchemaSpec,
    namespace: Option<Seq<char>>,
    depth: nat,
)
    ensures
        resolve_object(name, s, namespace, depth) matches Ok(r) ==> (r.models[0].1 matches
            ModelV::Struct { fields, .. } ==> forall|i: int|
            0 <= i < fields.len() ==> (#[trigger] fields[i]).required == seq_deep(
                s.required@,
            ).contains(fields[i].name)),
{
    lemma_props_required_flags(
        s.properties@,
        s.required@,
        crate::resolve::child_ns_of(namespace, name),
        depth,
    );
}

/// Law: a reference resolves, without recursion, to exactly one alias
/// descriptor for the referenced type name and exactly one import record
/// keyed by the reference's module segment.
pub proof fn lemma_reference_resolution(
    name: Seq<char>,
    path: String,
    namespace: Option<Seq<char>>,
    depth: nat,
)
    requires
        depth >= 1,
        ref_parts(path@).len() >= 4,
    ensures
        resolve_node(name, RefOr::Ref { ref_path: path }, namespace, depth) matches Ok(r)
            && r.models.len() == 1 && r.imports.len() == 1 && r.models[0].1 == (ModelV::Alias {
            name,
            alias: ref_parts(path@)[3],
            is_array: false,
        }) && r.imports[0] == (ImportV {
            import_type: crate::casing::pascal_of(ref_parts(path@)[3]),
            file: crate::casing::kebab_of(ref_parts(path@)[2]),
        }) && r.skips.len() == 0,
{
}

/// Law: resolving a reference consumes no nesting depth at all — any two
/// positive allowances give the very same result.
pub proof fn lemma_reference_no_recursion(
    name: Seq<char>,
    path: String,
    namespace: Option<Seq<char>>,
    d1: nat,
    d2: nat,
)
    requires
        d1 >= 1,
        d2 >= 1,
    ensures
        resolve_node(name, RefOr::Ref { ref_path: path }, namespace, d1) == resolve_node(
            name,
            RefOr::Ref { ref_path: path },
            namespace,
            d2,
        ),
{
}

/// Law: an array schema without an item schema resolves successfully to zero
/// descriptors and exactly one logged skip — never to an error.
pub proof fn lemma_array_missing_items(
    name: Seq<char>,
    s: SchemaSpec,
    namespace: Option<Seq<char>>,
    depth: nat,
)
    requires
        depth >= 1,
        s.schema_enum@.len() == 0,
        s.schema_type matches Some(t) && t@ == "array"@,
        s.items is None,
    ensures
        resolve_node(name, RefOr::Object(s), namespace, depth) == Ok::<ResolvedV, GenErrorV>(
            ResolvedV {
                models: Seq::empty(),
                imports: Seq::empty(),
                skips: seq![SkipNoteV::MissingItemsSchema { name }],
            },
        ),
{
    reveal_strlit("string");
    reveal_strlit("number");
    reveal_strlit("array");
    assert("array"@.len() == 5 && "string"@.len() == 6 && "number"@.len() == 6);
}

/// No two elements of the sequence are equal.
pub open spec fn distinct_seq<T>(s: Seq<T>) -> bool {
    forall|a: int, b: int| 0 <= a < b < s.len() ==> s[a] != s[b]
}

proof fn lemma_find_group_ensures(groups: Seq<GroupedImportV>, file: Seq<char>)
    ensures
        match find_group(groups, file) {
            Some(k) => 0 <= k < groups.len() && groups[k].file == file && forall|j: int|
                0 <= j < k ==> (#[trigger] groups[j]).file != file,
            None => forall|j: int| 0 <= j < groups.len() ==> (#[trigger] groups[j]).file != file,
        },
    decreases groups.len(),
{
    if groups.len() > 0 && groups[0].file != file {
        lemma_find_group_ensures(groups.skip(1), file);
        assert(forall|j: int|
            1 <= j < groups.len() ==> (#[trigger] groups[j]) == groups.skip(1)[j - 1]);
    }
}

/// Law: grouped imports carry one group per distinct module key, and no
/// group names a type twice — duplicate records are deduplicated.
pub proof fn lemma_grouped_imports_distinct(records: Seq<ImportV>)
    ensures
        ({
            let gs = group_imports_spec(records);
            &&& distinct_seq(gs.map_values(|g: GroupedImportV| g.file))
            &&& forall|k: int| 0 <= k < gs.len() ==> distinct_seq((#[trigger] gs[k]).types)
        }),
    decreases records.len(),
{
    if records.len() > 0 {
        lemma_grouped_imports_distinct(records.drop_last());
        let prev = group_imports_spec(records.drop_last());
        let rec = records.last();
        let gs = add_record(prev, rec);
        lemma_find_group_ensures(prev, rec.file);
        match find_group(prev, rec.file) {
            None => {
                assert(forall|j: int| 0 <= j < prev.len() ==> (#[trigger] prev[j]).file
                    != rec.file);
                assert(gs == prev.push(
                    GroupedImportV { types: seq![rec.import_type], file: rec.file },
                ));
                let files = gs.map_values(|g: GroupedImportV| g.file);
                let pfiles = prev.map_values(|g: GroupedImportV| g.file);
                assert(forall|a: int| 0 <= a < gs.len() ==> files[a] == (#[trigger] gs[a]).file);
                assert(forall|a: int|
                    0 <= a < prev.len() ==> pfiles[a] == (#[trigger] prev[a]).file);
                assert forall|a: int, b: int| 0 <= a < b < files.len() implies files[a]
                    != files[b] by {
                    if b < prev.len() {
                        assert(pfiles[a] != pfiles[b]);
                    } else {
                        assert(files[b] == rec.file);
                        assert(files[a] == prev[a].file);
                    }
                }
                assert(distinct_seq(seq![rec.import_type]));
            },
            Some(k) => {
                if prev[k].types.contains(rec.import_type) {
                } else {
                    assert(forall|j: int|
                        0 <= j < gs.len() && j != k ==> (#[trigger] gs[j]) == prev[j]);
                    assert(gs[k].types == prev[k].types.push(rec.import_type));
                    assert(distinct_seq(gs[k].types)) by {
                        let ts = gs[k].types;
                        assert(forall|a: int|
                            0 <= a < prev[k].types.len() ==> (#[trigger] ts[a])
                                == prev[k].types[a]);
                        assert(forall|a: int|
                            0 <= a < prev[k].types.len() ==> prev[k].types[a]
                                != rec.import_type) by {
                            assert(forall|a: int|
                                0 <= a < prev[k].types.len() ==> prev[k].types.contains(
                                    #[trigger] prev[k].types[a],
                                ));
                        }
                    }
                    let files = gs.map_values(|g: GroupedImportV| g.file);
                    let pfiles = prev.map_values(|g: GroupedImportV| g.file);
                    assert(forall|a: int|
                        0 <= a < files.len() ==> (#[trigger] files[a]) == gs[a].file);
                    assert(forall|a: int|
                        0 <= a < pfiles.len() ==> (#[trigger] pfiles[a]) == prev[a].file);
                    assert(forall|a: int|
                        0 <= a < gs.len() ==> (#[trigger] gs[a]).file == prev[a].file);
                    assert(files =~= pfiles);
                    assert(distinct_seq(files));
                }
            },
        }
    }
}

/// The record `(t, f)` is found in some group for module key `f`.
pub open spec fn represented(gs: Seq<GroupedImportV>, f: Seq<char>, t: Seq<char>) -> bool {
    exists|k: int| 0 <= k < gs.len() && (#[trigger] gs[k]).file == f && gs[k].types.contains(t)
}

proof fn lemma_add_record_preserves(groups: Seq<GroupedImportV>, rec: ImportV, f: Seq<char>, t: Seq<char>)
    requires
        represented(groups, f, t),
    ensures
        represented(add_record(groups, rec), f, t),
{
    let gs = add_record(groups, rec);
    let k = choose|k: int|
        0 <= k < groups.len() && (#[trigger] groups[k]).file == f && groups[k].types.contains(t);
    lemma_find_group_ensures(groups, rec.file);
    match find_group(groups, rec.file) {
        None => {
            assert(gs[k] == groups[k]);
        },
        Some(kk) => {
            if groups[kk].types.contains(rec.import_type) {
                assert(gs[k] == groups[k]);
            } else if k != kk {
                assert(gs[k] == groups[k]);
            } else {
                assert(gs[kk].file == f);
                let a = choose|a: int|
                    0 <= a < groups[kk].types.len() && groups[kk].types[a] == t;
                assert(gs[kk].types[a] == t);
                assert(gs[kk].types.contains(t));
            }
        },
    }
}

proof fn lemma_add_record_adds(groups: Seq<GroupedImportV>, rec: ImportV)
    ensures
        represented(add_record(groups, rec), rec.file, rec.import_type),
{
    let gs = add_record(groups, rec);
    lemma_find_group_ensures(groups, rec.file);
    match find_group(groups, rec.file) {
        None => {
            let k = groups.len() as int;
            assert(gs[k].file == rec.file);
            assert(gs[k].types[0] == rec.import_type);
            assert(gs[k].types.contains(rec.import_type));
        },
        Some(kk) => {
            if groups[kk].types.contains(rec.import_type) {
                assert(gs[kk] == groups[kk]);
                assert(gs[kk].file == rec.file && gs[kk].types.contains(rec.import_type));
            } else {
                let n = groups[kk].types.len() as int;
                assert(gs[kk].types[n] == rec.import_type);
                assert(gs[kk].file == rec.file && gs[kk].types.contains(rec.import_type));
            }
        },
    }
}

/// Law: grouping loses no record — every import record's type name is found
/// in a group carrying its module key.
pub proof fn lemma_grouped_imports_complete(records: Seq<ImportV>)
    ensures
        forall|i: int|
            0 <= i < records.len() ==> represented(
                group_imports_spec(records),
                (#[trigger] records[i]).file,
                records[i].import_type,
            ),
    decreases records.len(),
{
    if records.len() > 0 {
        lemma_grouped_imports_complete(records.drop_last());
        let prev = group_imports_spec(records.drop_last());
        let rec = records.last();
        assert(group_imports_spec(records) == add_record(prev, rec));
        assert forall|i: int| 0 <= i < records.len() implies represented(
            group_imports_spec(records),
            (#[trigger] records[i]).file,
            records[i].import_type,
        ) by {
            if i < records.len() - 1 {
                assert(records.drop_last()[i] == records[i]);
                assert(represented(prev, records[i].file, records[i].import_type));
                lemma_add_record_preserves(prev, rec, records[i].file, records[i].import_type);
            } else {
                assert(records[i] == rec);
                lemma_add_record_adds(prev, rec);
            }
        }
    }
}

} // verus!
