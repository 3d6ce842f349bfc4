//! The model file assembler: splits each top-level named schema's resolved
//! sequence into a root descriptor plus a namespace-grouped nested map,
//! paired with its aggregated imports.

use vstd::prelude::*;

use crate::imports::{group_imports, group_imports_spec};
use crate::model::{
    GenError, GenErrorV, Model, ModelFile, ModelFileV, ModelV, Resolved, SkipNote, SkipNoteV,
};
use crate::resolve::{generate_model, resolve_node, DEPTH_LIMIT};
use crate::specs::{RefOr, SchemaSpec};
use crate::strutil::{lookup_pair, str_eq};
use crate::views::{group_deep_view, seq_deep};

verus! {

broadcast use group_deep_view;

/// The index of the first nested bucket for `ns`, if one exists.
pub open spec fn find_ns(nested: Seq<(Seq<char>, Seq<ModelV>)>, ns: Seq<char>) -> Option<int>
    decreases nested.len(),
{
    if nested.len() == 0 {
        None
    } else if nested[0].0 == ns {
        Some(0)
    } else {
        match find_ns(nested.skip(1), ns) {
            None => None,
            Some(j) => Some(j + 1),
        }
    }
}

/// One namespaced descriptor folded into the buckets: appended to its
/// namespace's bucket, or opening a new bucket; a descriptor without a
/// namespace belongs to no bucket.
pub open spec fn add_nested(
    nested: Seq<(Seq<char>, Seq<ModelV>)>,
    entry: (Option<Seq<char>>, ModelV),
) -> Seq<(Seq<char>, Seq<ModelV>)> {
    match entry.0 {
        Option::None => nested,
        Option::Some(ns) => match find_ns(nested, ns) {
            None => nested.push((ns, seq![entry.1])),
            Some(k) => nested.update(k, (ns, nested[k].1.push(entry.1))),
        },
    }
}

/// All nested descriptors grouped by namespace, buckets in first-occurrence
/// order and descriptors within a bucket in resolution order.
pub open spec fn group_nested(models: Seq<(Option<Seq<char>>, ModelV)>) -> Seq<
    (Seq<char>, Seq<ModelV>),
>
    decreases models.len(),
{
    if models.len() == 0 {
        Seq::empty()
    } else {
        add_nested(group_nested(models.drop_last()), models.last())
    }
}

proof fn lemma_find_ns_at(nested: Seq<(Seq<char>, Seq<ModelV>)>, ns: Seq<char>, k: int)
    requires
        0 <= k < nested.len(),
        nested[k].0 == ns,
        forall|j: int| 0 <= j < k ==> nested[j].0 != ns,
    ensures
        find_ns(nested, ns) == Some(k),
    decreases k,
{
    if k == 0 {
    } else {
        assert(nested.skip(1)[k - 1] == nested[k]);
        assert(forall|j: int| 0 <= j < k - 1 ==> nested.skip(1)[j] == nested[j + 1]);
        lemma_find_ns_at(nested.skip(1), ns, k - 1);
    }
}

proof fn lemma_find_ns_none(nested: Seq<(Seq<char>, Seq<ModelV>)>, ns: Seq<char>)
    requires
        forall|j: int| 0 <= j < nested.len() ==> nested[j].0 != ns,
    ensures
        find_ns(nested, ns) is None,
    decreases nested.len(),
{
    if nested.len() > 0 {
        assert(forall|j: int| 0 <= j < nested.skip(1).len() ==> nested.skip(1)[j] == nested[j
            + 1]);
        lemma_find_ns_none(nested.skip(1), ns);
    }
}

/// Finds the first bucket whose namespace reads as `ns`.
fn find_ns_exec(nested: &Vec<(String, Vec<Model>)>, ns: &str) -> (r: Option<usize>)
    ensures
        match r {
            Some(k) => k < nested@.len() && nested.deep_view()[k as int].0 == ns@ && find_ns(
                nested.deep_view(),
                ns@,
            ) == Some(k as int),
            None => find_ns(nested.deep_view(), ns@) is None,
        },
{
    let mut k: usize = 0;
    while k < nested.len()
        invariant
            0 <= k <= nested@.len(),
            forall|j: int| 0 <= j < k ==> nested.deep_view()[j].0 != ns@,
        decreases nested@.len() - k,
    {
        if str_eq(nested[k].0.as_str(), ns) {
            proof {
                lemma_find_ns_at(nested.deep_view(), ns@, k as int);
            }
            return Some(k);
        }
        k = k + 1;
    }
    proof {
        lemma_find_ns_none(nested.deep_view(), ns@);
    }
    None
}

/// Groups namespaced descriptors into per-namespace buckets, exactly as
/// [`group_nested`] states.
pub fn group_by_namespace(models: Vec<(Option<String>, Model)>) -> (r: Vec<(String, Vec<Model>)>)
    ensures
        r.deep_view() == group_nested(models.deep_view()),
{
    let ghost all = models.deep_view();
    let mut rest = models;
    let mut nested: Vec<(String, Vec<Model>)> = Vec::new();
    let ghost mut j: int = 0;
    proof {
        assert(all.take(0) =~= Seq::<(Option<Seq<char>>, ModelV)>::empty());
        assert(nested.deep_view() =~= group_nested(all.take(0)));
        assert(rest.deep_view() =~= all.skip(0));
    }
    while rest.len() > 0
        invariant
            0 <= j <= all.len(),
            rest.deep_view() == all.skip(j),
            rest@.len() == all.len() - j,
            nested.deep_view() == group_nested(all.take(j)),
        decreases rest@.len(),
    {
        let ghost prev = rest@;
        let (ns_opt, m) = rest.remove(0);
        let ghost nested0 = nested.deep_view();
        proof {
            assert(all.skip(j)[0] == all[j]);
            assert((ns_opt.deep_view(), m.deep_view()) == all[j]);
            assert(all.take(j + 1).drop_last() =~= all.take(j));
            assert(all.take(j + 1).last() == all[j]);
            assert(seq_deep(prev) == all.skip(j));
            assert(rest@.len() == prev.len() - 1);
            assert(forall|k: int| 0 <= k < rest@.len() ==> rest@[k] == prev[k + 1]);
            assert(forall|k: int|
                0 <= k < rest@.len() ==> #[trigger] rest.deep_view()[k] == seq_deep(prev)[k + 1]);
            assert(forall|k: int|
                0 <= k < rest@.len() ==> #[trigger] all.skip(j + 1)[k] == all.skip(j)[k + 1]);
            assert(rest.deep_view() =~= all.skip(j + 1));
        }
        match ns_opt {
            Option::None => {
            },
            Option::Some(ns) => {
                match find_ns_exec(&nested, ns.as_str()) {
                    Option::None => {
                        let mut bucket: Vec<Model> = Vec::new();
                        bucket.push(m);
                        nested.push((ns, bucket));
                        proof {
                            assert(nested.deep_view() =~= nested0.push(
                                (ns@, seq![all[j].1]),
                            ));
                        }
                    },
                    Option::Some(k) => {
                        let mut bucket = nested.remove(k);
                        bucket.1.push(m);
                        proof {
                            assert(bucket.1.deep_view() =~= nested0[k as int].1.push(
                                all[j].1,
                            ));
                            assert(bucket.deep_view() =~= (
                                nested0[k as int].0,
                                nested0[k as int].1.push(all[j].1),
                            ));
                        }
                        nested.insert(k, bucket);
                        proof {
                            assert(nested.deep_view() =~= nested0.update(
                                k as int,
                                (nested0[k as int].0, nested0[k as int].1.push(all[j].1)),
                            ));
                        }
                    },
                }
            },
        }
        proof {
            j = j + 1;
        }
    }
    proof {
        assert(all.take(j) =~= all);
    }
    nested
}

/// What assembling one named schema yields: a model artifact unless the
/// schema was skipped, and the skips logged along the way.
pub open spec fn assemble_one(name: Seq<char>, node: RefOr<SchemaSpec>, depth: nat) -> Result<
    (Option<ModelFileV>, Seq<SkipNoteV>),
    GenErrorV,
> {
    match node {
        RefOr::Ref { ref_path } => Ok(
            (None, seq![SkipNoteV::TopLevelReference { name }]),
        ),
        RefOr::Object(_) => match resolve_node(name, node, None, depth) {
            Err(e) => Err(e),
            Ok(r) => if r.models.len() == 0 {
                Ok((None, r.skips.push(SkipNoteV::NoDescriptors { name })))
            } else {
                Ok(
                    (
                        Some(
                            ModelFileV {
                                imports: group_imports_spec(r.imports),
                                root: r.models[0].1,
                                nested: group_nested(r.models.skip(1)),
                            },
                        ),
                        r.skips,
                    ),
                )
            },
        },
    }
}

/// Every named schema assembled in declaration order: the artifacts of those
/// that yielded one, and every skip that was logged.
pub open spec fn models_fold(entries: Seq<(String, RefOr<SchemaSpec>)>, depth: nat) -> Result<
    (Seq<ModelFileV>, Seq<SkipNoteV>),
    GenErrorV,
>
    decreases entries.len(),
{
    if entries.len() == 0 {
        Ok((Seq::empty(), Seq::empty()))
    } else {
        match models_fold(entries.drop_last(), depth) {
            Err(e) => Err(e),
            Ok(acc) => match assemble_one(entries.last().0@, entries.last().1, depth) {
                Err(e) => Err(e),
                Ok(one) => Ok(
                    (
                        match one.0 {
                            Option::None => acc.0,
                            Option::Some(f) => acc.0.push(f),
                        },
                        acc.1 + one.1,
                    ),
                ),
            },
        }
    }
}

proof fn lemma_models_fold_err_persists(
    entries: Seq<(String, RefOr<SchemaSpec>)>,
    depth: nat,
    j: int,
)
    requires
        0 <= j <= entries.len(),
        models_fold(entries.take(j), depth) is Err,
    ensures
        models_fold(entries, depth) == models_fold(entries.take(j), depth),
    decreases entries.len() - j,
{
    if j == entries.len() {
        assert(entries.take(j) =~= entries);
    } else {
        assert(entries.take(j + 1).drop_last() =~= entries.take(j));
        lemma_models_fold_err_persists(entries, depth, j + 1);
    }
}

/// Assembles one named schema into at most one model artifact.
pub fn assemble_entry(name: &String, node: &RefOr<SchemaSpec>) -> (r: Result<
    (Option<ModelFile>, Vec<SkipNote>),
    GenError,
>)
    ensures
        match r {
            Ok(one) => assemble_one(name@, *node, DEPTH_LIMIT as nat) == Ok::<
                (Option<ModelFileV>, Seq<SkipNoteV>),
                GenErrorV,
            >(
                (
                    match one.0 {
                        Option::None => None::<ModelFileV>,
                        Option::Some(f) => Some(f.deep_view()),
                    },
                    one.1.deep_view(),
                ),
            ),
            Err(e) => assemble_one(name@, *node, DEPTH_LIMIT as nat) == Err::<
                (Option<ModelFileV>, Seq<SkipNoteV>),
                GenErrorV,
            >(e.deep_view()),
        },
{
    if let RefOr::Ref { ref_path: _ } = node {
        let mut skips: Vec<SkipNote> = Vec::new();
        skips.push(SkipNote::TopLevelReference { name: name.clone() });
        proof {
            assert(skips.deep_view() =~= seq![SkipNoteV::TopLevelReference { name: name@ }]);
        }
        return Ok((None, skips));
    }
    match generate_model(name.as_str(), node, None, DEPTH_LIMIT) {
        Err(e) => Err(e),
        Ok(rr) => {
            let ghost rv = resolve_node(name@, *node, None, DEPTH_LIMIT as nat)->Ok_0;
            if rr.models.len() == 0 {
                let Resolved { models: _, imports: _, skips: mut rsk } = rr;
                rsk.push(SkipNote::NoDescriptors { name: name.clone() });
                Ok((None, rsk))
            } else {
                let Resolved { models: mut rm, imports: rimp, skips: rsk } = rr;
                let root = rm.remove(0);
                proof {
                    assert(seq_deep(rm@) =~= rv.models.skip(1));
                }
                let nested = group_by_namespace(rm);
                let grouped = group_imports(&rimp);
                let file = ModelFile { imports: grouped, root: root.1, nested };
                Ok((Some(file), rsk))
            }
        },
    }
}

/// Assembles every named schema of one component section, in declaration
/// order, exactly as [`models_fold`] states.
pub fn generate_models(model_specs: &Vec<(String, RefOr<SchemaSpec>)>) -> (r: Result<
    (Vec<ModelFile>, Vec<SkipNote>),
    GenError,
>)
    ensures
        match r {
            Ok(out) => models_fold(model_specs@, DEPTH_LIMIT as nat) == Ok::<
                (Seq<ModelFileV>, Seq<SkipNoteV>),
                GenErrorV,
            >((out.0.deep_view(), out.1.deep_view())),
            Err(e) => models_fold(model_specs@, DEPTH_LIMIT as nat) == Err::<
                (Seq<ModelFileV>, Seq<SkipNoteV>),
                GenErrorV,
            >(e.deep_view()),
        },
{
    let mut files: Vec<ModelFile> = Vec::new();
    let mut skips: Vec<SkipNote> = Vec::new();
    let ghost entries = model_specs@;
    let mut i: usize = 0;
    proof {
        assert(entries.take(0) =~= Seq::<(String, RefOr<SchemaSpec>)>::empty());
        assert(files.deep_view() =~= Seq::<ModelFileV>::empty());
        assert(skips.deep_view() =~= Seq::<SkipNoteV>::empty());
    }
    while i < model_specs.len()
        invariant
            0 <= i <= entries.len(),
            entries == model_specs@,
            models_fold(entries.take(i as int), DEPTH_LIMIT as nat) == Ok::<
                (Seq<ModelFileV>, Seq<SkipNoteV>),
                GenErrorV,
            >((files.deep_view(), skips.deep_view())),
        decreases entries.len() - i,
    {
        let ghost files0 = files.deep_view();
        let ghost skips0 = skips.deep_view();
        proof {
            assert(entries.take(i as int + 1).drop_last() =~= entries.take(i as int));
            assert(entries.take(i as int + 1).last() == entries[i as int]);
        }
        match assemble_entry(&model_specs[i].0, &model_specs[i].1) {
            Err(e) => {
                proof {
                    lemma_models_fold_err_persists(entries, DEPTH_LIMIT as nat, i as int + 1);
                }
                return Err(e);
            },
            Ok((file_opt, mut sk)) => {
                let ghost skv = sk.deep_view();
                match file_opt {
                    Option::None => {},
                    Option::Some(f) => {
                        files.push(f);
                    },
                }
                skips.append(&mut sk);
                proof {
                    assert(skips.deep_view() =~= skips0 + skv);
                }
            },
        }
        i = i + 1;
    }
    proof {
        assert(entries.take(entries.len() as int) =~= entries);
    }
    Ok((files, skips))
}


/// The schema of a response's JSON content entry, if one is declared; a
/// referenced response passes through as a reference node.
pub open spec fn response_schema_of(r: RefOr<crate::specs::ResponseSpec>) -> Option<
    RefOr<SchemaSpec>,
> {
    match r {
        RefOr::Ref { ref_path } => Some(RefOr::Ref { ref_path }),
        RefOr::Object(resp) => match crate::strutil::lookup_pairs(
            resp.content@,
            "application/json"@,
        ) {
            None => None,
            Some(mt) => Some(mt.schema),
        },
    }
}

/// The schema of a request body's JSON content entry, if one is declared; a
/// referenced body passes through as a reference node.
pub open spec fn request_schema_of(r: RefOr<crate::specs::RequestBodySpec>) -> Option<
    RefOr<SchemaSpec>,
> {
    match r {
        RefOr::Ref { ref_path } => Some(RefOr::Ref { ref_path }),
        RefOr::Object(body) => match crate::strutil::lookup_pairs(
            body.content@,
            "application/json"@,
        ) {
            None => None,
            Some(mt) => Some(mt.schema),
        },
    }
}

/// Every named response assembled in declaration order; an entry without a
/// JSON content schema is passed over.
pub open spec fn responses_fold(
    entries: Seq<(String, RefOr<crate::specs::ResponseSpec>)>,
    depth: nat,
) -> Result<(Seq<ModelFileV>, Seq<SkipNoteV>), GenErrorV>
    decreases entries.len(),
{
    if entries.len() == 0 {
        Ok((Seq::empty(), Seq::empty()))
    } else {
        match responses_fold(entries.drop_last(), depth) {
            Err(e) => Err(e),
            Ok(acc) => match response_schema_of(entries.last().1) {
                Option::None => Ok(acc),
                Option::Some(node) => match assemble_one(entries.last().0@, node, depth) {
                    Err(e) => Err(e),
                    Ok(one) => Ok(
                        (
                            match one.0 {
                                Option::None => acc.0,
                                Option::Some(f) => acc.0.push(f),
                            },
                            acc.1 + one.1,
                        ),
                    ),
                },
            },
        }
    }
}

/// Every named request body assembled in declaration order; an entry without
/// a JSON content schema is passed over.
pub open spec fn request_bodies_fold(
    entries: Seq<(String, RefOr<crate::specs::RequestBodySpec>)>,
    depth: nat,
) -> Result<(Seq<ModelFileV>, Seq<SkipNoteV>), GenErrorV>
    decreases entries.len(),
{
    if entries.len() == 0 {
        Ok((Seq::empty(), Seq::empty()))
    } else {
        match request_bodies_fold(entries.drop_last(), depth) {
            Err(e) => Err(e),
            Ok(acc) => match request_schema_of(entries.last().1) {
                Option::None => Ok(acc),
                Option::Some(node) => match assemble_one(entries.last().0@, node, depth) {
                    Err(e) => Err(e),
                    Ok(one) => Ok(
                        (
                            match one.0 {
                                Option::None => acc.0,
                                Option::Some(f) => acc.0.push(f),
                            },
                            acc.1 + one.1,
                        ),
                    ),
                },
            },
        }
    }
}

proof fn lemma_responses_fold_err_persists(
    entries: Seq<(String, RefOr<crate::specs::ResponseSpec>)>,
    depth: nat,
    j: int,
)
    requires
        0 <= j <= entries.len(),
        responses_fold(entries.take(j), depth) is Err,
    ensures
        responses_fold(entries, depth) == responses_fold(entries.take(j), depth),
    decreases entries.len() - j,
{
    if j == entries.len() {
        assert(entries.take(j) =~= entries);
    } else {
        assert(entries.take(j + 1).drop_last() =~= entries.take(j));
        lemma_responses_fold_err_persists(entries, depth, j + 1);
    }
}

proof fn lemma_request_bodies_fold_err_persists(
    entries: Seq<(String, RefOr<crate::specs::RequestBodySpec>)>,
    depth: nat,
    j: int,
)
    requires
        0 <= j <= entries.len(),
        request_bodies_fold(entries.take(j), depth) is Err,
    ensures
        request_bodies_fold(entries, depth) == request_bodies_fold(entries.take(j), depth),
    decreases entries.len() - j,
{
    if j == entries.len() {
        assert(entries.take(j) =~= entries);
    } else {
        assert(entries.take(j + 1).drop_last() =~= entries.take(j));
        lemma_request_bodies_fold_err_persists(entries, depth, j + 1);
    }
}

/// Assembles every named response that declares a JSON content schema, in
/// declaration order, exactly as [`responses_fold`] states.
pub fn generate_response_models(
    entries: &Vec<(String, RefOr<crate::specs::ResponseSpec>)>,
) -> (r: Result<(Vec<ModelFile>, Vec<SkipNote>), GenError>)
    ensures
        match r {
            Ok(out) => responses_fold(entries@, DEPTH_LIMIT as nat) == Ok::<
                (Seq<ModelFileV>, Seq<SkipNoteV>),
                GenErrorV,
            >((out.0.deep_view(), out.1.deep_view())),
            Err(e) => responses_fold(entries@, DEPTH_LIMIT as nat) == Err::<
                (Seq<ModelFileV>, Seq<SkipNoteV>),
                GenErrorV,
            >(e.deep_view()),
        },
{
    let mut files: Vec<ModelFile> = Vec::new();
    let mut skips: Vec<SkipNote> = Vec::new();
    let ghost all = entries@;
    let mut i: usize = 0;
    proof {
        assert(all.take(0) =~= Seq::<(String, RefOr<crate::specs::ResponseSpec>)>::empty());
        assert(files.deep_view() =~= Seq::<ModelFileV>::empty());
        assert(skips.deep_view() =~= Seq::<SkipNoteV>::empty());
    }
    while i < entries.len()
        invariant
            0 <= i <= all.len(),
            all == entries@,
            responses_fold(all.take(i as int), DEPTH_LIMIT as nat) == Ok::<
                (Seq<ModelFileV>, Seq<SkipNoteV>),
                GenErrorV,
            >((files.deep_view(), skips.deep_view())),
        decreases all.len() - i,
    {
        proof {
            assert(all.take(i as int + 1).drop_last() =~= all.take(i as int));
            assert(all.take(i as int + 1).last() == all[i as int]);
        }
        let name = &entries[i].0;
        match &entries[i].1 {
            RefOr::Ref { ref_path } => {
                // a referenced response resolves as a reference node
                let owned: RefOr<SchemaSpec> = RefOr::Ref { ref_path: ref_path.clone() };
                match assemble_entry(name, &owned) {
                    Err(e) => {
                        proof {
                            lemma_responses_fold_err_persists(
                                all,
                                DEPTH_LIMIT as nat,
                                i as int + 1,
                            );
                        }
                        return Err(e);
                    },
                    Ok((file_opt, mut sk)) => {
                        let ghost skv = sk.deep_view();
                        let ghost skips0 = skips.deep_view();
                        match file_opt {
                            Option::None => {},
                            Option::Some(f) => {
                                files.push(f);
                            },
                        }
                        skips.append(&mut sk);
                        proof {
                            assert(skips.deep_view() =~= skips0 + skv);
                        }
                    },
                }
            },
            RefOr::Object(resp) => {
                match lookup_pair(&resp.content, "application/json") {
                    Option::None => {},
                    Option::Some(mt) => {
                        match assemble_entry(name, &mt.schema) {
                            Err(e) => {
                                proof {
                                    lemma_responses_fold_err_persists(
                                        all,
                                        DEPTH_LIMIT as nat,
                                        i as int + 1,
                                    );
                                }
                                return Err(e);
                            },
                            Ok((file_opt, mut sk)) => {
                                let ghost skv = sk.deep_view();
                                let ghost skips0 = skips.deep_view();
                                match file_opt {
                                    Option::None => {},
                                    Option::Some(f) => {
                                        files.push(f);
                                    },
                                }
                                skips.append(&mut sk);
                                proof {
                                    assert(skips.deep_view() =~= skips0 + skv);
                                }
                            },
                        }
                    },
                }
            },
        }
        i = i + 1;
    }
    proof {
        assert(all.take(all.len() as int) =~= all);
    }
    Ok((files, skips))
}

/// Assembles every named request body that declares a JSON content schema,
/// in declaration order, exactly as [`request_bodies_fold`] states.
pub fn generate_request_models(
    entries: &Vec<(String, RefOr<crate::specs::RequestBodySpec>)>,
) -> (r: Result<(Vec<ModelFile>, Vec<SkipNote>), GenError>)
    ensures
        match r {
            Ok(out) => request_bodies_fold(entries@, DEPTH_LIMIT as nat) == Ok::<
                (Seq<ModelFileV>, Seq<SkipNoteV>),
                GenErrorV,
            >((out.0.deep_view(), out.1.deep_view())),
            Err(e) => request_bodies_fold(entries@, DEPTH_LIMIT as nat) == Err::<
                (Seq<ModelFileV>, Seq<SkipNoteV>),
                GenErrorV,
            >(e.deep_view()),
        },
{
    let mut files: Vec<ModelFile> = Vec::new();
    let mut skips: Vec<SkipNote> = Vec::new();
    let ghost all = entries@;
    let mut i: usize = 0;
    proof {
        assert(all.take(0) =~= Seq::<(String, RefOr<crate::specs::RequestBodySpec>)>::empty());
        assert(files.deep_view() =~= Seq::<ModelFileV>::empty());
        assert(skips.deep_view() =~= Seq::<SkipNoteV>::empty());
    }
    while i < entries.len()
        invariant
            0 <= i <= all.len(),
            all == entries@,
            request_bodies_fold(all.take(i as int), DEPTH_LIMIT as nat) == Ok::<
                (Seq<ModelFileV>, Seq<SkipNoteV>),
                GenErrorV,
            >((files.deep_view(), skips.deep_view())),
        decreases all.len() - i,
    {
        proof {
            assert(all.take(i as int + 1).drop_last() =~= all.take(i as int));
            assert(all.take(i as int + 1).last() == all[i as int]);
        }
        let name = &entries[i].0;
        match &entries[i].1 {
            RefOr::Ref { ref_path } => {
                let owned: RefOr<SchemaSpec> = RefOr::Ref { ref_path: ref_path.clone() };
                match assemble_entry(name, &owned) {
                    Err(e) => {
                        proof {
                            lemma_request_bodies_fold_err_persists(
                                all,
                                DEPTH_LIMIT as nat,
                                i as int + 1,
                            );
                        }
                        return Err(e);
                    },
                    Ok((file_opt, mut sk)) => {
                        let ghost skv = sk.deep_view();
                        let ghost skips0 = skips.deep_view();
                        match file_opt {
                            Option::None => {},
                            Option::Some(f) => {
                                files.push(f);
                            },
                        }
                        skips.append(&mut sk);
                        proof {
                            assert(skips.deep_view() =~= skips0 + skv);
                        }
                    },
                }
            },
            RefOr::Object(body) => {
                match lookup_pair(&body.content, "application/json") {
                    Option::None => {},
                    Option::Some(mt) => {
                        match assemble_entry(name, &mt.schema) {
                            Err(e) => {
                                proof {
                                    lemma_request_bodies_fold_err_persists(
                                        all,
                                        DEPTH_LIMIT as nat,
                                        i as int + 1,
                                    );
                                }
                                return Err(e);
                            },
                            Ok((file_opt, mut sk)) => {
                                let ghost skv = sk.deep_view();
                                let ghost skips0 = skips.deep_view();
                                match file_opt {
                                    Option::None => {},
                                    Option::Some(f) => {
                                        files.push(f);
                                    },
                                }
                                skips.append(&mut sk);
                                proof {
                                    assert(skips.deep_view() =~= skips0 + skv);
                                }
                            },
                        }
                    },
                }
            },
        }
        i = i + 1;
    }
    proof {
        assert(all.take(all.len() as int) =~= all);
    }
    Ok((files, skips))
}

} // verus!
