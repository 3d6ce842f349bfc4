//! The top of the pipeline: one call turns a whole parsed document into
//! model artifacts, index artifacts and service artifacts, grouped by kind.

use vstd::prelude::*;

use crate::assemble::{
    generate_models, generate_request_models, generate_response_models, models_fold,
    request_bodies_fold, responses_fold,
};
use crate::casing::{kebab_case, kebab_of};
use crate::model::{
    GenError, GenErrorV, IndexFile, IndexFileV, ModelFile, ModelFileV, ServiceFile, ServiceFileV,
    SkipNote, SkipNoteV,
};
use crate::resolve::DEPTH_LIMIT;
use crate::services::{generate_services, services_spec};
use crate::specs::OpenApiSpec;
use crate::views::group_deep_view;

verus! {

broadcast use group_deep_view;

/// An artifact that the emission layer renders through a named template into
/// a file of its own.
pub trait TemplateContext {
    /// The name of the template that renders this artifact.
    fn template(&self) -> &'static str;

    /// The name of the file the rendered artifact is written to.
    fn filename(&self) -> String;
}

/// A code generator: turns a parsed document into emission-ready artifacts.
pub trait Generator {
    /// Generates every artifact of the document, or reports the fatal
    /// condition that aborted the run.
    fn generate(spec: &OpenApiSpec) -> Result<GeneratedClient, GenError>;
}

/// Ghost mirror of [`GeneratedClient`].
#[verifier::ext_equal]
pub struct GeneratedClientV {
    pub schema_models: Seq<ModelFileV>,
    pub schema_index: Option<IndexFileV>,
    pub response_models: Seq<ModelFileV>,
    pub response_index: Option<IndexFileV>,
    pub request_models: Seq<ModelFileV>,
    pub request_index: Option<IndexFileV>,
    pub services: Seq<ServiceFileV>,
    pub service_index: IndexFileV,
    pub skips: Seq<SkipNoteV>,
}

/// Everything one run generates: model artifacts grouped by kind, an index
/// artifact per non-empty group, the service artifacts with their index, and
/// every skip that was logged.
#[derive(Debug, PartialEq, Eq)]
pub struct GeneratedClient {
    pub schema_models: Vec<ModelFile>,
    pub schema_index: Option<IndexFile>,
    pub response_models: Vec<ModelFile>,
    pub response_index: Option<IndexFile>,
    pub request_models: Vec<ModelFile>,
    pub request_index: Option<IndexFile>,
    pub services: Vec<ServiceFile>,
    pub service_index: IndexFile,
    pub skips: Vec<SkipNote>,
}

impl DeepView for GeneratedClient {
    type V = GeneratedClientV;

    open spec fn deep_view(&self) -> GeneratedClientV {
        GeneratedClientV {
            schema_models: self.schema_models.deep_view(),
            schema_index: self.schema_index.deep_view(),
            response_models: self.response_models.deep_view(),
            response_index: self.response_index.deep_view(),
            request_models: self.request_models.deep_view(),
            request_index: self.request_index.deep_view(),
            services: self.services.deep_view(),
            service_index: self.service_index.deep_view(),
            skips: self.skips.deep_view(),
        }
    }
}

/// The file name of one model artifact: its root descriptor's name in kebab
/// case.
pub open spec fn model_file_stem(f: ModelFileV) -> Seq<char> {
    kebab_of(f.root.name_of())
}

/// What a model group's index exports: one stem per artifact, in order.
pub open spec fn exports_of(files: Seq<ModelFileV>) -> Seq<Seq<char>> {
    files.map_values(|f: ModelFileV| model_file_stem(f))
}

/// What the service index exports: one file name per service, in order.
pub open spec fn service_exports_of(services: Seq<ServiceFileV>) -> Seq<Seq<char>> {
    services.map_values(|s: ServiceFileV| kebab_of(s.name) + ".ts"@)
}

/// The index of a non-empty model group; an empty group has none.
pub open spec fn index_of(files: Seq<ModelFileV>) -> Option<IndexFileV> {
    if files.len() == 0 {
        None
    } else {
        Some(IndexFileV { exports: exports_of(files) })
    }
}

impl ModelFile {
    /// The stem of the artifact's file name.
    pub fn file_stem(&self) -> (r: String)
        ensures
            r@ == model_file_stem(self.deep_view()),
    {
        let name = self.root.name();
        kebab_case(name.as_str())
    }
}

impl TemplateContext for ModelFile {
    fn template(&self) -> &'static str {
        "model.tera"
    }

    fn filename(&self) -> String {
        self.file_stem().concat(".ts")
    }
}

impl TemplateContext for IndexFile {
    fn template(&self) -> &'static str {
        "index.tera"
    }

    fn filename(&self) -> String {
        "index.ts".to_owned()
    }
}

impl ServiceFile {
    /// The service artifact's file name.
    pub fn file_name(&self) -> (r: String)
        ensures
            r@ == kebab_of(self.deep_view().name) + ".ts"@,
    {
        kebab_case(self.name.as_str()).concat(".ts")
    }
}

impl TemplateContext for ServiceFile {
    fn template(&self) -> &'static str {
        "service.tera"
    }

    fn filename(&self) -> String {
        self.file_name()
    }
}

/// Builds the index artifact of a non-empty model group.
fn index_for(files: &Vec<ModelFile>) -> (r: Option<IndexFile>)
    ensures
        r.deep_view() == index_of(files.deep_view()),
{
    if files.len() == 0 {
        proof {
            assert(files.deep_view().len() == 0);
        }
        return None;
    }
    let mut exports: Vec<String> = Vec::new();
    let ghost all = files.deep_view();
    let mut i: usize = 0;
    proof {
        assert(exports.deep_view() =~= exports_of(all.take(0)));
    }
    while i < files.len()
        invariant
            0 <= i <= all.len(),
            all == files.deep_view(),
            all.len() == files@.len(),
            exports.deep_view() == exports_of(all.take(i as int)),
        decreases all.len() - i,
    {
        let stem = files[i].file_stem();
        proof {
            assert(files@[i as int].deep_view() == all[i as int]);
        }
        exports.push(stem);
        proof {
            assert(all.take(i as int + 1).drop_last() =~= all.take(i as int));
            assert(exports_of(all.take(i as int + 1)) =~= exports_of(all.take(i as int)).push(
                model_file_stem(all[i as int]),
            ));
            assert(exports.deep_view() =~= exports_of(all.take(i as int)).push(
                model_file_stem(all[i as int]),
            ));
        }
        i = i + 1;
    }
    proof {
        assert(all.take(all.len() as int) =~= all);
    }
    Some(IndexFile { exports })
}

/// Builds the service group's index artifact.
fn service_index_for(services: &Vec<ServiceFile>) -> (r: IndexFile)
    ensures
        r.deep_view() == (IndexFileV { exports: service_exports_of(services.deep_view()) }),
{
    let mut exports: Vec<String> = Vec::new();
    let ghost all = services.deep_view();
    let mut i: usize = 0;
    proof {
        assert(exports.deep_view() =~= service_exports_of(all.take(0)));
    }
    while i < services.len()
        invariant
            0 <= i <= all.len(),
            all == services.deep_view(),
            all.len() == services@.len(),
            exports.deep_view() == service_exports_of(all.take(i as int)),
        decreases all.len() - i,
    {
        let name = services[i].file_name();
        proof {
            assert(services@[i as int].deep_view() == all[i as int]);
        }
        exports.push(name);
        proof {
            assert(all.take(i as int + 1).drop_last() =~= all.take(i as int));
            assert(service_exports_of(all.take(i as int + 1)) =~= service_exports_of(
                all.take(i as int),
            ).push(kebab_of(all[i as int].name) + ".ts"@));
            assert(exports.deep_view() =~= service_exports_of(all.take(i as int)).push(
                kebab_of(all[i as int].name) + ".ts"@,
            ));
        }
        i = i + 1;
    }
    proof {
        assert(all.take(all.len() as int) =~= all);
    }
    IndexFile { exports }
}

/// What one run of the generator produces for a document, `depth` nesting
/// levels allowed: the three model groups in declaration order with their
/// indexes, then the services — a document without a declared server is
/// fatal at that point.
pub open spec fn generate_spec(doc: OpenApiSpec, depth: nat) -> Result<
    GeneratedClientV,
    GenErrorV,
> {
    let schemas = match doc.components {
        Option::None => Seq::empty(),
        Option::Some(c) => c.schemas@,
    };
    let responses = match doc.components {
        Option::None => Seq::empty(),
        Option::Some(c) => c.responses@,
    };
    let request_bodies = match doc.components {
        Option::None => Seq::empty(),
        Option::Some(c) => c.request_bodies@,
    };
    match models_fold(schemas, depth) {
        Err(e) => Err(e),
        Ok(sm) => match responses_fold(responses, depth) {
            Err(e) => Err(e),
            Ok(rm) => match request_bodies_fold(request_bodies, depth) {
                Err(e) => Err(e),
                Ok(qm) => if doc.servers@.len() == 0 {
                    Err(GenErrorV::NoServersDeclared)
                } else {
                    match services_spec(
                        kebab_of(doc.info.title@),
                        doc.servers@[0].url@,
                        doc.tags@,
                        doc.paths@,
                        depth,
                    ) {
                        Err(e) => Err(e),
                        Ok(sv) => Ok(
                            GeneratedClientV {
                                schema_models: sm.0,
                                schema_index: index_of(sm.0),
                                response_models: rm.0,
                                response_index: index_of(rm.0),
                                request_models: qm.0,
                                request_index: index_of(qm.0),
                                services: sv.0,
                                service_index: IndexFileV {
                                    exports: service_exports_of(sv.0),
                                },
                                skips: sm.1 + rm.1 + qm.1 + sv.1,
                            },
                        ),
                    }
                },
            },
        },
    }
}

/// Generates every artifact of the document, exactly as [`generate_spec`]
/// states, with the default nesting allowance.
pub fn generate_client(doc: &OpenApiSpec) -> (r: Result<GeneratedClient, GenError>)
    ensures
        match r {
            Ok(out) => generate_spec(*doc, DEPTH_LIMIT as nat) == Ok::<
                GeneratedClientV,
                GenErrorV,
            >(out.deep_view()),
            Err(e) => generate_spec(*doc, DEPTH_LIMIT as nat) == Err::<
                GeneratedClientV,
                GenErrorV,
            >(e.deep_view()),
        },
{
    let empty_schemas: Vec<(String, crate::specs::RefOr<crate::specs::SchemaSpec>)> = Vec::new();
    let empty_responses: Vec<(String, crate::specs::RefOr<crate::specs::ResponseSpec>)> =
        Vec::new();
    let empty_bodies: Vec<(String, crate::specs::RefOr<crate::specs::RequestBodySpec>)> =
        Vec::new();
    proof {
        assert(empty_schemas@ =~= Seq::<
            (String, crate::specs::RefOr<crate::specs::SchemaSpec>),
        >::empty());
        assert(empty_responses@ =~= Seq::<
            (String, crate::specs::RefOr<crate::specs::ResponseSpec>),
        >::empty());
        assert(empty_bodies@ =~= Seq::<
            (String, crate::specs::RefOr<crate::specs::RequestBodySpec>),
        >::empty());
    }
    let (schema_models, mut schema_skips) = match generate_models(
        match &doc.components {
            Option::None => &empty_schemas,
            Option::Some(c) => &c.schemas,
        },
    ) {
        Err(e) => {
            return Err(e);
        },
        Ok(out) => out,
    };
    let (response_models, mut response_skips) = match generate_response_models(
        match &doc.components {
            Option::None => &empty_responses,
            Option::Some(c) => &c.responses,
        },
    ) {
        Err(e) => {
            return Err(e);
        },
        Ok(out) => out,
    };
    let (request_models, mut request_skips) = match generate_request_models(
        match &doc.components {
            Option::None => &empty_bodies,
            Option::Some(c) => &c.request_bodies,
        },
    ) {
        Err(e) => {
            return Err(e);
        },
        Ok(out) => out,
    };
    if doc.servers.len() == 0 {
        return Err(GenError::NoServersDeclared);
    }
    let client_name = kebab_case(doc.info.title.as_str());
    let (services, mut service_skips) = match generate_services(
        client_name.as_str(),
        doc.servers[0].url.as_str(),
        &doc.tags,
        &doc.paths,
        DEPTH_LIMIT,
    ) {
        Err(e) => {
            return Err(e);
        },
        Ok(out) => out,
    };
    let schema_index = index_for(&schema_models);
    let response_index = index_for(&response_models);
    let request_index = index_for(&request_models);
    let service_index = service_index_for(&services);
    let mut skips: Vec<SkipNote> = Vec::new();
    let ghost ssk = schema_skips.deep_view();
    let ghost rsk = response_skips.deep_view();
    let ghost qsk = request_skips.deep_view();
    let ghost vsk = service_skips.deep_view();
    skips.append(&mut schema_skips);
    skips.append(&mut response_skips);
    skips.append(&mut request_skips);
    skips.append(&mut service_skips);
    let out = GeneratedClient {
        schema_models,
        schema_index,
        response_models,
        response_index,
        request_models,
        request_index,
        services,
        service_index,
        skips,
    };
    proof {
        let s = generate_spec(*doc, DEPTH_LIMIT as nat)->Ok_0;
        assert(out.deep_view().skips =~= s.skips);
        assert(out.deep_view() =~= s);
    }
    Ok(out)
}

/// The generator targeting the bundled client templates.
pub struct TypescriptGenerator;

impl Generator for TypescriptGenerator {
    fn generate(spec: &OpenApiSpec) -> Result<GeneratedClient, GenError> {
        generate_client(spec)
    }
}

} // verus!
