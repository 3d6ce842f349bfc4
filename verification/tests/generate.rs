use openapi_gen::generate::{generate_client, Generator, TemplateContext, TypescriptGenerator};
use openapi_gen::model::{GenError, Model, SkipNote};
use openapi_gen::specs::{
    ComponentsSpec, MediaTypeSpec, OpenApiInfoSpec, OpenApiSpec, OperationSpec, PathSpec, RefOr,
    RequestBodySpec, ResponseSpec, SchemaSpec, ServerSpec, TagSpec,
};

fn schema(schema_type: Option<&str>) -> SchemaSpec {
    SchemaSpec {
        schema_type: schema_type.map(|s| s.to_string()),
        description: String::new(),
        required: Vec::new(),
        schema_enum: Vec::new(),
        format: None,
        items: None,
        properties: Vec::new(),
    }
}

fn components() -> ComponentsSpec {
    ComponentsSpec {
        schemas: Vec::new(),
        responses: Vec::new(),
        parameters: Vec::new(),
        request_bodies: Vec::new(),
        headers: Vec::new(),
    }
}

fn empty_path() -> PathSpec {
    PathSpec {
        summary: None,
        description: None,
        get: None,
        post: None,
        put: None,
        patch: None,
        delete: None,
        head: None,
        trace: None,
        options: None,
    }
}

fn operation(id: &str, tags: &[&str]) -> OperationSpec {
    OperationSpec {
        tags: tags.iter().map(|t| t.to_string()).collect(),
        summary: None,
        operation_id: id.to_string(),
        parameters: Vec::new(),
        request_body: None,
        responses: Vec::new(),
        deprecated: false,
    }
}

fn sample_doc() -> OpenApiSpec {
    let mut comps = components();
    let mut widget = schema(Some("object"));
    widget.required = vec!["id".to_string()];
    widget.properties = vec![("id".to_string(), RefOr::Object(schema(Some("string"))))];
    let mut status = schema(Some("string"));
    status.schema_enum = vec!["OPEN".to_string(), "CLOSED".to_string()];
    comps.schemas = vec![
        ("Widget".to_string(), RefOr::Object(widget)),
        ("Status".to_string(), RefOr::Object(status)),
    ];
    let mut path = empty_path();
    path.get = Some(operation("listWidgets", &["Widgets"]));
    OpenApiSpec {
        openapi: "3.0.0".to_string(),
        info: OpenApiInfoSpec {
            title: "Widget Store".to_string(),
        },
        paths: vec![("/widgets".to_string(), path)],
        components: Some(comps),
        tags: vec![TagSpec {
            name: "Widgets".to_string(),
            description: String::new(),
        }],
        servers: vec![ServerSpec {
            url: "http://localhost/api".to_string(),
        }],
    }
}

#[test]
fn generating_twice_yields_byte_identical_output() {
    let doc1 = sample_doc();
    let doc2 = sample_doc();
    let r1 = generate_client(&doc1).unwrap();
    let r2 = generate_client(&doc2).unwrap();
    assert_eq!(r1, r2);
    assert_eq!(format!("{:?}", r1), format!("{:?}", r2));
}

#[test]
fn zero_declared_servers_is_fatal() {
    let mut doc = sample_doc();
    doc.servers = Vec::new();
    let r = generate_client(&doc);
    assert!(matches!(r, Err(GenError::NoServersDeclared)));
}

#[test]
fn schema_artifacts_and_index_are_generated_in_order() {
    let doc = sample_doc();
    let out = generate_client(&doc).unwrap();
    assert_eq!(out.schema_models.len(), 2);
    match &out.schema_models[0].root {
        Model::Struct { name, .. } => assert_eq!(name, "Widget"),
        other => panic!("expected a struct, got {:?}", other),
    }
    match &out.schema_models[1].root {
        Model::Enum { name, .. } => assert_eq!(name, "Status"),
        other => panic!("expected an enum, got {:?}", other),
    }
    let index = out.schema_index.expect("an index for a non-empty group");
    assert_eq!(index.exports, vec!["widget".to_string(), "status".to_string()]);
    assert!(out.response_index.is_none());
    assert!(out.request_index.is_none());
}

#[test]
fn service_artifacts_and_index_use_kebab_cased_names() {
    let doc = sample_doc();
    let out = generate_client(&doc).unwrap();
    assert_eq!(out.services.len(), 1);
    assert_eq!(out.services[0].name, "WidgetsService");
    // the client name is derived from the document title
    assert_eq!(out.services[0].client_name_kebab, "widget-store");
    assert_eq!(out.services[0].client_name_pascal, "WidgetStore");
    assert_eq!(out.service_index.exports, vec!["widgets-service.ts".to_string()]);
}

#[test]
fn artifact_filenames_come_from_kebab_cased_root_names() {
    let doc = sample_doc();
    let out = generate_client(&doc).unwrap();
    assert_eq!(out.schema_models[0].filename(), "widget.ts");
    assert_eq!(out.schema_models[0].template(), "model.tera");
    assert_eq!(out.services[0].filename(), "widgets-service.ts");
    assert_eq!(out.services[0].template(), "service.tera");
    assert_eq!(out.service_index.filename(), "index.ts");
    assert_eq!(out.service_index.template(), "index.tera");
}

#[test]
fn top_level_reference_schema_is_skipped_entirely() {
    let mut doc = sample_doc();
    let comps = doc.components.as_mut().unwrap();
    comps.schemas.push((
        "PetAlias".to_string(),
        RefOr::Ref {
            ref_path: "#/components/schemas/Pet".to_string(),
        },
    ));
    let out = generate_client(&doc).unwrap();
    // still only the two real schemas; the bare reference makes no artifact
    assert_eq!(out.schema_models.len(), 2);
    assert!(out
        .skips
        .iter()
        .any(|s| matches!(s, SkipNote::TopLevelReference { name } if name == "PetAlias")));
}

#[test]
fn schema_resolving_to_nothing_is_logged_and_skipped() {
    let mut doc = sample_doc();
    let comps = doc.components.as_mut().unwrap();
    comps.schemas.push(("Opaque".to_string(), RefOr::Object(schema(None))));
    let out = generate_client(&doc).unwrap();
    assert_eq!(out.schema_models.len(), 2);
    assert!(out
        .skips
        .iter()
        .any(|s| matches!(s, SkipNote::NoDescriptors { name } if name == "Opaque")));
}

#[test]
fn the_generator_trait_runs_the_whole_pipeline() {
    let doc = sample_doc();
    let out = TypescriptGenerator::generate(&doc).unwrap();
    assert_eq!(out.services.len(), 1);
    assert_eq!(out.schema_models.len(), 2);
}

#[test]
fn documents_without_components_generate_services_only() {
    let mut doc = sample_doc();
    doc.components = None;
    let out = generate_client(&doc).unwrap();
    assert!(out.schema_models.is_empty());
    assert!(out.schema_index.is_none());
    assert_eq!(out.services.len(), 1);
}

#[test]
fn responses_and_request_bodies_with_json_content_become_models() {
    let mut doc = sample_doc();
    let comps = doc.components.as_mut().unwrap();
    comps.responses = vec![
        (
            "WidgetPage".to_string(),
            RefOr::Object(ResponseSpec {
                description: None,
                headers: Vec::new(),
                content: vec![(
                    "application/json".to_string(),
                    MediaTypeSpec {
                        schema: RefOr::Object(schema(Some("string"))),
                    },
                )],
            }),
        ),
        (
            "NoBody".to_string(),
            RefOr::Object(ResponseSpec {
                description: None,
                headers: Vec::new(),
                content: Vec::new(),
            }),
        ),
    ];
    comps.request_bodies = vec![(
        "NewWidget".to_string(),
        RefOr::Object(RequestBodySpec {
            description: None,
            content: vec![(
                "application/json".to_string(),
                MediaTypeSpec {
                    schema: RefOr::Object(schema(Some("number"))),
                },
            )],
            required: true,
        }),
    )];
    let out = generate_client(&doc).unwrap();
    // the response without a JSON body is passed over without a trace
    assert_eq!(out.response_models.len(), 1);
    match &out.response_models[0].root {
        Model::Alias { name, alias, .. } => {
            assert_eq!(name, "WidgetPage");
            assert_eq!(alias, "string");
        }
        other => panic!("expected an alias, got {:?}", other),
    }
    assert_eq!(
        out.response_index.as_ref().unwrap().exports,
        vec!["widget-page".to_string()]
    );
    assert_eq!(out.request_models.len(), 1);
    assert_eq!(
        out.request_index.as_ref().unwrap().exports,
        vec!["new-widget".to_string()]
    );
}
