use openapi_gen::model::{GenError, Model, SkipNote};
use openapi_gen::resolve::DEPTH_LIMIT;
use openapi_gen::services::{build_endpoint, generate_services};
use openapi_gen::specs::{
    MediaTypeSpec, OperationSpec, ParamSpec, PathSpec, RefOr, RequestBodySpec, SchemaSpec, TagSpec,
};

fn schema(schema_type: Option<&str>) -> SchemaSpec {
    SchemaSpec {
        schema_type: schema_type.map(|s| s.to_string()),
        description: String::new(),
        required: Vec::new(),
        schema_enum: Vec::new(),
        format: None,
        items: None,
        properties: Vec::new(),
    }
}

fn operation(id: &str, tags: &[&str]) -> OperationSpec {
    OperationSpec {
        tags: tags.iter().map(|t| t.to_string()).collect(),
        summary: None,
        operation_id: id.to_string(),
        parameters: Vec::new(),
        request_body: None,
        responses: Vec::new(),
        deprecated: false,
    }
}

fn empty_path() -> PathSpec {
    PathSpec {
        summary: None,
        description: None,
        get: None,
        post: None,
        put: None,
        patch: None,
        delete: None,
        head: None,
        trace: None,
        options: None,
    }
}

fn tag(name: &str) -> TagSpec {
    TagSpec {
        name: name.to_string(),
        description: String::new(),
    }
}

#[test]
fn tagged_query_enum_parameter_gets_qualified_type_and_nested_enum() {
    let mut status = schema(Some("string"));
    status.schema_enum = vec!["OPEN".to_string(), "CLOSED".to_string()];
    let mut op = operation("getOrders", &["Orders"]);
    op.parameters = vec![ParamSpec {
        name: "status".to_string(),
        location: "query".to_string(),
        description: None,
        required: true,
        deprecated: false,
        schema: RefOr::Object(status),
    }];
    let built = build_endpoint(&"/orders".to_string(), "get", &op, DEPTH_LIMIT)
        .unwrap()
        .unwrap();
    assert_eq!(built.tag, "Orders");
    assert_eq!(built.endpoint.query_params.len(), 1);
    let f = &built.endpoint.query_params[0];
    assert_eq!(f.name, "status");
    assert_eq!(f.field_type, "Orders.GetOrders.Status");
    assert!(f.required);
    assert!(!f.is_array);
    // the enum descriptor itself is retained, namespaced to the operation
    assert_eq!(built.models.len(), 1);
    assert_eq!(built.models[0].0.as_deref(), Some("Orders.GetOrders"));
    match &built.models[0].1 {
        Model::Enum { name, variants } => {
            assert_eq!(name, "Status");
            assert_eq!(variants.len(), 2);
            assert_eq!(variants[0].name, "OPEN");
            assert_eq!(variants[1].name, "CLOSED");
        }
        other => panic!("expected an enum, got {:?}", other),
    }
}

#[test]
fn untagged_operation_builds_no_endpoint() {
    let op = operation("orphan", &[]);
    let built = build_endpoint(&"/x".to_string(), "get", &op, DEPTH_LIMIT).unwrap();
    assert!(built.is_none());
}

#[test]
fn untagged_operation_is_logged_not_silently_dropped() {
    let mut path = empty_path();
    path.get = Some(operation("orphan", &[]));
    let (services, skips) = generate_services(
        "demo-client",
        "http://localhost/v1",
        &vec![tag("Orders")],
        &vec![("/x".to_string(), path)],
        DEPTH_LIMIT,
    )
    .unwrap();
    // the operation appears in no service artifact
    assert_eq!(services.len(), 1);
    assert!(services[0].endpoints.is_empty());
    // but leaves a trace in the log
    assert_eq!(skips.len(), 1);
    match &skips[0] {
        SkipNote::UntaggedOperation { operation_id, method } => {
            assert_eq!(operation_id, "orphan");
            assert_eq!(method, "get");
        }
        other => panic!("expected an untagged-operation note, got {:?}", other),
    }
}

#[test]
fn parameters_are_classified_by_location() {
    let mut op = operation("findPet", &["Pets"]);
    let param = |name: &str, loc: &str| ParamSpec {
        name: name.to_string(),
        location: loc.to_string(),
        description: None,
        required: false,
        deprecated: false,
        schema: RefOr::Object(schema(Some("string"))),
    };
    op.parameters = vec![
        param("id", "path"),
        param("verbose", "query"),
        param("token", "header"),
    ];
    let built = build_endpoint(&"/pets/{id}".to_string(), "get", &op, DEPTH_LIMIT)
        .unwrap()
        .unwrap();
    assert_eq!(built.endpoint.path_params.len(), 1);
    assert_eq!(built.endpoint.path_params[0].name, "id");
    assert_eq!(built.endpoint.path_params[0].field_type, "string");
    assert_eq!(built.endpoint.query_params.len(), 1);
    assert_eq!(built.endpoint.query_params[0].name, "verbose");
    assert_eq!(built.endpoint.header_params.len(), 1);
    assert_eq!(built.endpoint.header_params[0].name, "token");
    assert_eq!(built.endpoint.method, "get");
    assert_eq!(built.endpoint.path, "/pets/{id}");
    assert_eq!(built.endpoint.return_type, "undefined");
}

#[test]
fn unknown_parameter_location_is_fatal() {
    let mut op = operation("findPet", &["Pets"]);
    op.parameters = vec![ParamSpec {
        name: "session".to_string(),
        location: "cookie".to_string(),
        description: None,
        required: false,
        deprecated: false,
        schema: RefOr::Object(schema(Some("string"))),
    }];
    let r = build_endpoint(&"/pets".to_string(), "get", &op, DEPTH_LIMIT);
    match r {
        Err(GenError::UnknownParameterLocation { operation_id, name, location }) => {
            assert_eq!(operation_id, "findPet");
            assert_eq!(name, "session");
            assert_eq!(location, "cookie");
        }
        other => panic!("expected an unknown-location error, got {:?}", other),
    }
}

#[test]
fn request_body_without_json_content_is_fatal() {
    let mut op = operation("createPet", &["Pets"]);
    op.request_body = Some(RefOr::Object(RequestBodySpec {
        description: None,
        content: vec![(
            "text/plain".to_string(),
            MediaTypeSpec {
                schema: RefOr::Object(schema(Some("string"))),
            },
        )],
        required: true,
    }));
    let r = build_endpoint(&"/pets".to_string(), "post", &op, DEPTH_LIMIT);
    match r {
        Err(GenError::MissingRequestBody { operation_id }) => {
            assert_eq!(operation_id, "createPet")
        }
        other => panic!("expected a missing-body error, got {:?}", other),
    }
}

#[test]
fn json_request_body_becomes_the_body_field() {
    let mut op = operation("createPet", &["Pets"]);
    op.request_body = Some(RefOr::Object(RequestBodySpec {
        description: None,
        content: vec![(
            "application/json".to_string(),
            MediaTypeSpec {
                schema: RefOr::Ref {
                    ref_path: "#/components/schemas/NewPet".to_string(),
                },
            },
        )],
        required: true,
    }));
    let built = build_endpoint(&"/pets".to_string(), "post", &op, DEPTH_LIMIT)
        .unwrap()
        .unwrap();
    let body = built.endpoint.body_param.expect("a body field");
    assert_eq!(body.name, "NewPet");
    assert_eq!(body.field_type, "NewPet");
    assert!(body.required);
    assert!(!body.is_array);
    assert_eq!(built.imports.len(), 1);
    assert_eq!(built.imports[0].import_type, "NewPet");
    assert_eq!(built.imports[0].file, "schemas");
}

#[test]
fn operation_with_undeclared_tag_is_fatal() {
    let mut path = empty_path();
    path.get = Some(operation("listPets", &["Unlisted"]));
    let r = generate_services(
        "demo-client",
        "http://localhost/v1",
        &vec![tag("Orders")],
        &vec![("/pets".to_string(), path)],
        DEPTH_LIMIT,
    );
    match r {
        Err(GenError::UnknownTag { tag }) => assert_eq!(tag, "Unlisted"),
        other => panic!("expected an unknown-tag error, got {:?}", other),
    }
}

#[test]
fn one_service_per_declared_tag_with_endpoints_in_discovery_order() {
    let mut pets = empty_path();
    pets.get = Some(operation("listPets", &["Pets"]));
    pets.post = Some(operation("createPet", &["Pets"]));
    let mut orders = empty_path();
    orders.get = Some(operation("listOrders", &["Orders"]));
    let (services, skips) = generate_services(
        "pet-store",
        "http://localhost/v1",
        &vec![tag("Orders"), tag("Pets")],
        &vec![
            ("/orders".to_string(), orders),
            ("/pets".to_string(), pets),
        ],
        DEPTH_LIMIT,
    )
    .unwrap();
    assert!(skips.is_empty());
    assert_eq!(services.len(), 2);
    // services come out in declared tag order
    assert_eq!(services[0].name, "OrdersService");
    assert_eq!(services[1].name, "PetsService");
    assert_eq!(services[0].base_path, "http://localhost/v1");
    assert_eq!(services[0].client_name_pascal, "PetStore");
    assert_eq!(services[0].client_name_kebab, "pet-store");
    assert_eq!(services[0].endpoints.len(), 1);
    assert_eq!(services[0].endpoints[0].name, "listOrders");
    // methods of one path fold in the fixed method order
    assert_eq!(services[1].endpoints.len(), 2);
    assert_eq!(services[1].endpoints[0].name, "listPets");
    assert_eq!(services[1].endpoints[1].name, "createPet");
}

#[test]
fn service_imports_are_grouped_and_deduplicated() {
    let body = |target: &str| {
        Some(RefOr::Object(RequestBodySpec {
            description: None,
            content: vec![(
                "application/json".to_string(),
                MediaTypeSpec {
                    schema: RefOr::Ref {
                        ref_path: format!("#/components/schemas/{}", target),
                    },
                },
            )],
            required: true,
        }))
    };
    let mut path = empty_path();
    let mut post = operation("createPet", &["Pets"]);
    post.request_body = body("NewPet");
    let mut put = operation("replacePet", &["Pets"]);
    put.request_body = body("NewPet");
    path.post = Some(post);
    path.put = Some(put);
    let (services, _) = generate_services(
        "pet-store",
        "http://localhost/v1",
        &vec![tag("Pets")],
        &vec![("/pets".to_string(), path)],
        DEPTH_LIMIT,
    )
    .unwrap();
    assert_eq!(services[0].imports.len(), 1);
    assert_eq!(services[0].imports[0].file, "schemas");
    assert_eq!(services[0].imports[0].types, vec!["NewPet".to_string()]);
}

#[test]
fn parameter_schema_resolving_to_nothing_is_fatal() {
    let mut op = operation("findPet", &["Pets"]);
    op.parameters = vec![ParamSpec {
        name: "filter".to_string(),
        location: "query".to_string(),
        description: None,
        required: false,
        deprecated: false,
        schema: RefOr::Object(schema(Some("binary"))),
    }];
    let r = build_endpoint(&"/pets".to_string(), "get", &op, DEPTH_LIMIT);
    match r {
        Err(GenError::EmptyResolution { name }) => assert_eq!(name, "Filter"),
        other => panic!("expected an empty-resolution error, got {:?}", other),
    }
}

#[test]
fn request_body_schema_resolving_to_nothing_is_fatal() {
    let mut op = operation("createPet", &["Pets"]);
    op.request_body = Some(RefOr::Object(RequestBodySpec {
        description: None,
        content: vec![(
            "application/json".to_string(),
            MediaTypeSpec {
                schema: RefOr::Object(schema(Some("binary"))),
            },
        )],
        required: true,
    }));
    let r = build_endpoint(&"/pets".to_string(), "post", &op, DEPTH_LIMIT);
    match r {
        Err(GenError::EmptyResolution { name }) => assert_eq!(name, "CreatePetRequest"),
        other => panic!("expected an empty-resolution error, got {:?}", other),
    }
}

#[test]
fn array_typed_parameter_keeps_the_array_flag() {
    let mut items = schema(Some("array"));
    items.items = Some(Box::new(RefOr::Object(schema(Some("string")))));
    let mut op = operation("findPets", &["Pets"]);
    op.parameters = vec![ParamSpec {
        name: "ids".to_string(),
        location: "query".to_string(),
        description: None,
        required: false,
        deprecated: false,
        schema: RefOr::Object(items),
    }];
    let built = build_endpoint(&"/pets".to_string(), "get", &op, DEPTH_LIMIT)
        .unwrap()
        .unwrap();
    let f = &built.endpoint.query_params[0];
    assert_eq!(f.name, "ids");
    assert_eq!(f.field_type, "string");
    assert!(f.is_array);
}
