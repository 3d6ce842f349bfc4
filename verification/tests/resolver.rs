use openapi_gen::model::{GenError, Model, SkipNote};
use openapi_gen::resolve::{generate_model, get_ref, DEPTH_LIMIT};
use openapi_gen::specs::{RefOr, SchemaSpec};

fn schema(schema_type: Option<&str>) -> SchemaSpec {
    SchemaSpec {
        schema_type: schema_type.map(|s| s.to_string()),
        description: String::new(),
        required: Vec::new(),
        schema_enum: Vec::new(),
        format: None,
        items: None,
        properties: Vec::new(),
    }
}

fn string_schema() -> SchemaSpec {
    schema(Some("string"))
}

#[test]
fn primitive_string_schema_is_alias_to_string() {
    let node = RefOr::Object(string_schema());
    let r = generate_model("Name", &node, None, DEPTH_LIMIT).unwrap();
    assert_eq!(r.models.len(), 1);
    assert_eq!(
        r.models[0],
        (
            None,
            Model::Alias {
                name: "Name".to_string(),
                alias: "string".to_string(),
                is_array: false,
            }
        )
    );
    assert!(r.imports.is_empty());
    assert!(r.skips.is_empty());
}

#[test]
fn primitive_number_schema_is_alias_to_number() {
    let node = RefOr::Object(schema(Some("number")));
    let r = generate_model("Age", &node, None, DEPTH_LIMIT).unwrap();
    assert_eq!(r.models.len(), 1);
    match &r.models[0].1 {
        Model::Alias { name, alias, is_array } => {
            assert_eq!(name, "Age");
            assert_eq!(alias, "number");
            assert!(!is_array);
        }
        other => panic!("expected an alias, got {:?}", other),
    }
}

#[test]
fn string_enum_keeps_every_literal_in_order() {
    let mut s = string_schema();
    s.schema_enum = vec!["OPEN".to_string(), "CLOSED".to_string(), "HELD".to_string()];
    let node = RefOr::Object(s);
    let r = generate_model("Status", &node, None, DEPTH_LIMIT).unwrap();
    assert_eq!(r.models.len(), 1);
    match &r.models[0].1 {
        Model::Enum { name, variants } => {
            assert_eq!(name, "Status");
            assert_eq!(variants.len(), 3);
            let literals = ["OPEN", "CLOSED", "HELD"];
            for (v, lit) in variants.iter().zip(literals.iter()) {
                assert_eq!(v.name, *lit);
                assert_eq!(v.value, v.name);
            }
        }
        other => panic!("expected an enum, got {:?}", other),
    }
}

#[test]
fn enum_without_declared_type_is_supported() {
    let mut s = schema(None);
    s.schema_enum = vec!["A".to_string()];
    let r = generate_model("Kind", &RefOr::Object(s), None, DEPTH_LIMIT).unwrap();
    assert_eq!(r.models.len(), 1);
    assert!(matches!(r.models[0].1, Model::Enum { .. }));
}

#[test]
fn number_enum_is_skipped_with_a_note() {
    let mut s = schema(Some("number"));
    s.schema_enum = vec!["1".to_string(), "2".to_string()];
    let r = generate_model("Code", &RefOr::Object(s), None, DEPTH_LIMIT).unwrap();
    assert!(r.models.is_empty());
    assert_eq!(r.skips.len(), 1);
    match &r.skips[0] {
        SkipNote::SchemaUnsupported { name, declared } => {
            assert_eq!(name, "Code");
            assert_eq!(declared, "number");
        }
        other => panic!("expected an unsupported-schema note, got {:?}", other),
    }
}

#[test]
fn reference_yields_one_alias_and_one_import() {
    let node: RefOr<SchemaSpec> = RefOr::Ref {
        ref_path: "#/components/schemas/Pet".to_string(),
    };
    let r = generate_model("Companion", &node, None, DEPTH_LIMIT).unwrap();
    assert_eq!(r.models.len(), 1);
    match &r.models[0].1 {
        Model::Alias { name, alias, is_array } => {
            assert_eq!(name, "Companion");
            assert_eq!(alias, "Pet");
            assert!(!is_array);
        }
        other => panic!("expected an alias, got {:?}", other),
    }
    assert_eq!(r.imports.len(), 1);
    assert_eq!(r.imports[0].import_type, "Pet");
    assert_eq!(r.imports[0].file, "schemas");
}

#[test]
fn reference_module_segment_is_kebab_cased() {
    // requestBodies -> request-bodies: the module key really is converted
    let (ty, import) = get_ref(&"#/components/requestBodies/newOrder".to_string()).unwrap();
    assert_eq!(ty, "newOrder");
    assert_eq!(import.file, "request-bodies");
    assert_eq!(import.import_type, "NewOrder");
}

#[test]
fn short_reference_path_is_rejected() {
    let node: RefOr<SchemaSpec> = RefOr::Ref {
        ref_path: "#/bad".to_string(),
    };
    let r = generate_model("Broken", &node, None, DEPTH_LIMIT);
    match r {
        Err(GenError::InvalidReference { path }) => assert_eq!(path, "#/bad"),
        other => panic!("expected an invalid-reference error, got {:?}", other),
    }
}

#[test]
fn array_without_items_is_a_logged_skip_not_an_error() {
    let s = schema(Some("array"));
    let r = generate_model("Tags", &RefOr::Object(s), None, DEPTH_LIMIT).unwrap();
    assert!(r.models.is_empty());
    assert!(r.imports.is_empty());
    assert_eq!(r.skips.len(), 1);
    match &r.skips[0] {
        SkipNote::MissingItemsSchema { name } => assert_eq!(name, "Tags"),
        other => panic!("expected a missing-items note, got {:?}", other),
    }
}

#[test]
fn array_of_strings_collapses_to_a_string_alias() {
    let mut s = schema(Some("array"));
    s.items = Some(Box::new(RefOr::Object(string_schema())));
    let r = generate_model("Tags", &RefOr::Object(s), None, DEPTH_LIMIT).unwrap();
    assert_eq!(r.models.len(), 1);
    assert_eq!(
        r.models[0],
        (
            None,
            Model::Alias {
                name: "Tags".to_string(),
                alias: "string".to_string(),
                is_array: true,
            }
        )
    );
}

#[test]
fn array_of_objects_references_the_item_by_qualified_path() {
    let mut item = schema(Some("object"));
    item.properties = vec![("id".to_string(), RefOr::Object(string_schema()))];
    let mut s = schema(Some("array"));
    s.items = Some(Box::new(RefOr::Object(item)));
    let r = generate_model("orders", &RefOr::Object(s), None, DEPTH_LIMIT).unwrap();
    assert_eq!(r.models.len(), 2);
    match &r.models[0].1 {
        Model::Alias { alias, is_array, .. } => {
            // the array root namespace is the pascal-cased array name
            assert_eq!(alias, "Orders.Item");
            assert!(is_array);
        }
        other => panic!("expected an alias, got {:?}", other),
    }
    // the item struct lives in the array's namespace
    assert_eq!(r.models[1].0.as_deref(), Some("Orders"));
    match &r.models[1].1 {
        Model::Struct { name, fields } => {
            assert_eq!(name, "Item");
            assert_eq!(fields.len(), 1);
        }
        other => panic!("expected a struct, got {:?}", other),
    }
}

#[test]
fn nested_arrays_are_fatal() {
    let mut inner = schema(Some("array"));
    inner.items = Some(Box::new(RefOr::Object(string_schema())));
    let mut s = schema(Some("array"));
    s.items = Some(Box::new(RefOr::Object(inner)));
    let r = generate_model("Matrix", &RefOr::Object(s), None, DEPTH_LIMIT);
    assert!(matches!(r, Err(GenError::NestedArray { .. })));
}

#[test]
fn widget_object_resolves_to_expected_fields() {
    // Widget = {type: object, required: [id],
    //           properties: {id: string, tags: array of string}}
    let mut tags = schema(Some("array"));
    tags.items = Some(Box::new(RefOr::Object(string_schema())));
    let mut widget = schema(Some("object"));
    widget.required = vec!["id".to_string()];
    widget.properties = vec![
        ("id".to_string(), RefOr::Object(string_schema())),
        ("tags".to_string(), RefOr::Object(tags)),
    ];
    let r = generate_model("Widget", &RefOr::Object(widget), None, DEPTH_LIMIT).unwrap();
    assert_eq!(r.models.len(), 1, "no nested descriptors expected");
    assert!(r.imports.is_empty());
    match &r.models[0].1 {
        Model::Struct { name, fields } => {
            assert_eq!(name, "Widget");
            assert_eq!(fields.len(), 2);
            assert_eq!(fields[0].name, "id");
            assert_eq!(fields[0].field_type, "string");
            assert!(fields[0].required);
            assert!(!fields[0].is_array);
            assert_eq!(fields[1].name, "tags");
            assert_eq!(fields[1].field_type, "string");
            assert!(!fields[1].required);
            assert!(fields[1].is_array);
        }
        other => panic!("expected a struct, got {:?}", other),
    }
}

#[test]
fn object_property_names_are_pascal_cased_in_namespaces() {
    // a nested enum under property "sort_order" is namespaced Owner.SortOrder
    let mut inner = string_schema();
    inner.schema_enum = vec!["ASC".to_string()];
    let mut s = schema(Some("object"));
    s.properties = vec![("sort_order".to_string(), RefOr::Object(inner))];
    let r = generate_model("query", &RefOr::Object(s), None, DEPTH_LIMIT).unwrap();
    assert_eq!(r.models.len(), 2);
    match &r.models[0].1 {
        Model::Struct { fields, .. } => {
            assert_eq!(fields[0].name, "sort_order");
            assert_eq!(fields[0].field_type, "Query.SortOrder");
        }
        other => panic!("expected a struct, got {:?}", other),
    }
    assert_eq!(r.models[1].0.as_deref(), Some("Query"));
    match &r.models[1].1 {
        Model::Enum { name, .. } => assert_eq!(name, "SortOrder"),
        other => panic!("expected an enum, got {:?}", other),
    }
}

#[test]
fn property_without_a_descriptor_is_skipped_with_a_note() {
    let mut s = schema(Some("object"));
    s.properties = vec![("blob".to_string(), RefOr::Object(schema(Some("binary"))))];
    let r = generate_model("Holder", &RefOr::Object(s), None, DEPTH_LIMIT).unwrap();
    match &r.models[0].1 {
        Model::Struct { fields, .. } => assert!(fields.is_empty()),
        other => panic!("expected a struct, got {:?}", other),
    }
    assert_eq!(r.skips.len(), 1);
    match &r.skips[0] {
        SkipNote::NoDescriptors { name } => assert_eq!(name, "Holder.Blob"),
        other => panic!("expected a no-descriptors note, got {:?}", other),
    }
}

#[test]
fn unknown_type_resolves_to_nothing() {
    let r = generate_model("Mystery", &RefOr::Object(schema(Some("binary"))), None, DEPTH_LIMIT)
        .unwrap();
    assert!(r.models.is_empty());
    assert!(r.imports.is_empty());
    assert!(r.skips.is_empty());
}

#[test]
fn nesting_beyond_the_limit_is_fatal() {
    let mut node = string_schema();
    for _ in 0..(DEPTH_LIMIT + 1) {
        let mut outer = schema(Some("object"));
        outer.properties = vec![("inner".to_string(), RefOr::Object(node))];
        node = outer;
    }
    let r = generate_model("Deep", &RefOr::Object(node), None, DEPTH_LIMIT);
    assert!(matches!(r, Err(GenError::RecursionLimitExceeded { .. })));
}

#[test]
fn resolution_is_deterministic() {
    let mut tags = schema(Some("array"));
    tags.items = Some(Box::new(RefOr::Object(string_schema())));
    let mut widget = schema(Some("object"));
    widget.required = vec!["id".to_string()];
    widget.properties = vec![
        ("id".to_string(), RefOr::Object(string_schema())),
        ("tags".to_string(), RefOr::Object(tags)),
    ];
    let node = RefOr::Object(widget);
    let r1 = generate_model("Widget", &node, None, DEPTH_LIMIT).unwrap();
    let r2 = generate_model("Widget", &node, None, DEPTH_LIMIT).unwrap();
    assert_eq!(format!("{:?}", r1.models), format!("{:?}", r2.models));
    assert_eq!(format!("{:?}", r1.imports), format!("{:?}", r2.imports));
}

#[test]
fn array_of_references_collapses_and_keeps_the_import() {
    let mut s = schema(Some("array"));
    s.items = Some(Box::new(RefOr::Ref {
        ref_path: "#/components/schemas/Pet".to_string(),
    }));
    let r = generate_model("Pets", &RefOr::Object(s), None, DEPTH_LIMIT).unwrap();
    assert_eq!(r.models.len(), 1);
    assert_eq!(
        r.models[0],
        (
            None,
            Model::Alias {
                name: "Pets".to_string(),
                alias: "Pet".to_string(),
                is_array: true,
            }
        )
    );
    assert_eq!(r.imports.len(), 1);
    assert_eq!(r.imports[0].import_type, "Pet");
    assert_eq!(r.imports[0].file, "schemas");
}
