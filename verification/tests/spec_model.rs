use openapi_gen::specs::{RefOr, ServerSpec, TagSpec};

#[test]
fn map_cloned_passes_references_through() {
    let node: RefOr<ServerSpec> = RefOr::Ref {
        ref_path: "#/components/servers/main".to_string(),
    };
    let mapped: RefOr<TagSpec> = node.map_cloned(|_| {
        RefOr::Object(TagSpec {
            name: "unused".to_string(),
            description: String::new(),
        })
    });
    match mapped {
        RefOr::Ref { ref_path } => assert_eq!(ref_path, "#/components/servers/main"),
        RefOr::Object(_) => panic!("a reference must stay a reference"),
    }
}

#[test]
fn map_cloned_applies_the_function_to_inline_values() {
    let node: RefOr<ServerSpec> = RefOr::Object(ServerSpec {
        url: "http://localhost/v1".to_string(),
    });
    let mapped: RefOr<TagSpec> = node.map_cloned(|server| {
        RefOr::Object(TagSpec {
            name: server.url,
            description: String::new(),
        })
    });
    match mapped {
        RefOr::Object(t) => assert_eq!(t.name, "http://localhost/v1"),
        RefOr::Ref { .. } => panic!("an inline value must be mapped"),
    }
}

#[test]
fn maybe_map_cloned_keeps_references_and_maps_values() {
    let r: RefOr<ServerSpec> = RefOr::Ref {
        ref_path: "#/components/servers/main".to_string(),
    };
    let kept: Option<RefOr<TagSpec>> = r.maybe_map_cloned(|_| None);
    assert!(matches!(kept, Some(RefOr::Ref { .. })));

    let o: RefOr<ServerSpec> = RefOr::Object(ServerSpec {
        url: String::new(),
    });
    let dropped: Option<RefOr<TagSpec>> = o.maybe_map_cloned(|server| {
        if server.url.is_empty() {
            None
        } else {
            Some(RefOr::Object(TagSpec {
                name: server.url,
                description: String::new(),
            }))
        }
    });
    assert!(dropped.is_none());
}
