use openapi_gen::imports::group_imports;
use openapi_gen::model::Import;

fn imp(ty: &str, file: &str) -> Import {
    Import {
        import_type: ty.to_string(),
        file: file.to_string(),
    }
}

#[test]
fn duplicate_type_names_for_one_module_are_deduplicated() {
    let records = vec![
        imp("Pet", "schemas"),
        imp("Pet", "schemas"),
        imp("Order", "schemas"),
        imp("Pet", "schemas"),
    ];
    let grouped = group_imports(&records);
    assert_eq!(grouped.len(), 1);
    assert_eq!(grouped[0].file, "schemas");
    assert_eq!(grouped[0].types, vec!["Pet".to_string(), "Order".to_string()]);
}

#[test]
fn one_group_per_distinct_module_key() {
    let records = vec![
        imp("Pet", "schemas"),
        imp("NewOrder", "request-bodies"),
        imp("Order", "schemas"),
    ];
    let grouped = group_imports(&records);
    assert_eq!(grouped.len(), 2);
    assert_eq!(grouped[0].file, "schemas");
    assert_eq!(grouped[0].types, vec!["Pet".to_string(), "Order".to_string()]);
    assert_eq!(grouped[1].file, "request-bodies");
    assert_eq!(grouped[1].types, vec!["NewOrder".to_string()]);
}

#[test]
fn no_records_group_to_nothing() {
    let grouped = group_imports(&Vec::new());
    assert!(grouped.is_empty());
}

#[test]
fn same_type_name_in_two_modules_stays_in_both() {
    let records = vec![imp("Pet", "schemas"), imp("Pet", "responses")];
    let grouped = group_imports(&records);
    assert_eq!(grouped.len(), 2);
    assert_eq!(grouped[0].types, vec!["Pet".to_string()]);
    assert_eq!(grouped[1].types, vec!["Pet".to_string()]);
}

#[test]
fn grouping_is_deterministic() {
    let records = vec![
        imp("Pet", "schemas"),
        imp("NewOrder", "request-bodies"),
        imp("Pet", "schemas"),
    ];
    let g1 = group_imports(&records);
    let g2 = group_imports(&records);
    assert_eq!(g1, g2);
}
