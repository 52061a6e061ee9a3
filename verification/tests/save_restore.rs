use xash3d::save_restore::{check_plain_attrs, EnumAttr, EnumAttrs, FieldAttrs, SaveMeta};

#[test]
fn field_attributes() {
    let attrs = vec![
        vec![SaveMeta::Rename("new_name".to_string()), SaveMeta::Alias("a1".to_string())],
        vec![SaveMeta::Alias("a2".to_string()), SaveMeta::Flatten, SaveMeta::Global],
        vec![SaveMeta::SkipSave],
    ];
    let a = match FieldAttrs::parse(&attrs) {
        Ok(a) => a,
        Err(_) => panic!("expected success"),
    };
    assert_eq!(a.rename.as_deref(), Some("new_name"));
    assert_eq!(a.alias, vec!["a1".to_string(), "a2".to_string()]);
    assert!(a.flatten && a.global && a.skip_save && !a.skip_restore);

    let skip = vec![vec![SaveMeta::Skip]];
    let a = match FieldAttrs::parse(&skip) {
        Ok(a) => a,
        Err(_) => panic!("expected success"),
    };
    assert!(a.skip_save && a.skip_restore);

    let none: Vec<Vec<SaveMeta>> = Vec::new();
    let a = match FieldAttrs::parse(&none) {
        Ok(a) => a,
        Err(_) => panic!("expected success"),
    };
    assert!(a.rename.is_none() && a.alias.is_empty() && !a.flatten);
}

#[test]
fn field_attribute_errors() {
    let attrs = vec![
        vec![SaveMeta::Flatten, SaveMeta::Invalid, SaveMeta::Global],
        vec![SaveMeta::Skip],
        vec![SaveMeta::Invalid],
    ];
    match FieldAttrs::parse(&attrs) {
        Ok(_) => panic!("expected errors"),
        Err(e) => assert_eq!(e, vec![0, 2]),
    }
}

#[test]
fn enum_attributes() {
    let attrs = vec![EnumAttr::Repr(Some("u8".to_string())), EnumAttr::Save(0), EnumAttr::Repr(Some("u16".to_string()))];
    match EnumAttrs::parse(&attrs) {
        Ok(a) => assert_eq!(a.repr.as_deref(), Some("u16")),
        Err(_) => panic!("expected success"),
    }
    let attrs = vec![EnumAttr::Repr(None), EnumAttr::Save(1), EnumAttr::Save(0)];
    match EnumAttrs::parse(&attrs) {
        Ok(_) => panic!("expected errors"),
        Err(e) => assert_eq!(e, vec![0, 1]),
    }
    match EnumAttrs::parse(&Vec::new()) {
        Ok(a) => assert!(a.repr.is_none()),
        Err(_) => panic!("expected success"),
    }
}

#[test]
fn struct_and_variant_attributes() {
    assert_eq!(check_plain_attrs(&vec![0, 2, 0, 1]), vec![1, 3]);
    assert!(check_plain_attrs(&vec![0, 0]).is_empty());
}

use xash3d::save_restore::{
    field_name, needs_where_bound, variant_discriminants, BoundKind, Discriminant, FieldName,
};

#[test]
fn discriminants() {
    assert_eq!(
        variant_discriminants(&[false, false, true, false, false, true]),
        vec![
            Discriminant::Offset(0),
            Discriminant::Offset(1),
            Discriminant::Base(2),
            Discriminant::BasePlus(2, 1),
            Discriminant::BasePlus(2, 2),
            Discriminant::Base(5),
        ]
    );
    assert!(variant_discriminants(&[]).is_empty());
}

#[test]
fn where_bounds_and_names() {
    assert!(needs_where_bound(&[false, true], &[false, false]));
    assert!(!needs_where_bound(&[false, true], &[false, true]));
    assert!(!needs_where_bound(&[], &[]));
    let mut a = FieldAttrs::new();
    assert!(!a.skipped_for(BoundKind::Save));
    assert!(!a.skipped_for(BoundKind::Restore));
    assert!(a.skipped_for(BoundKind::RestoreField));
    a.flatten = true;
    assert!(a.skipped_for(BoundKind::Restore));
    assert!(!a.skipped_for(BoundKind::RestoreField));
    a.skip_restore = true;
    assert!(a.skipped_for(BoundKind::RestoreWithDefault));
    assert!(!a.skipped_for(BoundKind::Save));
    assert_eq!(field_name(true, true, 3), FieldName::Renamed);
    assert_eq!(field_name(false, true, 3), FieldName::Ident);
    assert_eq!(field_name(false, false, 3), FieldName::Index(3));
}
