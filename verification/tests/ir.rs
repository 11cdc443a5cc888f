use sio2::ir::{AttrOption, Data, Fields, InputAttrs, IrError, OptionName, Shape, UnnamedField, Variant, Variants};

fn variant(name: &str) -> Variant {
    Variant { ident: name.to_string(), fields: Fields::Unit }
}

#[test]
fn enums_need_a_variant() {
    assert!(matches!(Variants::from_variants(Vec::new()), Err(IrError::NoVariants)));
    assert_eq!(IrError::NoVariants.message(), "enums must have at least 1 variant");
}

#[test]
fn enums_take_at_most_255_variants() {
    let ok: Vec<Variant> = (0..255).map(|i| variant(&format!("V{i}"))).collect();
    let variants = Variants::from_variants(ok).unwrap();
    assert_eq!(variants.discriminant(0), 0);
    assert_eq!(variants.discriminant(254), 254);
    assert_eq!(variants.variant_of(254), Some(254));
    assert_eq!(variants.variant_of(255), None);

    let too_many: Vec<Variant> = (0..256).map(|i| variant(&format!("V{i}"))).collect();
    assert!(matches!(Variants::from_variants(too_many), Err(IrError::TooManyVariants)));
    assert_eq!(IrError::TooManyVariants.message(), "enums cannot have more than 255 variants");
}

#[test]
fn unions_are_refused() {
    assert!(matches!(Data::from_shape(Shape::Union), Err(IrError::Union)));
    assert_eq!(IrError::Union.message(), "unions are not supported");
    let fields = Fields::Unnamed(vec![UnnamedField, UnnamedField]);
    assert!(matches!(Data::from_shape(Shape::Struct(fields)), Ok(Data::Struct(_))));
    let variants = vec![variant("A"), variant("B")];
    match Data::from_shape(Shape::Enum(variants)) {
        Ok(Data::Enum(e)) => assert_eq!(e.variants.0.len(), 2),
        _ => panic!("expected an enum"),
    }
}

#[test]
fn later_options_win() {
    let attrs = InputAttrs::from_options(vec![
        AttrOption::Crate("::sio2".to_string()),
        AttrOption::Other,
        AttrOption::Borrow("'buf".to_string()),
        AttrOption::Crate("silica".to_string()),
    ]);
    assert_eq!(attrs.krate.as_deref(), Some("silica"));
    assert_eq!(attrs.borrow.as_deref(), Some("'buf"));
    let none = InputAttrs::from_options(vec![AttrOption::Other]);
    assert!(none.krate.is_none() && none.borrow.is_none());
}

#[test]
fn option_names() {
    assert_eq!(OptionName::of(&"crate".to_string()), OptionName::Crate);
    assert_eq!(OptionName::of(&"borrow".to_string()), OptionName::Borrow);
    assert_eq!(OptionName::of(&"other".to_string()), OptionName::Other);
    assert_eq!(OptionName::of(&"Crate".to_string()), OptionName::Other);
}

#[test]
fn default_paths() {
    let none = InputAttrs { krate: None, borrow: None };
    assert_eq!(none.krate_path(), "::sio2");
    assert_eq!(none.borrow_lifetime(), "'_");
    let some = InputAttrs { krate: Some("silica".to_string()), borrow: Some("'buf".to_string()) };
    assert_eq!(some.krate_path(), "silica");
    assert_eq!(some.borrow_lifetime(), "'buf");
}

#[test]
fn only_sio2_attributes_hold_options() {
    assert!(sio2::ir::is_options_attribute(&"sio2".to_string()));
    assert!(!sio2::ir::is_options_attribute(&"serde".to_string()));
    assert!(!sio2::ir::is_options_attribute(&"sio".to_string()));
}

#[test]
fn struct_shape_keeps_its_fields() {
    let fields = Fields::Named(vec![sio2::ir::NamedField { ident: "x".to_string() }]);
    match Data::from_shape(Shape::Struct(fields)) {
        Ok(Data::Struct(s)) => match s.fields {
            Fields::Named(fs) => {
                assert_eq!(fs.len(), 1);
                assert_eq!(fs[0].ident, "x");
            }
            _ => panic!("expected named fields"),
        },
        _ => panic!("expected a struct"),
    }
}
