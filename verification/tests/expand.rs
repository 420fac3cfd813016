use versioned_structs::{
    check_annotations, expand, generate, resolve, Annotation, ErrorKind, FieldIdentity, FieldSpec,
    GeneratedVariant, SchemaError, StructSpec, VersionRange,
};

fn directive(tokens: &str) -> Annotation {
    Annotation { path: vec!["versioned_field".to_string()], tokens: tokens.to_string() }
}

fn doc(text: &str) -> Annotation {
    Annotation { path: vec!["doc".to_string()], tokens: text.to_string() }
}

fn named(name: &str, ty: &str, annotations: Vec<Annotation>, range: Option<VersionRange>) -> FieldSpec {
    FieldSpec {
        identity: FieldIdentity::Named(name.to_string()),
        type_descriptor: ty.to_string(),
        annotations,
        version_range: range,
    }
}

fn plain(name: &str, ty: &str) -> FieldSpec {
    named(name, ty, vec![], None)
}

fn ranged(name: &str, ty: &str, from: usize, to: Option<usize>) -> FieldSpec {
    named(name, ty, vec![directive("(..)")], Some(VersionRange { from, to }))
}

fn schema(name: &str, fields: Vec<FieldSpec>) -> StructSpec {
    StructSpec { name: name.to_string(), fields }
}

fn hello_there() -> StructSpec {
    schema(
        "HelloThere",
        vec![
            plain("field_a", "bool"),
            ranged("field_b", "u32", 1, Some(3)),
            ranged("field_c", "String", 2, Some(2)),
            ranged("field_c", "i32", 3, None),
        ],
    )
}

fn names_of(variant: &StructSpec) -> Vec<(FieldIdentity, String)> {
    variant.fields.iter().map(|f| (f.identity.clone(), f.type_descriptor.clone())).collect()
}

fn field(name: &str, ty: &str) -> (FieldIdentity, String) {
    (FieldIdentity::Named(name.to_string()), ty.to_string())
}

#[test]
fn schema_without_ranges_has_one_version() {
    assert_eq!(resolve(&schema("Plain", vec![plain("a", "u8"), plain("b", "u8")])), 1);
    assert_eq!(resolve(&schema("Empty", vec![])), 1);
}

#[test]
fn highest_version_is_the_largest_bound() {
    assert_eq!(resolve(&hello_there()), 3);
    assert_eq!(resolve(&schema("S", vec![ranged("a", "u8", 5, None)])), 5);
    assert_eq!(resolve(&schema("S", vec![ranged("a", "u8", 1, Some(9)), ranged("b", "u8", 4, None)])), 9);
    assert_eq!(
        resolve(&schema("S", vec![ranged("a", "u8", 2, Some(3)), plain("b", "u8"), ranged("c", "u8", 7, Some(7))])),
        7
    );
}

#[test]
fn lower_bound_counts_even_above_the_upper_bound() {
    assert_eq!(resolve(&schema("S", vec![ranged("a", "u8", 3, Some(1))])), 3);
}

#[test]
fn highest_version_is_never_below_one() {
    assert_eq!(resolve(&schema("S", vec![ranged("a", "u8", 0, Some(0))])), 1);
    assert_eq!(resolve(&schema("S", vec![ranged("a", "u8", 0, None)])), 1);
}

#[test]
fn resolving_ignores_how_many_directives_a_field_has() {
    let twice = named(
        "a",
        "u8",
        vec![directive("(from = 4)"), directive("(from = 9)")],
        Some(VersionRange { from: 4, to: None }),
    );
    assert_eq!(resolve(&schema("S", vec![twice])), 4);
}

#[test]
fn first_version_of_the_example() {
    let variant = generate(&hello_there(), 3, 1).unwrap();
    assert_eq!(variant.name, "HelloThereV1");
    assert_eq!(names_of(&variant), vec![field("field_a", "bool"), field("field_b", "u32")]);
}

#[test]
fn second_version_of_the_example() {
    let variant = generate(&hello_there(), 3, 2).unwrap();
    assert_eq!(variant.name, "HelloThereV2");
    assert_eq!(
        names_of(&variant),
        vec![field("field_a", "bool"), field("field_b", "u32"), field("field_c", "String")]
    );
}

#[test]
fn third_version_of_the_example() {
    let variant = generate(&hello_there(), 3, 3).unwrap();
    assert_eq!(variant.name, "HelloThere");
    assert_eq!(
        names_of(&variant),
        vec![field("field_a", "bool"), field("field_b", "u32"), field("field_c", "i32")]
    );
}

#[test]
fn version_beyond_every_closed_range_keeps_open_and_unconditional_fields() {
    let variant = generate(&hello_there(), 3, 10).unwrap();
    assert_eq!(variant.name, "HelloThereV10");
    assert_eq!(names_of(&variant), vec![field("field_a", "bool"), field("field_c", "i32")]);
}

#[test]
fn generated_fields_lose_range_and_directives_only() {
    let source = schema(
        "S",
        vec![
            named(
                "a",
                "u8",
                vec![doc("one"), directive("(from = 1)"), doc("two")],
                Some(VersionRange { from: 1, to: None }),
            ),
            named("b", "u16", vec![doc("three")], None),
        ],
    );
    let variant = generate(&source, 1, 1).unwrap();
    assert_eq!(
        variant,
        schema(
            "S",
            vec![
                named("a", "u8", vec![doc("one"), doc("two")], None),
                named("b", "u16", vec![doc("three")], None),
            ],
        )
    );
}

#[test]
fn generating_leaves_the_schema_as_it_was() {
    let source = hello_there();
    let _ = generate(&source, 3, 1).unwrap();
    let _ = expand(&source).unwrap();
    assert_eq!(source, hello_there());
}

#[test]
fn positional_fields_keep_their_identity() {
    let source = schema(
        "Tuple",
        vec![
            FieldSpec {
                identity: FieldIdentity::Positional(0),
                type_descriptor: "u8".to_string(),
                annotations: vec![],
                version_range: Some(VersionRange { from: 2, to: None }),
            },
            FieldSpec {
                identity: FieldIdentity::Positional(1),
                type_descriptor: "u16".to_string(),
                annotations: vec![],
                version_range: None,
            },
        ],
    );
    let first = generate(&source, 2, 1).unwrap();
    assert_eq!(first.name, "TupleV1");
    assert_eq!(first.fields.len(), 1);
    assert_eq!(first.fields[0].identity, FieldIdentity::Positional(1));
    assert_eq!(first.fields[0].type_descriptor, "u16");
    let second = generate(&source, 2, 2).unwrap();
    assert_eq!(second.name, "Tuple");
    assert_eq!(second.fields.len(), 2);
    assert_eq!(second.fields[0].identity, FieldIdentity::Positional(0));
    assert_eq!(second.fields[1].identity, FieldIdentity::Positional(1));
}

#[test]
fn field_that_starts_beyond_the_target_is_left_out() {
    let source = schema("S", vec![ranged("late", "u8", 5, None), plain("always", "u8")]);
    let variant = generate(&source, 3, 3).unwrap();
    assert_eq!(names_of(&variant), vec![field("always", "u8")]);
}

#[test]
fn generating_reports_the_first_range_that_ends_before_it_starts() {
    let source = schema(
        "S",
        vec![
            plain("a", "u8"),
            ranged("b", "u8", 1, Some(2)),
            ranged("c", "u8", 3, Some(1)),
            ranged("d", "u8", 9, Some(8)),
        ],
    );
    let expected = Err(SchemaError { kind: ErrorKind::InvalidRange, field: 2 });
    assert_eq!(generate(&source, 9, 1), expected);
    assert_eq!(generate(&source, 9, 2), expected);
    assert_eq!(generate(&source, 9, 9), expected);
    assert_eq!(generate(&source, 9, 100), expected);
}

#[test]
fn example_expands_to_three_variants() {
    let variants = expand(&hello_there()).unwrap();
    assert_eq!(
        variants,
        vec![
            GeneratedVariant {
                version: 1,
                struct_spec: schema(
                    "HelloThereV1",
                    vec![plain("field_a", "bool"), plain("field_b", "u32")],
                ),
            },
            GeneratedVariant {
                version: 2,
                struct_spec: schema(
                    "HelloThereV2",
                    vec![plain("field_a", "bool"), plain("field_b", "u32"), plain("field_c", "String")],
                ),
            },
            GeneratedVariant {
                version: 3,
                struct_spec: schema(
                    "HelloThere",
                    vec![plain("field_a", "bool"), plain("field_b", "u32"), plain("field_c", "i32")],
                ),
            },
        ]
    );
}

#[test]
fn range_that_ends_before_it_starts_yields_no_variant() {
    let source = schema("S", vec![plain("a", "u8"), ranged("b", "u8", 3, Some(1))]);
    assert_eq!(expand(&source), Err(SchemaError { kind: ErrorKind::InvalidRange, field: 1 }));
    assert_eq!(generate(&source, 3, 1), Err(SchemaError { kind: ErrorKind::InvalidRange, field: 1 }));
}

#[test]
fn two_directives_on_one_field_yield_no_variant() {
    let twice = named(
        "b",
        "u8",
        vec![directive("(from = 1)"), directive("(from = 2)")],
        Some(VersionRange { from: 1, to: None }),
    );
    let source = schema("S", vec![plain("a", "u8"), twice]);
    assert_eq!(expand(&source), Err(SchemaError { kind: ErrorKind::DuplicateAnnotation, field: 1 }));
    assert_eq!(
        check_annotations(&source),
        Err(SchemaError { kind: ErrorKind::DuplicateAnnotation, field: 1 })
    );
}

#[test]
fn duplicate_is_reported_before_a_range_that_ends_before_it_starts() {
    let twice = named(
        "c",
        "u8",
        vec![directive("(from = 1)"), directive("(from = 2)")],
        Some(VersionRange { from: 1, to: None }),
    );
    let source = schema("S", vec![ranged("a", "u8", 3, Some(1)), plain("b", "u8"), twice]);
    assert_eq!(expand(&source), Err(SchemaError { kind: ErrorKind::DuplicateAnnotation, field: 2 }));
}

#[test]
fn schema_with_one_directive_per_field_passes_the_count() {
    assert_eq!(check_annotations(&hello_there()), Ok(()));
    assert_eq!(check_annotations(&schema("Empty", vec![])), Ok(()));
}

#[test]
fn schema_without_ranges_expands_to_itself() {
    let source = schema(
        "Plain",
        vec![named("a", "u8", vec![doc("x")], None), plain("b", "u16"), plain("c", "u32")],
    );
    let variants = expand(&source).unwrap();
    assert_eq!(variants, vec![GeneratedVariant { version: 1, struct_spec: source }]);
}

#[test]
fn schema_without_fields_expands_to_one_empty_variant() {
    let variants = expand(&schema("Unit", vec![])).unwrap();
    assert_eq!(variants, vec![GeneratedVariant { version: 1, struct_spec: schema("Unit", vec![]) }]);
}

#[test]
fn variants_are_numbered_from_one_without_gap() {
    let source = schema("S", vec![plain("a", "u8"), ranged("b", "u8", 12, None)]);
    let variants = expand(&source).unwrap();
    assert_eq!(variants.len(), 12);
    assert_eq!(variants.len(), resolve(&source));
    for (position, variant) in variants.iter().enumerate() {
        assert_eq!(variant.version, position + 1);
    }
}

#[test]
fn variant_names_are_distinct_and_the_last_is_bare() {
    let source = schema("S", vec![ranged("b", "u8", 1, Some(111))]);
    let variants = expand(&source).unwrap();
    assert_eq!(variants.len(), 111);
    for (position, variant) in variants.iter().enumerate() {
        if position + 1 == 111 {
            assert_eq!(variant.struct_spec.name, "S");
        } else {
            assert_eq!(variant.struct_spec.name, format!("SV{}", position + 1));
        }
    }
    for a in 0..variants.len() {
        for b in (a + 1)..variants.len() {
            assert_ne!(variants[a].struct_spec.name, variants[b].struct_spec.name);
        }
    }
    assert_eq!(variants[0].struct_spec.name, "SV1");
    assert_eq!(variants[9].struct_spec.name, "SV10");
    assert_eq!(variants[10].struct_spec.name, "SV11");
    assert_eq!(variants[109].struct_spec.name, "SV110");
}

#[test]
fn ranged_field_appears_exactly_within_its_bounds() {
    let source = schema(
        "S",
        vec![ranged("closed", "u8", 3, Some(5)), ranged("open", "u16", 4, None), ranged("top", "u32", 8, Some(8))],
    );
    let variants = expand(&source).unwrap();
    assert_eq!(variants.len(), 8);
    for variant in variants.iter() {
        let v = variant.version;
        let has = |name: &str| {
            variant.struct_spec.fields.iter().any(|f| f.identity == FieldIdentity::Named(name.to_string()))
        };
        assert_eq!(has("closed"), 3 <= v && v <= 5);
        assert_eq!(has("open"), 4 <= v);
        assert_eq!(has("top"), v == 8);
    }
}

#[test]
fn unconditional_field_appears_in_every_variant() {
    let source = schema(
        "S",
        vec![ranged("b", "u8", 2, Some(3)), plain("always", "bool"), ranged("c", "u8", 6, None)],
    );
    let variants = expand(&source).unwrap();
    assert_eq!(variants.len(), 6);
    for variant in variants.iter() {
        assert!(variant.struct_spec.fields.contains(&plain("always", "bool")));
    }
}

#[test]
fn retained_fields_keep_their_relative_order() {
    let source = schema(
        "S",
        vec![
            ranged("f0", "u8", 2, None),
            plain("f1", "u8"),
            ranged("f2", "u8", 1, Some(2)),
            ranged("f3", "u8", 3, Some(4)),
            plain("f4", "u8"),
            ranged("f5", "u8", 1, Some(1)),
        ],
    );
    let variants = expand(&source).unwrap();
    assert_eq!(variants.len(), 4);
    let expected: Vec<Vec<&str>> = vec![
        vec!["f1", "f2", "f4", "f5"],
        vec!["f0", "f1", "f2", "f4"],
        vec!["f0", "f1", "f3", "f4"],
        vec!["f0", "f1", "f3", "f4"],
    ];
    for (variant, names) in variants.iter().zip(expected.iter()) {
        let got: Vec<FieldIdentity> = variant.struct_spec.fields.iter().map(|f| f.identity.clone()).collect();
        let want: Vec<FieldIdentity> = names.iter().map(|n| FieldIdentity::Named(n.to_string())).collect();
        assert_eq!(got, want);
    }
}

#[test]
fn no_variant_field_keeps_version_metadata() {
    let variants = expand(&hello_there()).unwrap();
    for variant in variants.iter() {
        for f in variant.struct_spec.fields.iter() {
            assert_eq!(f.version_range, None);
            assert!(f.annotations.iter().all(|a| !versioned_structs::is_version_attribute(a)));
        }
    }
}

#[test]
fn field_that_never_exists_still_counts_towards_the_highest_version() {
    let source = schema("S", vec![ranged("a", "u8", 0, Some(0)), plain("b", "u8")]);
    let variants = expand(&source).unwrap();
    assert_eq!(variants.len(), 1);
    assert_eq!(variants[0].struct_spec, schema("S", vec![plain("b", "u8")]));
}

#[test]
fn expanding_twice_gives_the_same() {
    assert_eq!(expand(&hello_there()), expand(&hello_there()));
}

#[test]
fn variant_clone_is_equal() {
    let variants = expand(&hello_there()).unwrap();
    assert_eq!(variants[1].clone(), variants[1]);
}
