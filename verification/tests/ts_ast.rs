use tarmac::typescript::ts_ast::{
    Comment, ExportAssignment, Expression, FunctionType, InterfaceDeclaration, ModifierToken,
    Parameter, PropertySignature, Statement, TemplateLiteralExpression, TypeAliasDeclaration,
    TypeReference, VariableDeclaration, VariableKind,
};

fn sprite_members() -> Vec<PropertySignature> {
    vec![
        PropertySignature {
            name: "Image".into(),
            modifiers: Some(vec![ModifierToken::Readonly]),
            expression: Expression::Identifier("string".into()),
        },
        PropertySignature {
            name: "ImageRectOffset".into(),
            modifiers: Some(vec![ModifierToken::Readonly]),
            expression: Expression::Identifier("Vector2".into()),
        },
        PropertySignature {
            name: "ImageRectSize".into(),
            modifiers: Some(vec![ModifierToken::Readonly]),
            expression: Expression::Identifier("Vector2".into()),
        },
    ]
}

#[test]
fn test() {
    let sprite = Statement::InterfaceDeclaration(InterfaceDeclaration {
        name: "Sprite".into(),
        modifiers: None,
        members: sprite_members(),
    });
    println!("{}", sprite.to_string());
    assert_eq!(
        sprite.to_string(),
        "interface Sprite {\n\treadonly Image: string;\n\treadonly ImageRectOffset: Vector2;\n\treadonly ImageRectSize: Vector2;\n}\n"
    );

    let assets = Statement::InterfaceDeclaration(InterfaceDeclaration {
        name: "Assets".into(),
        modifiers: Some(vec![ModifierToken::Declare]),
        members: vec![
            PropertySignature {
                name: "AssetName1".into(),
                modifiers: Some(vec![ModifierToken::Readonly]),
                expression: Expression::Identifier("Sprite".into()),
            },
            PropertySignature {
                name: "AssetName2".into(),
                modifiers: Some(vec![ModifierToken::Readonly]),
                expression: Expression::TypeLiteral(sprite_members()),
            },
            PropertySignature {
                name: "FunctionTypedAsset".into(),
                modifiers: Some(vec![ModifierToken::Readonly]),
                expression: Expression::FunctionType(FunctionType {
                    parameters: vec![Parameter {
                        name: "dpiScale".into(),
                        param_type: TypeReference::Expression(Expression::Identifier(
                            "number".into(),
                        )),
                    }],
                    return_type: Box::new(Expression::Identifier("test".into())),
                }),
            },
        ],
    });
    println!("{}", assets.to_string());
    assert_eq!(
        assets.to_string(),
        "declare interface Assets {\n\
         \treadonly AssetName1: Sprite;\n\
         \treadonly AssetName2: {\n\
         \t\treadonly Image: string;\n\
         \t\treadonly ImageRectOffset: Vector2;\n\
         \t\treadonly ImageRectSize: Vector2;\n\
         \t};\n\
         \treadonly FunctionTypedAsset: (dpiScale: number) => test;\n\
         }\n"
    );

    let variable = Statement::VariableDeclaration(VariableDeclaration {
        name: "Assets".into(),
        kind: VariableKind::Const,
        type_expression: Some(Expression::Identifier("Assets".into())),
        modifiers: Some(vec![ModifierToken::Declare]),
        expression: Some(Expression::Identifier("Assets".into())),
    });
    println!("{}", variable.to_string());
    assert_eq!(variable.to_string(), "declare const Assets: Assets = Assets;\n");

    let export = Statement::ExportAssignment(ExportAssignment {
        expression: Expression::Identifier("Assets".into()),
    });
    println!("{}", export.to_string());
    assert_eq!(export.to_string(), "export = Assets;\n");
}

#[test]
fn modifier_tokens_print_as_keywords() {
    assert_eq!(ModifierToken::Export.as_str(), "export");
    assert_eq!(ModifierToken::Declare.as_str(), "declare");
    assert_eq!(ModifierToken::Readonly.as_str(), "readonly");
}

#[test]
fn property_names_that_are_no_identifiers_are_quoted() {
    let quoted = |name: &str| {
        Expression::TypeLiteral(vec![PropertySignature::new(
            name.to_string(),
            None,
            Expression::Identifier("string".into()),
        )])
        .to_string()
    };
    assert_eq!(quoted("logo"), "{\n\tlogo: string;\n}");
    assert_eq!(quoted("logo2"), "{\n\tlogo2: string;\n}");
    assert_eq!(quoted("2logo"), "{\n\t[\"2logo\"]: string;\n}");
    assert_eq!(quoted("my-logo"), "{\n\t[\"my-logo\"]: string;\n}");
    assert_eq!(quoted("100"), "{\n\t[\"100\"]: string;\n}");
    assert_eq!(quoted(""), "{\n\t[\"\"]: string;\n}");
}

#[test]
fn literals_print_as_written() {
    assert_eq!(Expression::StringLiteral("a b".into()).to_string(), "\"a b\"");
    assert_eq!(Expression::NumericLiteral(0).to_string(), "0");
    assert_eq!(Expression::NumericLiteral(42).to_string(), "42");
    assert_eq!(Expression::NumericLiteral(-7).to_string(), "-7");
    assert_eq!(Expression::NumericLiteral(i32::MAX).to_string(), "2147483647");
    assert_eq!(Expression::NumericLiteral(i32::MIN).to_string(), "-2147483648");
}

#[test]
fn template_literal_ends_at_its_first_tail() {
    let literal = TemplateLiteralExpression::new(
        "asset-".into(),
        vec![
            TemplateLiteralExpression::middle(Expression::Identifier("name".into()), "@".into()),
            TemplateLiteralExpression::tail(Expression::Identifier("scale".into()), "x".into()),
            TemplateLiteralExpression::middle(Expression::Identifier("never".into()), "!".into()),
        ],
    );
    assert_eq!(literal.to_string(), "`asset-${name}@${scale}x`");

    let open = TemplateLiteralExpression::new(
        "a".into(),
        vec![TemplateLiteralExpression::middle(Expression::NumericLiteral(1), "b".into())],
    );
    assert_eq!(open.to_string(), "`a${1}b");
}

#[test]
fn function_type_separates_parameters_and_union_members() {
    let func = Expression::FunctionType(FunctionType::new(
        vec![
            Parameter::new(
                "dpiScale".into(),
                TypeReference::union(vec![
                    TypeReference::num(1),
                    TypeReference::num(2),
                    TypeReference::num(3),
                ]),
            ),
            Parameter::new("name".into(), TypeReference::id("string".into())),
        ],
        Expression::Identifier("Sprite".into()),
    ));
    assert_eq!(func.to_string(), "(dpiScale: 1 | 2 | 3, name: string) => Sprite");

    let none = Expression::FunctionType(FunctionType::new(
        vec![],
        Expression::Identifier("void".into()),
    ));
    assert_eq!(none.to_string(), "() => void");
}

#[test]
fn comments_aliases_and_lists() {
    assert_eq!(Comment::singleline("generated".into()).to_string(), "// generated\n");
    assert_eq!(Comment::multiline(" generated ".into()).to_string(), "/* generated */\n");

    let alias = Statement::TypeAliasDeclaration(TypeAliasDeclaration {
        name: "Url".into(),
        type_expression: Expression::Identifier("string".into()),
    });
    assert_eq!(alias.to_string(), "type Url = string;\n");

    let list = Statement::list(vec![
        Comment::singleline("one".into()),
        Statement::export_assignment(Expression::Identifier("Assets".into())),
    ]);
    assert_eq!(list.to_string(), "// one\nexport = Assets;\n");
    assert_eq!(Statement::list(vec![]).to_string(), "");
}

#[test]
fn variable_declaration_parts_are_optional() {
    let bare = VariableDeclaration::new("x".into(), VariableKind::Const, None, None, None);
    assert_eq!(bare.to_string(), "const x;\n");

    let typed = VariableDeclaration::new(
        "Assets".into(),
        VariableKind::Const,
        Some(Expression::TypeLiteral(vec![PropertySignature::new(
            "logo".into(),
            None,
            Expression::StringLiteral("remoteasset://1".into()),
        )])),
        Some(vec![ModifierToken::Export, ModifierToken::Declare]),
        None,
    );
    assert_eq!(
        typed.to_string(),
        "export declare const Assets: {\n\tlogo: \"remoteasset://1\";\n};\n"
    );
}

#[test]
fn nested_type_literals_indent_once_per_level() {
    let inner = Expression::TypeLiteral(vec![PropertySignature::new(
        "leaf".into(),
        None,
        Expression::Identifier("string".into()),
    )]);
    let middle = Expression::TypeLiteral(vec![PropertySignature::new("b".into(), None, inner)]);
    let outer = Expression::TypeLiteral(vec![PropertySignature::new("a".into(), None, middle)]);
    assert_eq!(
        outer.to_string(),
        "{\n\ta: {\n\t\tb: {\n\t\t\tleaf: string;\n\t\t};\n\t};\n}"
    );
}
