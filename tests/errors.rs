use bitaccess::{
    AttrToken, BaseType, BitAccess, ConfigError, ExternalVariants, ExtraEnumAccess, FieldArgument, FieldAttribute,
    FieldDeclaration, FieldLevelMacroArguments, KindArg, Position, TopLevelArgument, TopLevelMacroArguments,
    VariantDeclaration,
};

fn resolve(args: Vec<FieldArgument>) -> Result<FieldLevelMacroArguments, ConfigError> {
    FieldLevelMacroArguments::from_arguments(&args)
}

fn top(args: Vec<TopLevelArgument>) -> Result<(), ConfigError> {
    TopLevelMacroArguments::from_arguments(&args).map(|_| ())
}

fn compile(base: BaseType, attributes: Vec<FieldAttribute>, ext: Vec<ExternalVariants>) -> Result<(), ConfigError> {
    BitAccess::new(
        "R".to_string(),
        &vec![TopLevelArgument::BaseType(base)],
        &vec![FieldDeclaration { ident: "F".to_string(), attributes }],
        &ext,
    )
    .map(|_| ())
}

fn ident(s: &str) -> AttrToken {
    AttrToken::Ident(s.to_string())
}

fn lit(v: u64) -> AttrToken {
    AttrToken::Literal(v)
}

fn bit0() -> FieldAttribute {
    FieldAttribute::Bits(vec![lit(0)])
}

#[test]
fn position_errors() {
    assert_eq!(Position::from_range(5, 4, false), Err(ConfigError::InvalidRange));
    assert_eq!(Position::from_range(0, u64::MAX, true), Err(ConfigError::InvalidRange));
    assert_eq!(Position::from_range(3, 3, false), Ok(Position { lo: 3, len: 0 }));
    assert_eq!(resolve(vec![FieldArgument::Offset(1), FieldArgument::Offset(2)]), Err(ConfigError::DuplicateOffset));
    assert_eq!(resolve(vec![FieldArgument::Size(1), FieldArgument::Size(2)]), Err(ConfigError::DuplicateSize));
    let r = FieldArgument::Range(Position { lo: 0, len: 2 });
    assert_eq!(resolve(vec![FieldArgument::Offset(1), r]), Err(ConfigError::RangeWithOther));
    assert_eq!(resolve(vec![FieldArgument::Size(1), FieldArgument::Single(3)]), Err(ConfigError::SingleWithOther));
    assert_eq!(resolve(vec![r, FieldArgument::Offset(1)]), Err(ConfigError::DuplicateOffset));
    assert_eq!(resolve(vec![FieldArgument::Size(3)]), Err(ConfigError::MissingOffset));
    assert_eq!(resolve(vec![FieldArgument::Offset(3)]), Err(ConfigError::MissingSize));
    assert_eq!(resolve(vec![]), Err(ConfigError::MissingOffset));
}

#[test]
fn position_syntax_errors() {
    let parse = |toks: Vec<AttrToken>| FieldArgument::parse_list(&toks);
    assert_eq!(parse(vec![ident("width"), AttrToken::Eq, lit(3)]), Err(ConfigError::MalformedPosition));
    assert_eq!(parse(vec![lit(1), lit(2)]), Err(ConfigError::MalformedPosition));
    assert_eq!(parse(vec![lit(1), AttrToken::DotDot]), Err(ConfigError::MalformedPosition));
    assert_eq!(parse(vec![lit(6), AttrToken::DotDot, lit(2)]), Err(ConfigError::InvalidRange));
    assert_eq!(parse(vec![AttrToken::Comma]), Err(ConfigError::MalformedPosition));
    assert_eq!(parse(vec![lit(1), AttrToken::Comma]), Ok(vec![FieldArgument::Single(1)]));
    assert_eq!(parse(vec![]), Ok(vec![]));
    assert_eq!(compile(BaseType::U8, vec![FieldAttribute::Bits(vec![ident("x")])], vec![]), Err(
        ConfigError::MalformedPosition,
    ));
}

#[test]
fn top_level_syntax_errors() {
    let parse = |toks: Vec<AttrToken>| TopLevelArgument::parse_list(&toks);
    assert_eq!(parse(vec![ident("base_type"), AttrToken::Eq, ident("i8")]), Err(ConfigError::UnsupportedBaseType));
    assert_eq!(parse(vec![ident("kind"), AttrToken::Eq, ident("sideways")]), Err(ConfigError::UnsupportedKind));
    assert_eq!(parse(vec![ident("read_via"), AttrToken::Eq, ident("f")]), Err(ConfigError::MalformedArgument));
    assert_eq!(parse(vec![ident("colour"), AttrToken::Eq, ident("u8")]), Err(ConfigError::MalformedArgument));
    assert_eq!(parse(vec![ident("base_type"), AttrToken::Eq]), Err(ConfigError::MalformedArgument));
    assert_eq!(
        parse(vec![
            ident("base_type"),
            AttrToken::Eq,
            ident("u16"),
            AttrToken::Comma,
            ident("write_via"),
            AttrToken::Eq,
            AttrToken::Str("w".to_string()),
            AttrToken::Comma,
        ]),
        Ok(vec![TopLevelArgument::BaseType(BaseType::U16), TopLevelArgument::WriteVia("w".to_string())])
    );
}

#[test]
fn attribute_names() {
    assert!(matches!(FieldAttribute::from_name("bit", vec![]), FieldAttribute::Bits(_)));
    assert!(matches!(FieldAttribute::from_name("bitaccess", vec![]), FieldAttribute::Bits(_)));
    assert!(matches!(FieldAttribute::from_name("variants", vec![]), FieldAttribute::Variants(_)));
    assert_eq!(FieldAttribute::from_name("doc", vec![]), FieldAttribute::Other);
}

#[test]
fn top_level_errors() {
    let b = TopLevelArgument::BaseType(BaseType::U32);
    let rw = TopLevelArgument::Kind(KindArg { read: true, write: true });
    let ro = TopLevelArgument::Kind(KindArg { read: true, write: false });
    let rv = TopLevelArgument::ReadVia("r".to_string());
    let wv = TopLevelArgument::WriteVia("w".to_string());
    assert_eq!(top(vec![b.clone(), b.clone()]), Err(ConfigError::DuplicateBaseType));
    assert_eq!(top(vec![b.clone(), rw.clone(), ro.clone()]), Err(ConfigError::DuplicateKind));
    assert_eq!(top(vec![b.clone(), rv.clone(), rv.clone()]), Err(ConfigError::DuplicateReadVia));
    assert_eq!(top(vec![b.clone(), wv.clone(), wv.clone()]), Err(ConfigError::DuplicateWriteVia));
    assert_eq!(top(vec![rw.clone()]), Err(ConfigError::MissingBaseType));
    assert_eq!(top(vec![b.clone(), ro.clone(), wv.clone()]), Err(ConfigError::InvalidCombination));
    assert_eq!(top(vec![b.clone(), rv.clone()]), Err(ConfigError::InvalidCombination));
    assert_eq!(top(vec![b.clone(), rv.clone(), wv.clone()]), Ok(()));
    assert_eq!(top(vec![b.clone(), ro.clone(), rv.clone()]), Ok(()));
    assert_eq!(top(vec![b.clone()]), Ok(()));
    assert_eq!(KindArg::from_name("write_read"), Some(KindArg { read: true, write: true }));
    assert_eq!(KindArg::from_name("sideways"), None);
    assert_eq!(BaseType::from_name("u16"), Some(BaseType::U16));
    assert_eq!(BaseType::from_name("i32"), None);
}

#[test]
fn field_errors() {
    assert_eq!(compile(BaseType::U8, vec![], vec![]), Err(ConfigError::MissingPosition));
    assert_eq!(compile(BaseType::U8, vec![FieldAttribute::Other], vec![]), Err(ConfigError::MissingPosition));
    assert_eq!(compile(BaseType::U8, vec![bit0(), bit0()], vec![]), Err(ConfigError::DuplicatePosition));
    let v = FieldAttribute::from_name("variants", vec![ident("T")]);
    assert_eq!(compile(BaseType::U8, vec![bit0(), v.clone(), v.clone()], vec![]), Err(ConfigError::DuplicateVariants));
    let wide = FieldAttribute::Bits(vec![
        ident("offset"),
        AttrToken::Eq,
        lit(4),
        AttrToken::Comma,
        ident("size"),
        AttrToken::Eq,
        lit(5),
    ]);
    assert_eq!(compile(BaseType::U8, vec![wide], vec![]), Err(ConfigError::FieldOutOfRange));
    assert_eq!(compile(BaseType::U8, vec![FieldAttribute::Bits(vec![lit(8)])], vec![]), Err(
        ConfigError::FieldOutOfRange,
    ));
    assert_eq!(compile(BaseType::U8, vec![FieldAttribute::Bits(vec![lit(7)])], vec![]), Ok(()));
}

#[test]
fn variant_errors() {
    let malformed = FieldAttribute::from_name("variants", vec![ident("A"), AttrToken::FatArrow, ident("B")]);
    assert_eq!(compile(BaseType::U8, vec![bit0(), malformed], vec![]), Err(ConfigError::MalformedVariants));
    assert_eq!(ExtraEnumAccess::parse(&vec![]), Err(ConfigError::MalformedVariants));
    assert_eq!(ExtraEnumAccess::parse(&vec![ident("A"), ident("B")]), Err(ConfigError::MalformedVariants));
    let dup_name = FieldAttribute::from_name("variants", vec![
        ident("A"),
        AttrToken::FatArrow,
        AttrToken::Literal(0),
        AttrToken::Comma,
        ident("A"),
        AttrToken::FatArrow,
        AttrToken::Literal(1),
    ]);
    assert_eq!(compile(BaseType::U8, vec![bit0(), dup_name], vec![]), Err(ConfigError::DuplicateVariantName));
    let dup_value = FieldAttribute::from_name("variants", vec![
        ident("A"),
        AttrToken::FatArrow,
        AttrToken::Literal(1),
        AttrToken::Comma,
        ident("B"),
        AttrToken::FatArrow,
        AttrToken::Literal(1),
    ]);
    assert_eq!(compile(BaseType::U8, vec![bit0(), dup_value], vec![]), Err(ConfigError::DuplicateVariantValue));
    let too_big = FieldAttribute::from_name("variants", vec![ident("A"), AttrToken::FatArrow, AttrToken::Literal(256)]);
    assert_eq!(compile(BaseType::U8, vec![bit0(), too_big], vec![]), Err(ConfigError::VariantOutOfRange));
    let unknown = FieldAttribute::from_name("variants", vec![ident("Nowhere")]);
    assert_eq!(compile(BaseType::U8, vec![bit0(), unknown], vec![]), Err(ConfigError::UnknownVariantType));
    let ext = ExternalVariants::derive(
        "Wide".to_string(),
        BaseType::U16,
        &vec![VariantDeclaration { ident: "X".to_string(), discriminant: None }],
    )
    .unwrap();
    let named = FieldAttribute::from_name("variants", vec![ident("Wide")]);
    assert_eq!(compile(BaseType::U8, vec![bit0(), named], vec![ext]), Err(ConfigError::VariantWidthMismatch));
}

#[test]
fn derived_discriminants() {
    let decl = |n: &str, d: Option<u64>| VariantDeclaration { ident: n.to_string(), discriminant: d };
    let t = ExternalVariants::derive(
        "Level".to_string(),
        BaseType::U8,
        &vec![decl("A", None), decl("B", None), decl("C", Some(10)), decl("D", None)],
    )
    .unwrap();
    let values: Vec<u64> = t.entries.iter().map(|e| e.value).collect();
    assert_eq!(values, vec![0, 1, 10, 11]);
    assert_eq!(
        ExternalVariants::derive("T".to_string(), BaseType::U8, &vec![decl("A", Some(255)), decl("B", None)]),
        Err(ConfigError::VariantOutOfRange)
    );
    assert_eq!(
        ExternalVariants::derive("T".to_string(), BaseType::U8, &vec![decl("A", Some(3)), decl("B", Some(3))]),
        Err(ConfigError::DuplicateVariantValue)
    );
    assert_eq!(
        ExternalVariants::derive("T".to_string(), BaseType::U8, &vec![decl("A", None), decl("A", None)]),
        Err(ConfigError::DuplicateVariantName)
    );
}

#[test]
fn compile_from_tokens() {
    let decls = vec![FieldDeclaration { ident: "F".to_string(), attributes: vec![bit0()] }];
    let bad = vec![ident("base_type"), AttrToken::Eq, AttrToken::Str("u8".to_string())];
    assert_eq!(BitAccess::compile("R".to_string(), &bad, &decls, &vec![]).map(|_| ()), Err(
        ConfigError::MalformedArgument,
    ));
    let missing = vec![ident("kind"), AttrToken::Eq, ident("read_only")];
    assert_eq!(BitAccess::compile("R".to_string(), &missing, &decls, &vec![]).map(|_| ()), Err(
        ConfigError::MissingBaseType,
    ));
    let good = vec![ident("base_type"), AttrToken::Eq, ident("u8")];
    let layout = BitAccess::compile("R".to_string(), &good, &decls, &vec![]).unwrap();
    assert_eq!(layout.top_level_arguments.base_type, BaseType::U8);
    assert_eq!(layout.fields[0].mask, 1);
}

#[test]
fn edge_positions_and_kinds() {
    let empty_at_end = FieldAttribute::Bits(vec![
        ident("offset"),
        AttrToken::Eq,
        lit(8),
        AttrToken::Comma,
        ident("size"),
        AttrToken::Eq,
        lit(0),
    ]);
    assert_eq!(compile(BaseType::U8, vec![empty_at_end], vec![]), Ok(()));
    let none = TopLevelArgument::Kind(KindArg { read: false, write: false });
    assert_eq!(top(vec![TopLevelArgument::BaseType(BaseType::U8), none]), Err(ConfigError::UnsupportedKind));
}

#[test]
fn non_ascii_field_with_inline_variants() {
    let toks = vec![ident("On"), AttrToken::FatArrow, lit(1)];
    let r = BitAccess::new(
        "R".to_string(),
        &vec![TopLevelArgument::BaseType(BaseType::U8)],
        &vec![FieldDeclaration {
            ident: "a\u{c9}".to_string(),
            attributes: vec![bit0(), FieldAttribute::from_name("variants", toks)],
        }],
        &vec![],
    );
    assert_eq!(r.map(|_| ()), Err(ConfigError::NonAsciiName));
}
