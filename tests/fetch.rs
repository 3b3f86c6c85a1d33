use std::cell::Cell;

use bitaccess::register::{ReadVia, ReadWriteRegister, WriteVia};
use bitaccess::{
    AttrToken, BaseType, BitAccess, ExternalVariants, FieldAttribute, FieldDeclaration, KindArg, TopLevelArgument,
    VariantDeclaration,
};

struct CellStore<'c>(&'c Cell<u64>);

impl ReadVia for CellStore<'_> {
    fn read_via(&self) -> u64 {
        self.0.get()
    }
}

impl WriteVia for CellStore<'_> {
    fn write_via(&mut self, value: u64) {
        self.0.set(value)
    }
}

fn bit(n: u64) -> FieldAttribute {
    FieldAttribute::from_name("bit", vec![AttrToken::Literal(n)])
}

fn bits(lo: u64, hi: u64) -> FieldAttribute {
    FieldAttribute::from_name("bits", vec![AttrToken::Literal(lo), AttrToken::DotDot, AttrToken::Literal(hi)])
}

fn ident(s: &str) -> AttrToken {
    AttrToken::Ident(s.to_string())
}

fn via_tests_layout() -> BitAccess {
    let external_variant = ExternalVariants::derive(
        "ExternalVariant".to_string(),
        BaseType::U64,
        &vec![
            VariantDeclaration { ident: "Fib5".to_string(), discriminant: Some(8) },
            VariantDeclaration { ident: "Fib6".to_string(), discriminant: Some(13) },
        ],
    )
    .unwrap();
    let inline = vec![
        ident("Fib1"),
        AttrToken::FatArrow,
        AttrToken::Literal(1),
        AttrToken::Comma,
        ident("Fib2"),
        AttrToken::FatArrow,
        AttrToken::Literal(2),
        AttrToken::Comma,
        ident("Fib3"),
        AttrToken::FatArrow,
        AttrToken::Literal(3),
        AttrToken::Comma,
        ident("Fib4"),
        AttrToken::FatArrow,
        AttrToken::Literal(5),
    ];
    BitAccess::new(
        "ViaTests".to_string(),
        &vec![
            TopLevelArgument::BaseType(BaseType::U64),
            TopLevelArgument::Kind(KindArg::from_name("read_write").unwrap()),
            TopLevelArgument::ReadVia("unsafe { value = crate::GLOBAL_TEST }".to_string()),
            TopLevelArgument::WriteVia("unsafe { crate::GLOBAL_TEST = value }".to_string()),
        ],
        &vec![
            FieldDeclaration { ident: "BitZero".to_string(), attributes: vec![bit(0)] },
            FieldDeclaration { ident: "BitOne".to_string(), attributes: vec![bit(1)] },
            FieldDeclaration { ident: "BitsTwoThree".to_string(), attributes: vec![bits(2, 4)] },
            FieldDeclaration {
                ident: "InlineVariants".to_string(),
                attributes: vec![bits(4, 8), FieldAttribute::from_name("variants", inline)],
            },
            FieldDeclaration {
                ident: "ExternalVariants".to_string(),
                attributes: vec![bits(8, 12), FieldAttribute::from_name("variants", vec![ident("ExternalVariant")])],
            },
        ],
        &vec![external_variant],
    )
    .unwrap()
}

#[test]
fn fetches_whole_struct() {
    let global_test = Cell::new(0u64);
    let layout = via_tests_layout();
    let register = ReadWriteRegister::new(&layout, CellStore(&global_test)).unwrap();
    global_test.set(0b1101_0011_0111);
    let val = register.fetch();
    global_test.set(0);

    assert_eq!(val.read(&layout.field("BitZero").unwrap()).unwrap().value(), 1);
    assert_eq!(val.read(&layout.field("BitOne").unwrap()).unwrap().value(), 1);
    assert_eq!(val.read(&layout.field("BitsTwoThree").unwrap()).unwrap().value(), 0b01);
    assert_eq!(val.read_variant(&layout.field("InlineVariants").unwrap()), Ok("Fib3".to_string()));
    assert_eq!(val.read_variant(&layout.field("ExternalVariants").unwrap()), Ok("Fib6".to_string()));
}

#[test]
fn provides_write_api() {
    let global_test = Cell::new(0u64);
    let layout = via_tests_layout();
    let register = ReadWriteRegister::new(&layout, CellStore(&global_test)).unwrap();
    global_test.set(0b1101_0011_0111);
    let mut val = register.fetch();
    let bit_zero = layout.field("BitZero").unwrap();

    assert_eq!(val.read(&bit_zero).unwrap().value(), 1);
    assert_eq!(val.read(&layout.field("BitOne").unwrap()).unwrap().value(), 1);
    assert_eq!(val.read(&layout.field("BitsTwoThree").unwrap()).unwrap().value(), 0b01);
    assert_eq!(val.read_variant(&layout.field("InlineVariants").unwrap()), Ok("Fib3".to_string()));
    assert_eq!(val.read_variant(&layout.field("ExternalVariants").unwrap()), Ok("Fib6".to_string()));
    val.write_to_cache(&bit_zero, 0).unwrap();
    assert_eq!(val.read(&bit_zero).unwrap().value(), 0);

    let val = register.fetch();
    assert_eq!(val.read(&bit_zero).unwrap().value(), 1);
}
