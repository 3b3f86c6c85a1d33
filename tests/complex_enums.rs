use std::cell::Cell;

use bitaccess::register::{InlineRegister, WriteOnlyRegister, WriteVia};
use bitaccess::{
    AttrToken, BaseType, BitAccess, ExternalVariants, FieldAttribute, FieldDeclaration, KindArg, TopLevelArgument,
    VariantDeclaration,
};

struct CellStore<'c>(&'c Cell<u64>);

impl WriteVia for CellStore<'_> {
    fn write_via(&mut self, value: u64) {
        self.0.set(value)
    }
}

fn range(lo: u64, hi: u64) -> FieldAttribute {
    FieldAttribute::from_name("bits", vec![AttrToken::Literal(lo), AttrToken::DotDot, AttrToken::Literal(hi)])
}

fn ident(s: &str) -> AttrToken {
    AttrToken::Ident(s.to_string())
}

fn variant(name: &str, value: u64) -> VariantDeclaration {
    VariantDeclaration { ident: name.to_string(), discriminant: Some(value) }
}

#[test]
fn complex_enums_can_use_variants() {
    let layout = BitAccess::new(
        "Variants".to_string(),
        &vec![TopLevelArgument::BaseType(BaseType::U64)],
        &vec![FieldDeclaration {
            ident: "ThreeBits".to_string(),
            attributes: vec![
                FieldAttribute::from_name("variants", vec![
                    ident("FirstOn"),
                    AttrToken::FatArrow,
                    AttrToken::Literal(0b001),
                    AttrToken::Comma,
                    ident("SecondOn"),
                    AttrToken::FatArrow,
                    AttrToken::Literal(0b010),
                    AttrToken::Comma,
                    ident("ThirdOn"),
                    AttrToken::FatArrow,
                    AttrToken::Literal(0b100),
                    AttrToken::Comma,
                ]),
                range(0, 3),
            ],
        }],
        &vec![],
    )
    .unwrap();
    let three_bits = layout.field("ThreeBits").unwrap();
    let mut r = InlineRegister::new(&layout, 0).unwrap();
    r.write_variant(&three_bits, "FirstOn").unwrap();
    assert_eq!(r.read_variant(&three_bits), Ok("FirstOn".to_string()));
}

#[test]
fn can_use_external_variants() {
    let four_bits_variant = ExternalVariants::derive(
        "FourBitsVariant".to_string(),
        BaseType::U32,
        &vec![variant("Case1", 0), variant("Case2", 8), variant("Case3", 15)],
    )
    .unwrap();
    let layout = BitAccess::new(
        "ExternalVariants".to_string(),
        &vec![TopLevelArgument::BaseType(BaseType::U32)],
        &vec![FieldDeclaration {
            ident: "FourBits".to_string(),
            attributes: vec![FieldAttribute::from_name("variants", vec![ident("FourBitsVariant")]), range(0, 4)],
        }],
        &vec![four_bits_variant],
    )
    .unwrap();
    let four_bits = layout.field("FourBits").unwrap();
    let mut r = InlineRegister::new(&layout, 0).unwrap();
    r.write_variant(&four_bits, "Case3").unwrap();
    assert_eq!(r.read_variant(&four_bits), Ok("Case3".to_string()))
}

#[test]
fn can_be_write_only() {
    let field_store = Cell::new(0u64);
    let layout = BitAccess::new(
        "WriteOnly".to_string(),
        &vec![
            TopLevelArgument::BaseType(BaseType::U32),
            TopLevelArgument::Kind(KindArg::from_name("write_only").unwrap()),
            TopLevelArgument::WriteVia("unsafe { crate::FIELD = value }".to_string()),
        ],
        &vec![FieldDeclaration { ident: "Field".to_string(), attributes: vec![range(0, 16)] }],
        &vec![],
    )
    .unwrap();
    let mut r = WriteOnlyRegister::new(&layout, CellStore(&field_store)).unwrap();
    r.write(&layout.field("Field").unwrap(), 1).unwrap();

    assert_eq!(field_store.get(), 1);
}
