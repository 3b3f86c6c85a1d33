use std::cell::Cell;

use bitaccess::register::{InlineRegister, ReadOnlyRegister, ReadVia, ReadWriteRegister, Snapshot, WriteVia};
use bitaccess::{
    field_mask, inline_enum_ident, private_module_ident, read_field, representation_struct_ident, write_field,
    AccessError, AttrToken, BaseType, BitAccess, ExtraEnumAccess, FieldArgument, FieldAttribute, FieldDeclaration,
    FieldLevelMacroArguments, KindArg, Position, TopLevelArgument,
};

struct CellStore<'c>(&'c Cell<u64>);

impl ReadVia for CellStore<'_> {
    fn read_via(&self) -> u64 {
        self.0.get()
    }
}

impl WriteVia for CellStore<'_> {
    fn write_via(&mut self, value: u64) {
        self.0.set(value)
    }
}

fn single_field(name: &str, toks: Vec<AttrToken>) -> FieldDeclaration {
    FieldDeclaration { ident: name.to_string(), attributes: vec![FieldAttribute::Bits(toks)] }
}

fn explicit(offset: u64, size: u64) -> Vec<AttrToken> {
    vec![
        AttrToken::Ident("offset".to_string()),
        AttrToken::Eq,
        AttrToken::Literal(offset),
        AttrToken::Comma,
        AttrToken::Ident("size".to_string()),
        AttrToken::Eq,
        AttrToken::Literal(size),
    ]
}

fn half_open(lo: u64, hi: u64) -> Vec<AttrToken> {
    vec![AttrToken::Literal(lo), AttrToken::DotDot, AttrToken::Literal(hi)]
}

fn inclusive(lo: u64, hi: u64) -> Vec<AttrToken> {
    vec![AttrToken::Literal(lo), AttrToken::DotDotEq, AttrToken::Literal(hi)]
}

fn single(n: u64) -> Vec<AttrToken> {
    vec![AttrToken::Literal(n)]
}

fn u64_layout(fields: Vec<FieldDeclaration>) -> BitAccess {
    BitAccess::new("Reg".to_string(), &vec![TopLevelArgument::BaseType(BaseType::U64)], &fields, &vec![]).unwrap()
}

#[test]
fn mask_formula_values() {
    assert_eq!(field_mask(0, 4), 0b1111);
    assert_eq!(field_mask(4, 4), 0b1111_0000);
    assert_eq!(field_mask(8, 4), 0xf00);
    assert_eq!(field_mask(0, 64), u64::MAX);
    assert_eq!(field_mask(63, 1), 1 << 63);
    assert_eq!(field_mask(5, 0), 0);
}

#[test]
fn read_after_write_truncates_to_width() {
    let m = field_mask(4, 3);
    let w = write_field(0xffff, m, 4, 0b1_1010);
    assert_eq!(read_field(w, m, 4), 0b010);
    assert_eq!(w, 0xffaf);
}

#[test]
fn write_keeps_disjoint_fields() {
    let layout = u64_layout(vec![
        single_field("Low", explicit(0, 8)),
        single_field("High", explicit(56, 8)),
    ]);
    let low = layout.field("Low").unwrap();
    let high = layout.field("High").unwrap();
    let mut r = InlineRegister::new(&layout, 0x1200_0000_0000_0034).unwrap();
    r.write(&low, 0xab).unwrap();
    assert_eq!(r.read(&high).unwrap().value(), 0x12);
    assert_eq!(r.read(&low).unwrap().value(), 0xab);
}

#[test]
fn set_then_get_round_trips() {
    let layout = BitAccess::new(
        "Small".to_string(),
        &vec![TopLevelArgument::BaseType(BaseType::U8)],
        &vec![],
        &vec![],
    )
    .unwrap();
    let mut r = InlineRegister::zero(&layout).unwrap();
    r.set(0xff).unwrap();
    assert_eq!(r.get(), Ok(0xff));
    r.set(0x1ff).unwrap();
    assert_eq!(r.get(), Ok(0xff));
}

#[test]
fn range_forms_agree() {
    let resolve = |toks: Vec<AttrToken>| {
        FieldLevelMacroArguments::from_arguments(&FieldArgument::parse_list(&toks).unwrap())
    };
    assert_eq!(
        FieldArgument::parse_list(&half_open(4, 8)),
        Ok(vec![FieldArgument::Range(Position::from_range(4, 8, false).unwrap())])
    );
    let explicit_form = resolve(explicit(4, 4));
    let half_open_form = resolve(half_open(4, 8));
    let inclusive_form = resolve(inclusive(4, 7));
    assert_eq!(explicit_form, Ok(FieldLevelMacroArguments { offset: 4, size: 4 }));
    assert_eq!(explicit_form, half_open_form);
    assert_eq!(explicit_form, inclusive_form);
    let layout = u64_layout(vec![
        single_field("A", explicit(4, 4)),
        single_field("B", half_open(4, 8)),
        single_field("C", inclusive(4, 7)),
    ]);
    assert_eq!(layout.field("A").unwrap().mask(), 0xf0);
    assert_eq!(layout.field("B").unwrap().mask(), 0xf0);
    assert_eq!(layout.field("C").unwrap().mask(), 0xf0);
}

#[test]
fn single_bit_mask() {
    let layout = u64_layout(vec![single_field("Top", single(9))]);
    assert_eq!(layout.field("Top").unwrap().mask(), 1 << 9);
}

#[test]
fn inline_variant_round_trip_and_unknown_value() {
    let toks = vec![
        AttrToken::Ident("On".to_string()),
        AttrToken::FatArrow,
        AttrToken::Literal(1),
        AttrToken::Comma,
        AttrToken::Ident("Off".to_string()),
        AttrToken::FatArrow,
        AttrToken::Literal(0),
    ];
    let layout = BitAccess::new(
        "Flags".to_string(),
        &vec![TopLevelArgument::BaseType(BaseType::U16)],
        &vec![FieldDeclaration {
            ident: "enable_bit".to_string(),
            attributes: vec![
                FieldAttribute::from_name("bits", half_open(0, 2)),
                FieldAttribute::from_name("variants", toks),
            ],
        }],
        &vec![],
    )
    .unwrap();
    let set = layout.fields[0].variants.as_ref().unwrap();
    assert_eq!(set.value_type, "EnableBit");
    assert_eq!(set.decode(1), Some("On".to_string()));
    assert_eq!(set.decode(0), Some("Off".to_string()));
    assert_eq!(set.encode("On"), Some(1));
    assert_eq!(set.encode("Off"), Some(0));
    assert_eq!(set.decode(2), None);
    assert_eq!(set.encode("Maybe"), None);
    let f = layout.field("enable_bit").unwrap();
    let mut r = InlineRegister::new(&layout, 3).unwrap();
    assert_eq!(r.read_variant(&f), Err(AccessError::UnknownValue));
    assert_eq!(r.write_variant(&f, "Maybe"), Err(AccessError::UnknownVariant));
    r.write_variant(&f, "Off").unwrap();
    assert_eq!(r.read_variant(&f), Ok("Off".to_string()));
}

#[test]
fn snapshot_isolation() {
    let store = Cell::new(0b1010u64);
    let layout = BitAccess::new(
        "Global".to_string(),
        &vec![
            TopLevelArgument::BaseType(BaseType::U64),
            TopLevelArgument::ReadVia("load()".to_string()),
            TopLevelArgument::WriteVia("store(value)".to_string()),
        ],
        &vec![single_field("Low", explicit(0, 4))],
        &vec![],
    )
    .unwrap();
    let low = layout.field("Low").unwrap();
    let reg = ReadWriteRegister::new(&layout, CellStore(&store)).unwrap();
    let mut s = reg.fetch();
    s.write_to_cache(&low, 0b0101).unwrap();
    assert_eq!(s.get(), 0b0101);
    assert_eq!(store.get(), 0b1010);
    assert_eq!(reg.fetch().get(), 0b1010);
}

#[test]
fn twelve_bit_layout_scenario() {
    let layout = u64_layout(vec![
        single_field("F1", half_open(0, 4)),
        single_field("F2", half_open(4, 8)),
        single_field("F3", half_open(8, 12)),
    ]);
    let (f1, f2, f3) = (layout.field("F1").unwrap(), layout.field("F2").unwrap(), layout.field("F3").unwrap());
    let mut r = InlineRegister::zero(&layout).unwrap();
    r.write(&f1, 0b0111).unwrap();
    r.write(&f2, 0b1000).unwrap();
    r.write(&f3, 0b1111).unwrap();
    assert_eq!(r.get(), Ok(0b1111_1000_0111));
    assert_eq!(r.read(&f1).unwrap().value(), 0b0111);
    assert_eq!(r.read(&f2).unwrap().value(), 0b1000);
    assert_eq!(r.read(&f3).unwrap().value(), 0b1111);
}

#[test]
fn write_only_inline_register_refuses_reads() {
    let layout = BitAccess::new(
        "Sink".to_string(),
        &vec![
            TopLevelArgument::BaseType(BaseType::U32),
            TopLevelArgument::Kind(KindArg::from_name("write_only").unwrap()),
        ],
        &vec![single_field("F", single(0))],
        &vec![],
    )
    .unwrap();
    let f = layout.field("F").unwrap();
    let mut r = InlineRegister::zero(&layout).unwrap();
    assert_eq!(r.write(&f, 1), Ok(()));
    assert_eq!(r.read(&f), Err(AccessError::NotReadable));
    assert_eq!(r.get(), Err(AccessError::NotReadable));
}

#[test]
fn read_only_register_refuses_writes_and_reads_backend() {
    let store = Cell::new(0xabcdu64);
    let layout = BitAccess::new(
        "Status".to_string(),
        &vec![
            TopLevelArgument::BaseType(BaseType::U8),
            TopLevelArgument::Kind(KindArg::from_name("read_only").unwrap()),
            TopLevelArgument::ReadVia("load()".to_string()),
        ],
        &vec![single_field("High", explicit(4, 4))],
        &vec![],
    )
    .unwrap();
    let reg = ReadOnlyRegister::new(&layout, CellStore(&store)).unwrap();
    assert_eq!(reg.get(), 0xcd);
    assert_eq!(reg.read(&layout.field("High").unwrap()).unwrap().value(), 0xc);
    assert!(InlineRegister::zero(&layout).is_err());
    assert!(ReadWriteRegister::new(&layout, CellStore(&store)).is_err());
}

#[test]
fn unknown_mask_is_refused() {
    let layout = u64_layout(vec![single_field("A", single(3))]);
    let r = InlineRegister::zero(&layout).unwrap();
    let bogus = bitaccess::FieldDefinition::new(0b110);
    assert_eq!(r.read(&bogus), Err(AccessError::UnknownField));
    let s = Snapshot::new(&layout, 0);
    assert_eq!(s.read(&bogus), Err(AccessError::UnknownField));
}

#[test]
fn names_of_generated_items() {
    assert_eq!(inline_enum_ident("three_bits"), Some("ThreeBits".to_string()));
    assert_eq!(representation_struct_ident("via_tests"), Some("ViaTestsRepresentation".to_string()));
    assert_eq!(private_module_ident("ViaTests"), Some("via_tests".to_string()));
    assert_eq!(inline_enum_ident("a\u{c9}"), None);
    assert_eq!(representation_struct_ident("a\u{c9}"), None);
    assert_eq!(private_module_ident("a\u{c9}"), None);
}

#[test]
fn variants_declaration_forms() {
    let external = ExtraEnumAccess::parse(&vec![AttrToken::Ident("Mask".to_string())]);
    assert_eq!(external, Ok(ExtraEnumAccess::ExternalEnum("Mask".to_string())));
    let trailing = ExtraEnumAccess::parse(&vec![
        AttrToken::Ident("A".to_string()),
        AttrToken::FatArrow,
        AttrToken::Literal(7),
        AttrToken::Comma,
    ]);
    match trailing {
        Ok(ExtraEnumAccess::InlineEnum(a)) => {
            assert_eq!(a.items.len(), 1);
            assert_eq!(a.items[0].value, 7);
        },
        other => panic!("unexpected {:?}", other),
    }
}
