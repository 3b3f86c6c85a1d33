use bitaccess::register::InlineRegister;
use bitaccess::{BaseType, BitAccess, KindArg, TopLevelArgument};

#[test]
fn can_set_and_get_value_with_no_warnings() {
    let layout = BitAccess::new(
        "Variantless".to_string(),
        &vec![
            TopLevelArgument::BaseType(BaseType::U64),
            TopLevelArgument::Kind(KindArg::from_name("default").unwrap()),
        ],
        &vec![],
        &vec![],
    )
    .unwrap();
    let mut v = InlineRegister::zero(&layout).unwrap();
    v.set(1).unwrap();
    assert_eq!(v.get(), Ok(1));
}
