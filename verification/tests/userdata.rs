use mluau_types::{
    direct_userdata_get_field, DirectUserdataGetField, LightUserData, LuaType, LUA_TNUMBER,
};

struct DGet;

impl DirectUserdataGetField for DGet {
    const C_STR: &'static [u8] = "dget\0".as_bytes();
    const STR: &'static str = "dget";
}

#[test]
fn field_name_ends_in_nul() {
    assert_eq!(direct_userdata_get_field("dget"), Some(vec![100, 103, 101, 116, 0]));
    assert_eq!(direct_userdata_get_field("uget").unwrap(), "uget\0".as_bytes());
    assert_eq!(direct_userdata_get_field("\u{e9}\u{20ac}").unwrap(), "\u{e9}\u{20ac}\0".as_bytes());
    assert_eq!(direct_userdata_get_field(""), Some(vec![0]));
}

#[test]
fn field_name_without_inner_nul() {
    assert_eq!(direct_userdata_get_field("a\0b"), None);
    assert_eq!(direct_userdata_get_field("\0"), None);
}

#[test]
fn different_names_have_different_c_strings() {
    assert_ne!(direct_userdata_get_field("dget"), direct_userdata_get_field("uget"));
    assert_ne!(direct_userdata_get_field("dget"), direct_userdata_get_field("dge"));
}

#[test]
fn field_type_carries_both_names() {
    assert_eq!(direct_userdata_get_field(DGet::STR).unwrap(), DGet::C_STR);
}

#[test]
fn light_userdata_is_an_address() {
    assert!(LightUserData(16) == LightUserData(16));
    assert!(LightUserData(16) != LightUserData(0));
}

#[test]
fn lua_types_have_their_tags() {
    assert_eq!(<bool as LuaType>::type_id(), 1);
    assert_eq!(<LightUserData as LuaType>::type_id(), 2);
    assert_eq!(LUA_TNUMBER, 3);
}
