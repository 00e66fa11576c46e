//! Userdata: light userdata, direct fields and the type tags of Lua values.

use vstd::prelude::*;

verus! {

/// A "light" userdata value. Equivalent to an unmanaged raw pointer, by its address.
#[derive(Copy, Clone, PartialEq, Eq, Structural)]
pub struct LightUserData(pub usize);

/// Trait to define direct userdata fields
pub trait DirectUserdataGetField {
    /// the bytes of the C string to pass to luau, with the NUL that ends it
    const C_STR: &'static [u8];

    /// the internal rust str
    const STR: &'static str;
}

/// The bytes of the C string for `name`: its UTF-8 encoding and a NUL.
pub open spec fn c_string(name: Seq<char>) -> Seq<u8> {
    vstd::utf8::encode_utf8(name).push(0)
}

/// Whether `bytes` are those of a C string: a NUL ends them and none comes before it.
pub open spec fn is_c_string(bytes: Seq<u8>) -> bool {
    &&& bytes.len() > 0
    &&& forall|i: int| 0 <= i < bytes.len() ==> (#[trigger] bytes[i] == 0 <==> i == bytes.len() - 1)
}

/// The C string under which luau knows the direct userdata field `name`, or
/// `None` if a NUL inside the name would cut it short.
pub fn direct_userdata_get_field(name: &str) -> (c_str: Option<Vec<u8>>)
    ensures
        c_str is Some <==> !name@.contains('\0'),
        c_str matches Some(bytes) ==> bytes@ == c_string(name@) && is_c_string(bytes@),
        c_str matches Some(bytes) ==> {
            &&& bytes@.len() == vstd::utf8::encode_utf8(name@).len() + 1
            &&& forall|i: int|
                0 <= i < vstd::utf8::encode_utf8(name@).len() ==> #[trigger] bytes@[i]
                    == vstd::utf8::encode_utf8(name@)[i]
            &&& forall|i: int| 0 <= i < bytes@.len() - 1 ==> #[trigger] bytes@[i] != 0
            &&& bytes@.last() == 0
        },
{
    let bytes: &[u8] = name.as_bytes();
    let mut c_str: Vec<u8> = Vec::new();
    let mut i: usize = 0;
    proof {
        lemma_nul_byte_is_nul_char(name@);
    }
    while i < bytes.len()
        invariant
            bytes@ == vstd::utf8::encode_utf8(name@),
            bytes@.contains(0) <==> name@.contains('\0'),
            i <= bytes@.len(),
            c_str@ == bytes@.subrange(0, i as int),
            forall|k: int| 0 <= k < i ==> bytes@[k] != 0,
        decreases bytes.len() - i,
    {
        if bytes[i] == 0 {
            return None;
        }
        c_str.push(bytes[i]);
        i = i + 1;
    }
    c_str.push(0);
    assert(c_str@ =~= c_string(name@));
    Some(c_str)
}

/// No byte of the encoding of a character is zero but that of the NUL character.
proof fn lemma_scalar_bytes(scalar: u32)
    requires
        vstd::utf8::is_scalar(scalar),
    ensures
        vstd::utf8::encode_scalar(scalar).contains(0) <==> scalar == 0,
{
    let bytes = vstd::utf8::encode_scalar(scalar);
    if scalar <= 0x7F {
        assert((scalar & 0x7F) as u8 == 0 <==> scalar == 0) by (bit_vector)
            requires
                scalar <= 0x7F,
        ;
        assert(bytes[0] == 0 <==> scalar == 0);
    } else {
        assert forall|i: int| 0 <= i < bytes.len() implies bytes[i] != 0 by {
            let (b0, b1, b2, b3, b4, b5) = (
                ((scalar >> 6) & 0x1F) as u8,
                ((scalar >> 12) & 0x0F) as u8,
                ((scalar >> 18) & 0x7) as u8,
                (scalar & 0x3F) as u8,
                ((scalar >> 6) & 0x3F) as u8,
                ((scalar >> 12) & 0x3F) as u8,
            );
            assert(0xC0 | b0 != 0 && 0xE0 | b1 != 0 && 0xF0 | b2 != 0 && 0x80 | b3 != 0 && 0x80 | b4
                != 0 && 0x80 | b5 != 0) by (bit_vector);
        }
    }
}

/// The encoding of a string holds a zero byte exactly if the string holds a NUL.
pub proof fn lemma_nul_byte_is_nul_char(chars: Seq<char>)
    ensures
        vstd::utf8::encode_utf8(chars).contains(0) <==> chars.contains('\0'),
    decreases chars.len(),
{
    if chars.len() > 0 {
        let rest = chars.drop_first();
        let first: char = chars[0];
        let head = vstd::utf8::encode_scalar(first as u32);
        let tail = vstd::utf8::encode_utf8(rest);
        lemma_nul_byte_is_nul_char(rest);
        vstd::utf8::char_is_scalar(first);
        vstd::utf8::char_u32_cast(first, first as u32);
        vstd::utf8::char_u32_cast('\0', 0);
        lemma_scalar_bytes(first as u32);
        assert(vstd::utf8::encode_utf8(chars) == head + tail);
        if chars.contains('\0') {
            if chars[0] == '\0' {
                let i = choose|i: int| 0 <= i < head.len() && head[i] == 0;
                assert((head + tail)[i] == 0);
            } else {
                let k = choose|k: int| 0 <= k < chars.len() && chars[k] == '\0';
                assert(rest[k - 1] == '\0');
                let i = choose|i: int| 0 <= i < tail.len() && tail[i] == 0;
                assert((head + tail)[head.len() + i] == 0);
            }
        }
        if (head + tail).contains(0) {
            let i = choose|i: int| 0 <= i < (head + tail).len() && (head + tail)[i] == 0;
            if i < head.len() {
                assert(head[i] == 0);
                assert(first == '\0');
            } else {
                assert(tail[i - head.len()] == 0);
                let k = choose|k: int| 0 <= k < rest.len() && rest[k] == '\0';
                assert(chars[k + 1] == '\0');
            }
        }
    }
}

/// The name with a NUL behind it is a C string exactly if the name holds no NUL.
pub proof fn lemma_c_string_without_nul(name: Seq<char>)
    ensures
        is_c_string(c_string(name)) <==> !name.contains('\0'),
{
    let bytes = vstd::utf8::encode_utf8(name);
    lemma_nul_byte_is_nul_char(name);
    if bytes.contains(0) {
        let i = choose|i: int| 0 <= i < bytes.len() && bytes[i] == 0;
        assert(c_string(name)[i] == 0);
    }
}

/// The bytes of a C string but the last are the UTF-8 encoding of the name, and
/// the last is a NUL: decoding all but the last gives the name back.
pub proof fn lemma_c_string_decodes_to_name(name: Seq<char>)
    ensures
        c_string(name).len() == vstd::utf8::encode_utf8(name).len() + 1,
        forall|i: int|
            0 <= i < vstd::utf8::encode_utf8(name).len() ==> #[trigger] c_string(name)[i]
                == vstd::utf8::encode_utf8(name)[i],
        c_string(name).last() == 0,
        vstd::utf8::valid_utf8(c_string(name).drop_last()),
        vstd::utf8::decode_utf8(c_string(name).drop_last()) == name,
{
    assert(c_string(name).drop_last() =~= vstd::utf8::encode_utf8(name));
    vstd::utf8::encode_utf8_valid_utf8(name);
    vstd::utf8::encode_utf8_decode_utf8(name);
}

/// What luau is given for a direct field decodes to the name of the field, and
/// every name without a NUL is given to it.
pub proof fn lemma_field_name_reaches_luau(name: &str, c_str: Option<Vec<u8>>)
    requires
        call_ensures(direct_userdata_get_field, (name,), c_str),
    ensures
        c_str is None <==> name@.contains('\0'),
        c_str matches Some(bytes) ==> {
            &&& bytes@.len() > 0
            &&& bytes@.last() == 0
            &&& vstd::utf8::decode_utf8(bytes@.drop_last()) == name@
        },
{
    lemma_c_string_decodes_to_name(name@);
}

/// Different names have different C strings.
pub proof fn lemma_c_string_is_injective(a: Seq<char>, b: Seq<char>)
    requires
        c_string(a) == c_string(b),
    ensures
        a == b,
{
    assert(vstd::utf8::encode_utf8(a) =~= c_string(a).drop_last());
    assert(vstd::utf8::encode_utf8(b) =~= c_string(b).drop_last());
    vstd::utf8::encode_utf8_decode_utf8(a);
    vstd::utf8::encode_utf8_decode_utf8(b);
}

/// The tag of booleans in Luau.
pub const LUA_TBOOLEAN: i32 = 1;

/// The tag of light userdata in Luau.
pub const LUA_TLIGHTUSERDATA: i32 = 2;

/// The tag of numbers in Luau.
pub const LUA_TNUMBER: i32 = 3;

/// A Rust type that one type of Lua values is read as.
pub trait LuaType {
    /// The tag of that type of Lua values.
    spec fn type_tag() -> i32;

    /// The tag of that type of Lua values.
    fn type_id() -> (tag: i32)
        ensures
            tag == Self::type_tag(),
    ;
}

impl LuaType for bool {
    open spec fn type_tag() -> i32 {
        LUA_TBOOLEAN
    }

    fn type_id() -> (tag: i32)
        ensures
            tag == 1,
    {
        LUA_TBOOLEAN
    }
}

impl LuaType for LightUserData {
    open spec fn type_tag() -> i32 {
        LUA_TLIGHTUSERDATA
    }

    fn type_id() -> (tag: i32)
        ensures
            tag == 2,
    {
        LUA_TLIGHTUSERDATA
    }
}

} // verus!
