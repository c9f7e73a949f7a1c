use vstd::prelude::*;

verus! {

/// Whether `name` is a word that the target languages keep for themselves.
#[verifier::opaque]
pub open spec fn is_reserved(name: Seq<char>) -> bool {
    name == "alignas"@
        || name == "alignof"@
        || name == "auto"@
        || name == "bool"@
        || name == "break"@
        || name == "case"@
        || name == "catch"@
        || name == "char"@
        || name == "char16_t"@
        || name == "char32_t"@
        || name == "char8_t"@
        || name == "class"@
        || name == "const"@
        || name == "const_cast"@
        || name == "constexpr"@
        || name == "continue"@
        || name == "decltype"@
        || name == "default"@
        || name == "delete"@
        || name == "do"@
        || name == "double"@
        || name == "dynamic_cast"@
        || name == "else"@
        || name == "enum"@
        || name == "explicit"@
        || name == "export"@
        || name == "extern"@
        || name == "false"@
        || name == "float"@
        || name == "for"@
        || name == "friend"@
        || name == "goto"@
        || name == "if"@
        || name == "inline"@
        || name == "int"@
        || name == "long"@
        || name == "mutable"@
        || name == "namespace"@
        || name == "new"@
        || name == "noexcept"@
        || name == "nullptr"@
        || name == "operator"@
        || name == "private"@
        || name == "protected"@
        || name == "public"@
        || name == "register"@
        || name == "reinterpret_cast"@
        || name == "return"@
        || name == "short"@
        || name == "signed"@
        || name == "sizeof"@
        || name == "static"@
        || name == "static_assert"@
        || name == "static_cast"@
        || name == "struct"@
        || name == "switch"@
        || name == "template"@
        || name == "this"@
        || name == "thread_local"@
        || name == "throw"@
        || name == "true"@
        || name == "try"@
        || name == "typedef"@
        || name == "typename"@
        || name == "union"@
        || name == "unsigned"@
        || name == "using"@
        || name == "virtual"@
        || name == "void"@
        || name == "volatile"@
        || name == "wchar_t"@
        || name == "while"@
}

/// `name` as it can be written in the target languages: a word that they
/// keep for themselves gets an underscore at its end.
pub open spec fn escaped(name: Seq<char>) -> Seq<char> {
    if is_reserved(name) {
        name + "_"@
    } else {
        name
    }
}

/// Whether both texts are the same.
pub fn text_is(a: &str, b: &str) -> (r: bool)
    ensures
        r == (a@ == b@),
{
    let x = a.to_owned();
    let y = b.to_owned();
    x == y
}

pub fn is_reserved_word(name: &str) -> (r: bool)
    ensures
        r == is_reserved(name@),
{
    reveal(is_reserved);
    text_is(name, "alignas")
        || text_is(name, "alignof")
        || text_is(name, "auto")
        || text_is(name, "bool")
        || text_is(name, "break")
        || text_is(name, "case")
        || text_is(name, "catch")
        || text_is(name, "char")
        || text_is(name, "char16_t")
        || text_is(name, "char32_t")
        || text_is(name, "char8_t")
        || text_is(name, "class")
        || text_is(name, "const")
        || text_is(name, "const_cast")
        || text_is(name, "constexpr")
        || text_is(name, "continue")
        || text_is(name, "decltype")
        || text_is(name, "default")
        || text_is(name, "delete")
        || text_is(name, "do")
        || text_is(name, "double")
        || text_is(name, "dynamic_cast")
        || text_is(name, "else")
        || text_is(name, "enum")
        || text_is(name, "explicit")
        || text_is(name, "export")
        || text_is(name, "extern")
        || text_is(name, "false")
        || text_is(name, "float")
        || text_is(name, "for")
        || text_is(name, "friend")
        || text_is(name, "goto")
        || text_is(name, "if")
        || text_is(name, "inline")
        || text_is(name, "int")
        || text_is(name, "long")
        || text_is(name, "mutable")
        || text_is(name, "namespace")
        || text_is(name, "new")
        || text_is(name, "noexcept")
        || text_is(name, "nullptr")
        || text_is(name, "operator")
        || text_is(name, "private")
        || text_is(name, "protected")
        || text_is(name, "public")
        || text_is(name, "register")
        || text_is(name, "reinterpret_cast")
        || text_is(name, "return")
        || text_is(name, "short")
        || text_is(name, "signed")
        || text_is(name, "sizeof")
        || text_is(name, "static")
        || text_is(name, "static_assert")
        || text_is(name, "static_cast")
        || text_is(name, "struct")
        || text_is(name, "switch")
        || text_is(name, "template")
        || text_is(name, "this")
        || text_is(name, "thread_local")
        || text_is(name, "throw")
        || text_is(name, "true")
        || text_is(name, "try")
        || text_is(name, "typedef")
        || text_is(name, "typename")
        || text_is(name, "union")
        || text_is(name, "unsigned")
        || text_is(name, "using")
        || text_is(name, "virtual")
        || text_is(name, "void")
        || text_is(name, "volatile")
        || text_is(name, "wchar_t")
        || text_is(name, "while")
}

/// Puts an underscore at the end of `name` where it is a word that the
/// target languages keep for themselves.
pub fn escape(name: &mut String)
    ensures
        final(name)@ == escaped(old(name)@),
{
    if is_reserved_word(name.as_str()) {
        name.append("_");
    }
}

} // verus!
