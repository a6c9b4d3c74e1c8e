//! Unique identifiers: the symbols that the runtime hands out.
use vstd::prelude::*;

verus! {

pub open spec fn is_hex_lower(c: char) -> bool {
    ('0' <= c && c <= '9') || ('a' <= c && c <= 'f')
}

/// The text of a version-4 UUID: 36 characters, lower-case hexadecimal digits
/// with hyphens at positions 8, 13, 18 and 23, the version digit `4` at 14 and
/// one of the variant digits `8`, `9`, `a`, `b` at 19.
pub open spec fn is_uuid_text(s: Seq<char>) -> bool {
    &&& s.len() == 36
    &&& forall|k: int|
        0 <= k < 36 ==> if k == 8 || k == 13 || k == 18 || k == 23 {
            s[k] == '-'
        } else {
            is_hex_lower(#[trigger] s[k])
        }
    &&& s[14] == '4'
    &&& (s[19] == '8' || s[19] == '9' || s[19] == 'a' || s[19] == 'b')
}

/// Calls `uuid::Uuid::new_v4` and formats the result with `Display`, which the
/// crate's source writes as lower-case hyphenated hexadecimal. Its random bits
/// are not stated: only the shape of the text is. It panics only where the
/// operating system's source of random numbers fails.
#[verifier::external_body]
pub(crate) fn new_uuid_text() -> (s: String)
    ensures
        is_uuid_text(s@),
{
    uuid::Uuid::new_v4().to_string()
}

/// The table of the runtime's built-in symbols, each a fresh unique identifier.
pub struct SymbolTable {
    pub pretty_print: String,
}

/// Makes the table, with a fresh identifier for each symbol.
pub fn new_symbol_table() -> (t: SymbolTable)
    ensures
        is_uuid_text(t.pretty_print@),
{
    SymbolTable { pretty_print: new_uuid_text() }
}

/// The identifier of the built-in symbol `name`; the only one is `PrettyPrint`.
pub fn get_symbol(table: &SymbolTable, name: &str) -> (s: String)
    requires
        name@ == "PrettyPrint"@,
    ensures
        s@ == table.pretty_print@,
{
    table.pretty_print.clone()
}

} // verus!
