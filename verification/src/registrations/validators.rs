//! Which names a registration may have.
use vstd::prelude::*;
use vstd::string::StringSliceAdditionalSpecFns;
use vstd::utf8::encode_utf8;

use super::RegistrationError;
use crate::text::{chars_of, same};

verus! {

/// The longest name, in bytes.
pub const MAX_NAME_LEN: usize = 64;

/// Names that stand for the proxy's own endpoints.
pub open spec fn reserved(s: Seq<char>) -> bool {
    ||| s == "livez"@
    ||| s == "readyz"@
    ||| s == "version"@
    ||| s == "health"@
    ||| s == "skill"@
    ||| s == "tools"@
    ||| s == "models"@
    ||| s == "admin"@
    ||| s == "api"@
    ||| s == "metrics"@
    ||| s == "audit"@
}

/// A lower-case ASCII letter, an ASCII digit or a dash.
pub open spec fn name_char(c: char) -> bool {
    ('a' <= c <= 'z') || ('0' <= c <= '9') || c == '-'
}

/// Whether every character may stand in a name.
pub open spec fn name_chars(s: Seq<char>) -> bool {
    forall|i: int| 0 <= i < s.len() ==> name_char(#[trigger] s[i])
}

/// Whether a name may be registered.
pub open spec fn valid_name(s: Seq<char>) -> bool {
    &&& s.len() > 0
    &&& encode_utf8(s).len() <= MAX_NAME_LEN
    &&& name_chars(s)
    &&& !reserved(s)
}

/// Whether `e` is the error for a name that may not be registered: the rules
/// are tested in the order empty, too long, character not allowed, reserved.
pub open spec fn name_error(s: Seq<char>, e: RegistrationError) -> bool {
    match e {
        RegistrationError::InvalidName(why) => if s.len() == 0 {
            why@ == "name is empty"@
        } else if encode_utf8(s).len() > MAX_NAME_LEN {
            why@ == "name exceeds 64 characters"@
        } else {
            !name_chars(s) && why@ == "name contains invalid characters (allowed: a-z 0-9 -)"@
        },
        RegistrationError::ReservedName => s.len() > 0 && encode_utf8(s).len() <= MAX_NAME_LEN
            && name_chars(s) && reserved(s),
        _ => false,
    }
}

/// The names that [`reserved`] lists.
pub fn is_reserved(name: &str) -> (r: bool)
    ensures
        r == reserved(name@),
{
    same(name, "livez") || same(name, "readyz") || same(name, "version") || same(name, "health")
        || same(name, "skill") || same(name, "tools") || same(name, "models") || same(name, "admin")
        || same(name, "api") || same(name, "metrics") || same(name, "audit")
}

fn all_name_chars(name: &str) -> (r: bool)
    ensures
        r == name_chars(name@),
{
    let cs = chars_of(name);
    let mut i: usize = 0;
    while i < cs.len()
        invariant
            cs@ == name@,
            i <= cs@.len(),
            forall|k: int| 0 <= k < i ==> name_char(#[trigger] cs@[k]),
        decreases cs.len() - i,
    {
        let c = cs[i];
        if !((c >= 'a' && c <= 'z') || (c >= '0' && c <= '9') || c == '-') {
            assert(!name_char(name@[i as int]));
            return false;
        }
        i = i + 1;
    }
    true
}

/// Whether `name` may be registered: not empty, at most 64 bytes, made of
/// lower-case ASCII letters, digits and dashes, and not reserved. The rules are
/// tested in this order, and the first one that fails gives the error.
pub fn validate_name(name: &str) -> (r: Result<(), RegistrationError>)
    ensures
        r is Ok <==> valid_name(name@),
        r matches Err(e) ==> name_error(name@, e),
{
    if name.is_empty() {
        return Err(RegistrationError::InvalidName("name is empty"));
    }
    if name.as_bytes().len() > MAX_NAME_LEN {
        return Err(RegistrationError::InvalidName("name exceeds 64 characters"));
    }
    if !all_name_chars(name) {
        return Err(
            RegistrationError::InvalidName(
                "name contains invalid characters (allowed: a-z 0-9 -)",
            ),
        );
    }
    if is_reserved(name) {
        return Err(RegistrationError::ReservedName);
    }
    Ok(())
}

/// A registered name can stand in a URL path as it is: it holds no slash, no
/// percent sign and no question mark, and it is none of the proxy's own
/// endpoints.
pub proof fn law_valid_names_are_path_segments(name: Seq<char>)
    requires
        valid_name(name),
    ensures
        !name.contains('/'),
        !name.contains('%'),
        !name.contains('?'),
        !name.contains('#'),
        !name.contains('.'),
        name != "admin"@,
        name != "api"@,
        name != "tools"@,
        name != "models"@,
{
    if name.contains('/') {
        let i = choose|i: int| 0 <= i < name.len() && name[i] == '/';
        assert(name_char(name[i]));
    }
    if name.contains('%') {
        let i = choose|i: int| 0 <= i < name.len() && name[i] == '%';
        assert(name_char(name[i]));
    }
    if name.contains('?') {
        let i = choose|i: int| 0 <= i < name.len() && name[i] == '?';
        assert(name_char(name[i]));
    }
    if name.contains('#') {
        let i = choose|i: int| 0 <= i < name.len() && name[i] == '#';
        assert(name_char(name[i]));
    }
    if name.contains('.') {
        let i = choose|i: int| 0 <= i < name.len() && name[i] == '.';
        assert(name_char(name[i]));
    }
}

/// A name may be registered exactly if it has from one to 64 bytes, is made of lower-case
/// ASCII letters, digits and dashes alone, and is none of the proxy's own endpoints.
pub proof fn law_names_that_may_be_registered(s: Seq<char>)
    ensures
        valid_name(s) <==> {
            &&& s.len() > 0
            &&& encode_utf8(s).len() <= 64
            &&& forall|c: char| #[trigger]
                s.contains(c) ==> 'a' <= c <= 'z' || '0' <= c <= '9' || c == '-'
            &&& s != "livez"@ && s != "readyz"@ && s != "version"@ && s != "health"@
            &&& s != "skill"@ && s != "tools"@ && s != "models"@ && s != "admin"@
            &&& s != "api"@ && s != "metrics"@ && s != "audit"@
        },
{
    if name_chars(s) {
        assert forall|c: char| #[trigger] s.contains(c) implies 'a' <= c <= 'z' || '0' <= c <= '9'
            || c == '-' by {
            let i = s.index_of(c);
            assert(name_char(s[i]));
        }
    } else {
        let i = choose|i: int| 0 <= i < s.len() && !name_char(#[trigger] s[i]);
        assert(s.contains(s[i]));
    }
}

/// A name may be registered or has an error, never both; only names of the endpoints are
/// called reserved.
pub proof fn law_refused_names_have_one_error(s: Seq<char>, e: RegistrationError)
    requires
        name_error(s, e),
    ensures
        !valid_name(s),
        e is ReservedName ==> s == "livez"@ || s == "readyz"@ || s == "version"@ || s == "health"@
            || s == "skill"@ || s == "tools"@ || s == "models"@ || s == "admin"@ || s == "api"@
            || s == "metrics"@ || s == "audit"@,
        s.len() == 0 ==> (e matches RegistrationError::InvalidName(why) && why@
            == "name is empty"@),
        s.len() > 0 && encode_utf8(s).len() > 64 ==> (e matches RegistrationError::InvalidName(why)
            && why@ == "name exceeds 64 characters"@),
{
}

} // verus!
