//! Record identifiers: a prefix naming the kind of record, an underscore and
//! the first eight hex digits of a random UUID.
use vstd::prelude::*;
use vstd::string::*;
use vstd::utf8::*;

verus! {

/// A lowercase hexadecimal digit.
pub open spec fn is_lower_hex(c: char) -> bool {
    ('0' <= c && c <= '9') || ('a' <= c && c <= 'f')
}

/// The hyphenated lowercase text form of a UUID: 36 characters, hyphens at
/// positions 8, 13, 18 and 23, lowercase hex digits everywhere else.
pub open spec fn is_uuid_text(s: Seq<char>) -> bool {
    &&& s.len() == 36
    &&& forall|i: int|
        0 <= i < 36 ==> (if i == 8 || i == 13 || i == 18 || i == 23 {
            #[trigger] s[i] == '-'
        } else {
            is_lower_hex(s[i])
        })
}

/// `uuid::Uuid::new_v4()` turned into text with `to_string()`.
///
/// The UUID is random, so nothing is claimed of its digits but their shape:
/// uuid's `Display` writes the hyphenated lowercase form (`format_hyphenated`
/// in its fmt.rs), and `new_v4` sets the version nibble, the 15th character,
/// to 4.
#[verifier::external_body]
pub(crate) fn random_uuid_text() -> (s: String)
    ensures
        is_uuid_text(s@),
        s@[14] == '4',
{
    uuid::Uuid::new_v4().to_string()
}

/// `id` is `prefix`, an underscore and eight lowercase hex digits.
pub open spec fn is_generated_id(prefix: Seq<char>, id: Seq<char>) -> bool {
    &&& id.len() == prefix.len() + 9
    &&& id.subrange(0, prefix.len() as int) == prefix
    &&& id[prefix.len() as int] == '_'
    &&& forall|i: int| prefix.len() < i < id.len() ==> is_lower_hex(#[trigger] id[i])
}

/// `prefix`, an underscore and the first eight characters of `uuid_text`.
pub fn id_from_uuid_text(prefix: &str, uuid_text: &String) -> (id: String)
    requires
        is_uuid_text(uuid_text@),
    ensures
        id@ == prefix@ + seq!['_'] + uuid_text@.subrange(0, 8),
        is_generated_id(prefix@, id@),
{
    let u = uuid_text.as_str();
    assert(is_ascii_chars(u@)) by {
        assert forall|i: int| 0 <= i < u@.len() implies '\0' <= #[trigger] u@[i] <= '\u{7f}' by {
            if i == 8 || i == 13 || i == 18 || i == 23 {
                assert(u@[i] == '-');
            } else {
                assert(is_lower_hex(u@[i]));
            }
        }
    }
    let head = u.substring_ascii(0, 8);
    let mut id = String::from_str(prefix);
    id.append("_");
    id.append(head);
    proof {
        reveal_strlit("_");
        let p = prefix@;
        let r = id@;
        assert(r =~= p + seq!['_'] + uuid_text@.subrange(0, 8));
        assert(r.subrange(0, p.len() as int) =~= p);
        assert forall|i: int| p.len() < i < r.len() implies is_lower_hex(#[trigger] r[i]) by {
            let k = i - p.len() - 1;
            assert(r[i] == uuid_text@[k]);
            assert(0 <= k < 8);
            assert(is_lower_hex(uuid_text@[k]));
        }
    }
    id
}

} // verus!
