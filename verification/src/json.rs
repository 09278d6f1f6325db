//! Reading and writing JSON text.

use vstd::prelude::*;

verus! {

/// What `serde_json` reads of the member `key` of the JSON text `text`: an error text when
/// the text is not JSON, `None` when it is JSON without a string member of that name.
pub uninterp spec fn json_string_member(text: Seq<char>, key: Seq<char>) -> Result<
    Option<Seq<char>>,
    Seq<char>,
>;

/// What is read of a string member.
pub open spec fn string_value(value: Seq<char>) -> Result<Option<Seq<char>>, Seq<char>> {
    Ok(Some(value))
}

/// Reads a string member of a JSON text.
///
/// Parses with `serde_json::from_str` and looks the member up with
/// `serde_json::Value::get` and `as_str`. The contract names what these return, and the text
/// of the error.
#[verifier::external_body]
pub(crate) fn string_member(text: &str, key: &str) -> (r: Result<Option<String>, String>)
    ensures
        match r {
            Ok(member) => json_string_member(text@, key@) is Ok && json_string_member(text@, key@)->Ok_0
                == member.deep_view(),
            Err(error) => json_string_member(text@, key@) is Err && json_string_member(
                text@,
                key@,
            )->Err_0 == error@,
        },
{
    let value: serde_json::Value = serde_json::from_str(text).map_err(|error| error.to_string())?;
    Ok(value.get(key).and_then(|member| member.as_str()).map(|member| member.to_owned()))
}

/// The compact JSON text of the value that `serde_json` reads in `text`: `None` when the text
/// is not JSON.
pub uninterp spec fn json_compact(text: Seq<char>) -> Option<Seq<char>>;

/// Rewrites a JSON text in compact form.
///
/// Parses with `serde_json::from_str` and formats the value with `to_string`. The contract
/// names what comes out; it claims that compact text holds no line end, neither a line feed
/// nor a carriage return: the formatter writes no white space and escapes both in strings.
#[verifier::external_body]
pub(crate) fn compact(text: &str) -> (r: Option<String>)
    ensures
        r.deep_view() == json_compact(text@),
        r matches Some(line) ==> is_one_line(line@),
{
    let value: serde_json::Value = serde_json::from_str(text).ok()?;
    Some(value.to_string())
}

/// The compact JSON text that `serde_json` writes for an object with string members, given
/// their names and values.
pub uninterp spec fn json_object(keys: Seq<Seq<char>>, values: Seq<Seq<char>>) -> Seq<char>;

/// Writes a JSON object with string members.
///
/// Collects the members into a `serde_json::Map` and formats it with
/// `serde_json::Value::to_string`. The contract names the text and claims that, when no two
/// members have the same name, reading a member gives back what was written.
#[verifier::external_body]
pub(crate) fn string_object(keys: &Vec<String>, values: &Vec<String>) -> (r: String)
    requires
        keys@.len() == values@.len(),
    ensures
        r@ == json_object(keys.deep_view(), values.deep_view()),
        keys.deep_view().no_duplicates() ==> forall|i: int|
            0 <= i < keys@.len() ==> json_string_member(r@, #[trigger] keys.deep_view()[i])
                == string_value(values.deep_view()[i]),
{
    let values = values.iter().cloned().map(serde_json::Value::String);
    let members: serde_json::Map<String, serde_json::Value> =
        keys.iter().cloned().zip(values).collect();
    serde_json::Value::Object(members).to_string()
}

/// The text holds no character that ends a line.
pub open spec fn is_one_line(s: Seq<char>) -> bool {
    forall|i: int| 0 <= i < s.len() ==> #[trigger] s[i] != '\n' && s[i] != '\r'
}

} // verus!
