//! Collections and saved filters: the names, types and payloads they accept.
use crate::text;
use vstd::prelude::*;

verus! {

pub const MAX_NAME_CHARS: usize = 64;

pub const MAX_FILTER_PAYLOAD_BYTES: usize = 8192;

/// A name (trimmed) that is not blank and has at most 64 characters.
pub open spec fn name_result(value: Seq<char>, label: Seq<char>) -> Result<Seq<char>, Seq<char>> {
    let t = text::trim_seq(value);
    if t.len() == 0 {
        Err(label + " name is required"@)
    } else if t.len() > 64 {
        Err(label + " name must be "@ + text::decimal(64) + " characters or fewer"@)
    } else {
        Ok(t)
    }
}

pub fn normalize_name(value: &str, label: &str) -> (r: Result<String, String>)
    ensures
        match (r, name_result(value@, label@)) {
            (Ok(a), Ok(b)) => a@ == b,
            (Err(a), Err(b)) => a@ == b,
            _ => false,
        },
{
    let t = text::trim_str(value);
    if t.len() == 0 {
        let mut msg = text::chars_of(label);
        text::push_str(&mut msg, " name is required");
        return Err(text::string_from(msg.as_slice()));
    }
    if t.len() > MAX_NAME_CHARS {
        let mut msg = text::chars_of(label);
        text::push_str(&mut msg, " name must be ");
        text::push_all(&mut msg, text::u64_text(MAX_NAME_CHARS as u64).as_slice());
        text::push_str(&mut msg, " characters or fewer");
        return Err(text::string_from(msg.as_slice()));
    }
    Ok(text::string_from(t.as_slice()))
}

proof fn lemma_trim_idempotent(s: Seq<char>)
    ensures
        text::trim_seq(text::trim_seq(s)) == text::trim_seq(s),
{
    let t = text::trim_seq(s);
    lemma_trim_start_settles(s);
    lemma_trim_end_keeps_start(text::trim_start(s));
    lemma_trim_start_of_clean(t);
    lemma_trim_end_settles(text::trim_start(s));
}

proof fn lemma_trim_start_settles(s: Seq<char>)
    ensures
        text::trim_start(s).len() == 0 || !text::is_ws(text::trim_start(s)[0]),
    decreases s.len(),
{
    if s.len() > 0 && text::is_ws(s[0]) {
        lemma_trim_start_settles(s.drop_first());
    }
}

proof fn lemma_trim_end_settles(s: Seq<char>)
    ensures
        text::trim_end(s).len() == 0 || !text::is_ws(text::trim_end(s).last()),
        text::trim_end(text::trim_end(s)) == text::trim_end(s),
    decreases s.len(),
{
    if s.len() > 0 && text::is_ws(s.last()) {
        lemma_trim_end_settles(s.drop_last());
    }
}

/// Trimming the end of a text that starts with a non-space keeps that start.
proof fn lemma_trim_end_keeps_start(s: Seq<char>)
    requires
        s.len() == 0 || !text::is_ws(s[0]),
    ensures
        text::trim_end(s).len() == 0 || (text::trim_end(s)[0] == s[0] && text::trim_end(s).len() > 0),
        text::trim_end(s).len() == 0 || !text::is_ws(text::trim_end(s)[0]),
    decreases s.len(),
{
    if s.len() > 0 && text::is_ws(s.last()) {
        if s.len() > 1 {
            assert(s.drop_last()[0] == s[0]);
        }
        lemma_trim_end_keeps_start(s.drop_last());
    }
}

proof fn lemma_trim_start_of_clean(t: Seq<char>)
    requires
        t.len() == 0 || !text::is_ws(t[0]),
    ensures
        text::trim_start(t) == t,
{
}

/// A normalized name normalizes to itself.
pub proof fn lemma_name_settles(value: Seq<char>, label: Seq<char>)
    requires
        name_result(value, label) is Ok,
    ensures
        name_result(name_result(value, label)->Ok_0, label) == name_result(value, label),
{
    lemma_trim_idempotent(value);
}

/// The kinds of saved filter: `local` or `wallhaven`, named in any ASCII case and with
/// surrounding whitespace.
pub open spec fn filter_type_result(value: Seq<char>) -> Result<Seq<char>, Seq<char>> {
    let n = text::lower_seq(text::trim_seq(value));
    if n == "local"@ || n == "wallhaven"@ {
        Ok(n)
    } else {
        Err("Saved filter type must be local or wallhaven"@)
    }
}

pub fn normalize_filter_type(value: &str) -> (r: Result<String, String>)
    ensures
        match (r, filter_type_result(value@)) {
            (Ok(a), Ok(b)) => a@ == b,
            (Err(a), Err(b)) => a@ == b,
            _ => false,
        },
{
    let n = text::lower_vec(text::trim_str(value).as_slice());
    if text::chars_eq_str(n.as_slice(), "local") || text::chars_eq_str(n.as_slice(), "wallhaven") {
        Ok(text::string_from(n.as_slice()))
    } else {
        Err(text::owned("Saved filter type must be local or wallhaven"))
    }
}

/// What `serde_json::from_str::<serde_json::Value>` gives for a text: `None` when it is
/// not JSON, else whether the value is an object and the value's compact serialization.
pub uninterp spec fn json_value(text: Seq<char>) -> Option<(bool, Seq<char>)>;

/// Parses JSON into a `serde_json::Value` and reports `Value::is_object` and
/// `Value::to_string`; the result is `json_value`.
#[verifier::external_body]
fn parse_json_value(text: &str) -> (r: Option<(bool, String)>)
    ensures
        match r {
            Some((o, s)) => json_value(text@) == Some((o, s@)),
            None => json_value(text@) is None,
        },
{
    serde_json::from_str::<serde_json::Value>(text).ok().map(|v| (v.is_object(), v.to_string()))
}

/// A saved filter's payload: a JSON object of at most 8192 bytes (trimmed), stored in
/// its compact serialization.
pub open spec fn payload_result(value: Seq<char>) -> Result<Seq<char>, Seq<char>> {
    let t = text::trim_seq(value);
    if t.len() == 0 {
        Err("Saved filter payload is required"@)
    } else if (vstd::utf8::encode_utf8(t).len() as usize) > 8192 {
        Err("Saved filter payload is too large"@)
    } else {
        match json_value(t) {
            None => Err("Saved filter payload must be valid JSON"@),
            Some((is_object, serialized)) => if is_object {
                Ok(serialized)
            } else {
                Err("Saved filter payload must be a JSON object"@)
            },
        }
    }
}

pub fn normalize_filter_payload(value: &str) -> (r: Result<String, String>)
    ensures
        match (r, payload_result(value@)) {
            (Ok(a), Ok(b)) => a@ == b,
            (Err(a), Err(b)) => a@ == b,
            _ => false,
        },
{
    let t = text::string_from(text::trim_str(value).as_slice());
    let ts = t.as_str();
    if ts.is_empty() {
        return Err(text::owned("Saved filter payload is required"));
    }
    if ts.len() > MAX_FILTER_PAYLOAD_BYTES {
        return Err(text::owned("Saved filter payload is too large"));
    }
    match parse_json_value(ts) {
        None => Err(text::owned("Saved filter payload must be valid JSON")),
        Some((is_object, serialized)) => if is_object {
            Ok(serialized)
        } else {
            Err(text::owned("Saved filter payload must be a JSON object"))
        },
    }
}

/// The checks on ids before a collection or filter is changed.
pub fn positive_id_check(id: i64, message: &str) -> (r: Result<(), String>)
    ensures
        id > 0 ==> r is Ok,
        id <= 0 ==> (r matches Err(e) && e@ == message@),
{
    if id <= 0 {
        Err(text::owned(message))
    } else {
        Ok(())
    }
}

/// The error of a deletion that found nothing: `{label} {id} was not found`.
pub fn not_found_message(label: &str, id: i64) -> (r: String)
    ensures
        r@ == label@ + seq![' '] + text::int_text(id as int) + " was not found"@,
{
    let mut msg = text::chars_of(label);
    msg.push(' ');
    text::push_all(&mut msg, text::i64_text(id).as_slice());
    text::push_str(&mut msg, " was not found");
    text::string_from(msg.as_slice())
}

} // verus!
