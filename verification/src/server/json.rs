//! Answers in JSON.

use crate::strings::{decimal, decimal_string, join, join_strings, lemma_views_push, views};
use vstd::prelude::*;

verus! {

/// A digit of a hexadecimal number.
pub open spec fn hex_digit(v: nat) -> char {
    if v < 10 {
        (v + '0' as nat) as char
    } else {
        (v - 10 + 'a' as nat) as char
    }
}

/// A character as it stands in a JSON string.
pub open spec fn escaped_char(c: char) -> Seq<char> {
    if c == '"' || c == '\\' {
        seq!['\\', c]
    } else if c == '\u{8}' {
        seq!['\\', 'b']
    } else if c == '\t' {
        seq!['\\', 't']
    } else if c == '\n' {
        seq!['\\', 'n']
    } else if c == '\u{c}' {
        seq!['\\', 'f']
    } else if c == '\r' {
        seq!['\\', 'r']
    } else if ' ' > c {
        seq!['\\', 'u', '0', '0', hex_digit(c as nat / 16), hex_digit(c as nat % 16)]
    } else {
        seq![c]
    }
}

/// A text as it stands in a JSON string.
pub open spec fn escaped(s: Seq<char>) -> Seq<char>
    decreases s.len(),
{
    if s.len() == 0 {
        Seq::empty()
    } else {
        escaped(s.drop_last()) + escaped_char(s.last())
    }
}

/// A text as a JSON string.
pub open spec fn quoted(s: Seq<char>) -> Seq<char> {
    seq!['"'] + escaped(s) + seq!['"']
}

/// `serde_json::to_string` writes a text as a JSON string: quotes, backslashes and control
/// characters are escaped, all else stays.
#[verifier::external_body]
fn quote(s: &str) -> (r: String)
    ensures
        r@ == quoted(s@),
{
    match serde_json::to_string(s) {
        Ok(text) => text,
        Err(e) => e.to_string(),
    }
}

/// A field of a JSON object.
pub open spec fn field(name: Seq<char>, value: Seq<char>) -> Seq<char> {
    quoted(name) + ":"@ + value
}

/// A JSON object of fields.
pub open spec fn object(fields: Seq<Seq<char>>) -> Seq<char> {
    "{"@ + join(fields, ","@) + "}"@
}

/// A truth value in JSON.
pub open spec fn truth(b: bool) -> Seq<char> {
    if b {
        "true"@
    } else {
        "false"@
    }
}

/// Adds a field.
fn push_field(fields: &mut Vec<String>, name: &str, value: &str)
    ensures
        views(final(fields)@) == views(old(fields)@).push(field(name@, value@)),
{
    let mut text = quote(name);
    text.push_str(":");
    text.push_str(value);
    proof {
        lemma_views_push(fields@, text);
    }
    fields.push(text);
}

/// Adds a number.
fn push_number(fields: &mut Vec<String>, name: &str, value: u64)
    ensures
        views(final(fields)@) == views(old(fields)@).push(field(name@, decimal(value as nat))),
{
    push_field(fields, name, decimal_string(value).as_str());
}

/// A truth value in JSON.
fn truth_text(b: bool) -> (r: &'static str)
    ensures
        r@ == truth(b),
{
    if b {
        "true"
    } else {
        "false"
    }
}

/// A JSON object of fields.
fn object_text(fields: &Vec<String>) -> (r: String)
    ensures
        r@ == object(views(fields@)),
{
    let mut r = "{".to_owned();
    r.push_str(join_strings(fields, ",").as_str());
    r.push_str("}");
    r
}

/// An answer to a request: a status and a body in JSON.
pub struct JsonAnswer {
    pub status: u16,
    pub body: String,
}

/// The body of an answer that refuses a request.
pub open spec fn error_body(message: Seq<char>) -> Seq<char> {
    object(
        seq![
            field("error"@, quoted(message)),
            field("message"@, quoted(message)),
            field("success"@, "false"@),
        ],
    )
}

/// The answer that refuses a request.
pub fn json_error(status: u16, message: &str) -> (r: JsonAnswer)
    ensures
        r.status == status,
        r.body@ == error_body(message@),
{
    let said = quote(message);
    let mut fields: Vec<String> = Vec::new();
    push_field(&mut fields, "error", said.as_str());
    push_field(&mut fields, "message", said.as_str());
    push_field(&mut fields, "success", "false");
    assert(views(fields@) =~= seq![
        field("error"@, quoted(message@)),
        field("message"@, quoted(message@)),
        field("success"@, "false"@),
    ]);
    JsonAnswer { status, body: object_text(&fields) }
}

/// The answer once a voice is warm.
pub fn warm_answer(voice: &str) -> (r: JsonAnswer)
    ensures
        r.status == 200,
        r.body@ == object(
            seq![field("status"@, quoted("ready"@)), field("voice"@, quoted(voice@))],
        ),
{
    let mut fields: Vec<String> = Vec::new();
    push_field(&mut fields, "status", quote("ready").as_str());
    push_field(&mut fields, "voice", quote(voice).as_str());
    assert(views(fields@) =~= seq![
        field("status"@, quoted("ready"@)),
        field("voice"@, quoted(voice@)),
    ]);
    JsonAnswer { status: 200, body: object_text(&fields) }
}

/// The answer that lists voices.
pub fn voices_answer(voices: &Vec<String>) -> (r: JsonAnswer)
    ensures
        r.status == 200,
        r.body@ == object(
            seq![
                field(
                    "voices"@,
                    "["@ + join(views(voices@).map_values(|v: Seq<char>| quoted(v)), ","@) + "]"@,
                ),
            ],
        ),
{
    let ghost all = views(voices@).map_values(|v: Seq<char>| quoted(v));
    let mut names: Vec<String> = Vec::new();
    assert(views(names@) =~= all.take(0));
    for i in 0..voices.len()
        invariant
            all == views(voices@).map_values(|v: Seq<char>| quoted(v)),
            views(names@) == all.take(i as int),
    {
        let name = quote(voices[i].as_str());
        proof {
            lemma_views_push(names@, name);
        }
        names.push(name);
        assert(views(names@) =~= all.take(i + 1));
    }
    assert(all.take(voices@.len() as int) =~= all);
    let mut list = "[".to_owned();
    list.push_str(join_strings(&names, ",").as_str());
    list.push_str("]");
    let mut fields: Vec<String> = Vec::new();
    push_field(&mut fields, "voices", list.as_str());
    assert(views(fields@) =~= seq![field("voices"@, list@)]);
    JsonAnswer { status: 200, body: object_text(&fields) }
}

/// How a server is doing.
pub struct ServerStatus {
    pub cached_pipelines: usize,
    pub pipeline_cache_capacity: usize,
    pub pipeline_cache_hits: u64,
    pub pipeline_cache_misses: u64,
    pub pipeline_evictions: u64,
    pub queued_requests: usize,
    pub busy: bool,
    pub max_text_chars: usize,
    pub max_batch_items: usize,
}

/// The fields that tell how a server is doing.
pub open spec fn status_fields(s: ServerStatus) -> Seq<Seq<char>> {
    seq![
        field("busy"@, truth(s.busy)),
        field("cached_pipelines"@, decimal(s.cached_pipelines as nat)),
        field("gpu_inference_serialized"@, "true"@),
        field("max_batch_items"@, decimal(s.max_batch_items as nat)),
        field("max_text_chars"@, decimal(s.max_text_chars as nat)),
        field("pipeline_cache_capacity"@, decimal(s.pipeline_cache_capacity as nat)),
        field("pipeline_cache_hits"@, decimal(s.pipeline_cache_hits as nat)),
        field("pipeline_cache_misses"@, decimal(s.pipeline_cache_misses as nat)),
        field("pipeline_evictions"@, decimal(s.pipeline_evictions as nat)),
        field("queued_requests"@, decimal(s.queued_requests as nat)),
        field("status"@, quoted("ready"@)),
    ]
}

/// The answer that tells how a server is doing.
pub fn status_answer(s: &ServerStatus) -> (r: JsonAnswer)
    ensures
        r.status == 200,
        r.body@ == object(status_fields(*s)),
{
    let mut fields: Vec<String> = Vec::new();
    push_field(&mut fields, "busy", truth_text(s.busy));
    push_number(&mut fields, "cached_pipelines", s.cached_pipelines as u64);
    push_field(&mut fields, "gpu_inference_serialized", "true");
    push_number(&mut fields, "max_batch_items", s.max_batch_items as u64);
    push_number(&mut fields, "max_text_chars", s.max_text_chars as u64);
    push_number(&mut fields, "pipeline_cache_capacity", s.pipeline_cache_capacity as u64);
    push_number(&mut fields, "pipeline_cache_hits", s.pipeline_cache_hits);
    push_number(&mut fields, "pipeline_cache_misses", s.pipeline_cache_misses);
    push_number(&mut fields, "pipeline_evictions", s.pipeline_evictions);
    push_number(&mut fields, "queued_requests", s.queued_requests as u64);
    push_field(&mut fields, "status", quote("ready").as_str());
    assert(views(fields@) =~= status_fields(*s));
    JsonAnswer { status: 200, body: object_text(&fields) }
}

/// The value of a hexadecimal digit.
pub open spec fn hex_value(c: char) -> nat {
    if c <= '9' {
        (c as nat - '0' as nat) as nat
    } else {
        (c as nat - 'a' as nat + 10) as nat
    }
}

/// The character that an escape in a JSON string stands for.
pub open spec fn unescaped(s: Seq<char>) -> char {
    if s.len() == 1 {
        s[0]
    } else if s[1] == 'b' {
        '\u{8}'
    } else if s[1] == 't' {
        '\u{9}'
    } else if s[1] == 'n' {
        '\u{a}'
    } else if s[1] == 'f' {
        '\u{c}'
    } else if s[1] == 'r' {
        '\u{d}'
    } else if s[1] == 'u' {
        (4096 * hex_value(s[2]) + 256 * hex_value(s[3]) + 16 * hex_value(s[4]) + hex_value(
            s[5],
        )) as char
    } else {
        s[1]
    }
}

/// A character in a JSON string is read back from what stands there: the character itself, or a
/// backslash and what follows it; and no control character stands there, nor a quote that is not
/// behind a backslash.
pub proof fn characters_are_read_back(c: char, i: int)
    requires
        0 <= i < escaped_char(c).len(),
    ensures
        unescaped(escaped_char(c)) == c,
        escaped_char(c)[i] as u32 >= 32,
        escaped_char(c).len() == 1 ==> c != '"' && c != '\\',
        escaped_char(c).len() > 1 ==> escaped_char(c)[0] == '\\',
        escaped_char(c).len() == 1 || escaped_char(c).len() == 2 || escaped_char(c).len() == 6
            && escaped_char(c)[1] == 'u',
{
}

/// A text is escaped character by character.
pub proof fn texts_are_escaped_in_order(a: Seq<char>, b: Seq<char>, c: char)
    ensures
        escaped(a + b) == escaped(a) + escaped(b),
        escaped(seq![c]) == escaped_char(c),
    decreases b.len(),
{
    assert(seq![c].drop_last().len() == 0);
    assert(escaped(seq![c].drop_last()) =~= Seq::empty());
    assert(escaped(seq![c]) =~= escaped_char(c));
    if b.len() == 0 {
        assert(a + b =~= a);
        assert(escaped(a) + escaped(b) =~= escaped(a));
    } else {
        texts_are_escaped_in_order(a, b.drop_last(), c);
        assert((a + b).drop_last() =~= a + b.drop_last());
        assert((a + b).last() == b.last());
        assert(escaped(a + b) =~= escaped(a) + escaped(b));
    }
}

} // verus!
