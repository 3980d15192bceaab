//! JSON at the engine's edges: a verified emitter for the document the
//! engine writes to a vars command's standard input, and the trusted
//! boundary to `serde_json` for reading JSON handed back by the world.
use vstd::prelude::*;

use crate::data::{
    AWSAuthView, BasicAuthView, ParamView, RequestView, ResponseView, VarInfoView,
};
use crate::table::dict_uniq;
use crate::text::{dec_digits, sep_join, u64_to_string, join_strings, push_char};

verus! {

/// The character for one hexadecimal digit (lower case).
pub open spec fn hex_char(d: int) -> char {
    if d < 10 {
        crate::text::digit_char(d)
    } else if d == 10 {
        'a'
    } else if d == 11 {
        'b'
    } else if d == 12 {
        'c'
    } else if d == 13 {
        'd'
    } else if d == 14 {
        'e'
    } else {
        'f'
    }
}

/// How one character is written inside a JSON string literal.
pub open spec fn esc_char(c: char) -> Seq<char> {
    if c == '"' {
        "\\\""@
    } else if c == '\\' {
        "\\\\"@
    } else if c == '\n' {
        "\\n"@
    } else if c == '\r' {
        "\\r"@
    } else if c == '\t' {
        "\\t"@
    } else if c == '\u{8}' {
        "\\b"@
    } else if c == '\u{c}' {
        "\\f"@
    } else if (c as u32) < 32 {
        "\\u00"@ + seq![hex_char((c as u32) as int / 16), hex_char((c as u32) as int % 16)]
    } else {
        seq![c]
    }
}

/// A whole character sequence, escaped.
pub open spec fn esc_seq(s: Seq<char>) -> Seq<char>
    decreases s.len(),
{
    if s.len() == 0 {
        Seq::<char>::empty()
    } else {
        esc_seq(s.drop_last()) + esc_char(s.last())
    }
}

/// A JSON string literal.
pub open spec fn json_str(s: Seq<char>) -> Seq<char> {
    "\""@ + esc_seq(s) + "\""@
}

/// An optional string: a JSON string or `null`.
pub open spec fn json_opt_str(v: Option<Seq<char>>) -> Seq<char> {
    match v {
        Some(s) => json_str(s),
        None => "null"@,
    }
}

/// A JSON array of strings.
pub open spec fn json_str_list(vs: Seq<Seq<char>>) -> Seq<char> {
    "["@ + sep_join(vs.map_values(|v: Seq<char>| json_str(v)), ","@) + "]"@
}

/// A JSON object from string keys to string-list values.
pub open spec fn json_header_map(hs: Seq<(Seq<char>, Seq<Seq<char>>)>) -> Seq<char> {
    "{"@ + sep_join(
        hs.map_values(|p: (Seq<char>, Seq<Seq<char>>)| json_str(p.0) + ":"@ + json_str_list(p.1)),
        ","@,
    ) + "}"@
}

/// A JSON object from string keys to string values.
pub open spec fn json_str_map(vs: Seq<(Seq<char>, Seq<char>)>) -> Seq<char> {
    "{"@ + sep_join(
        vs.map_values(|p: (Seq<char>, Seq<char>)| json_str(p.0) + ":"@ + json_str(p.1)),
        ","@,
    ) + "}"@
}

/// One required-variable prerequisite, as JSON.
pub open spec fn json_param(p: ParamView) -> Seq<char> {
    "{\"name\":"@ + json_str(p.name) + ",\"desc\":"@ + json_str(p.desc) + "}"@
}

/// The prerequisite list, as JSON.
pub open spec fn json_params(ps: Seq<ParamView>) -> Seq<char> {
    "["@ + sep_join(ps.map_values(|p: ParamView| json_param(p)), ","@) + "]"@
}

/// Basic-auth credentials, as JSON.
pub open spec fn json_basic_auth(b: BasicAuthView) -> Seq<char> {
    "{\"user\":"@ + json_str(b.user) + ",\"password\":"@ + json_opt_str(b.password) + "}"@
}

/// AWS signing material, as JSON.
pub open spec fn json_aws_auth(a: AWSAuthView) -> Seq<char> {
    "{\"region\":"@ + json_opt_str(a.region) + ",\"service\":"@ + json_str(a.service)
        + ",\"key\":"@ + json_str(a.key) + ",\"secret\":"@ + json_str(a.secret) + ",\"token\":"@
        + json_opt_str(a.token) + ",\"endpoint\":"@ + json_opt_str(a.endpoint) + "}"@
}

/// One extraction rule, as JSON.
pub open spec fn json_var_info(v: VarInfoView) -> Seq<char> {
    "{\"expr\":"@ + json_opt_str(v.expr) + ",\"kind\":"@ + json_str(v.kind) + ",\"from\":"@
        + json_str(v.from) + ",\"default\":"@ + json_opt_str(v.default) + "}"@
}

/// The extraction-rule table, as JSON.
pub open spec fn json_var_infos(vs: Seq<(Seq<char>, VarInfoView)>) -> Seq<char> {
    "{"@ + sep_join(
        vs.map_values(|p: (Seq<char>, VarInfoView)| json_str(p.0) + ":"@ + json_var_info(p.1)),
        ","@,
    ) + "}"@
}

/// A field item, present or absent: the rendered `"name":` prefix glued
/// to an already-rendered value.
pub open spec fn opt_field(prefix: Seq<char>, v: Option<Seq<char>>) -> Seq<Seq<char>> {
    match v {
        Some(x) => seq![prefix + x],
        None => Seq::<Seq<char>>::empty(),
    }
}

/// An optional string field, rendered to a JSON string when present.
pub open spec fn opt_json_str(v: Option<Seq<char>>) -> Option<Seq<char>> {
    match v {
        Some(s) => Some(json_str(s)),
        None => None,
    }
}

/// The fields a request serializes, present ones only, in order.
pub open spec fn request_fields(r: RequestView) -> Seq<Seq<char>> {
    request_fields_a(r) + request_fields_b(r)
}

/// The first half of the request's fields.
pub open spec fn request_fields_a(r: RequestView) -> Seq<Seq<char>> {
    opt_field("\"id\":"@, opt_json_str(r.id)) + opt_field("\"desc\":"@, opt_json_str(r.desc))
        + seq!["\"uri\":"@ + json_str(r.uri)] + opt_field(
        "\"params\":"@,
        match r.params {
            Some(ps) => Some(json_params(ps)),
            None => None,
        },
    ) + opt_field(
        "\"timeout_ms\":"@,
        match r.timeout_ms {
            Some(t) => Some(dec_digits(t as nat)),
            None => None,
        },
    ) + opt_field("\"method\":"@, opt_json_str(r.method)) + opt_field(
        "\"basic_auth\":"@,
        match r.basic_auth {
            Some(b) => Some(json_basic_auth(b)),
            None => None,
        },
    )
}

/// The second half of the request's fields.
pub open spec fn request_fields_b(r: RequestView) -> Seq<Seq<char>> {
    opt_field(
        "\"aws_auth\":"@,
        match r.aws_auth {
            Some(a) => Some(json_aws_auth(a)),
            None => None,
        },
    ) + opt_field(
        "\"headers\":"@,
        match r.headers {
            Some(hs) => Some(json_header_map(hs)),
            None => None,
        },
    ) + opt_field(
        "\"form\":"@,
        match r.form {
            Some(f) => Some(json_str_map(f)),
            None => None,
        },
    ) + opt_field("\"body\":"@, opt_json_str(r.body)) + opt_field(
        "\"uri_list\":"@,
        match r.uri_list {
            Some(us) => Some(json_str_list(us)),
            None => None,
        },
    ) + opt_field("\"vars_command\":"@, opt_json_str(r.vars_command)) + opt_field(
        "\"vars\":"@,
        match r.vars {
            Some(vs) => Some(json_var_infos(vs)),
            None => None,
        },
    )
}

/// A request, as JSON.
pub open spec fn json_request(r: RequestView) -> Seq<char> {
    "{"@ + sep_join(request_fields(r), ","@) + "}"@
}

/// The fields a response serializes, in order: `request_id` always,
/// the rest when present.
pub open spec fn response_fields(r: ResponseView) -> Seq<Seq<char>> {
    seq!["\"request_id\":"@ + json_opt_str(r.request_id)] + opt_field(
        "\"headers\":"@,
        match r.headers {
            Some(hs) => Some(json_header_map(hs)),
            None => None,
        },
    ) + opt_field("\"status_code\":"@, opt_json_str(r.status_code)) + opt_field(
        "\"body\":"@,
        opt_json_str(r.body),
    ) + opt_field(
        "\"vars\":"@,
        match r.vars {
            Some(vs) => Some(json_str_map(vs)),
            None => None,
        },
    )
}

/// A response, as JSON.
pub open spec fn json_response(r: ResponseView) -> Seq<char> {
    "{"@ + sep_join(response_fields(r), ","@) + "}"@
}

/// The captured responses, as a JSON object keyed by request id.
pub open spec fn json_responses(rs: Seq<(Seq<char>, ResponseView)>) -> Seq<char> {
    "{"@ + sep_join(
        rs.map_values(|p: (Seq<char>, ResponseView)| json_str(p.0) + ":"@ + json_response(p.1)),
        ","@,
    ) + "}"@
}

/// The document the engine writes to a vars command's standard input.
pub open spec fn vars_command_message(req: RequestView, responses: Seq<(Seq<char>, ResponseView)>)
    -> Seq<char> {
    "{\"request\":"@ + json_request(req) + ",\"responses\":"@ + json_responses(responses) + "}"@
}

/// A pair sequence read as a key-value mapping.
pub open spec fn pairs_as_map(s: Seq<(Seq<char>, Seq<char>)>) -> Map<Seq<char>, Seq<char>>
    decreases s.len(),
{
    if s.len() == 0 {
        Map::<Seq<char>, Seq<char>>::empty()
    } else {
        pairs_as_map(s.drop_last()).insert(s.last().0, s.last().1)
    }
}

/// What parsing `doc` as a JSON object of strings yields, when it is one.
pub uninterp spec fn parsed_str_map(doc: Seq<char>) -> Option<Map<Seq<char>, Seq<char>>>;

/// Relies on `serde_json::from_str`: parse a JSON object mapping strings
/// to strings.  The order of the returned pairs is not specified.
#[verifier::external_body]
pub fn parse_string_map(doc: &str) -> (r: Option<Vec<(String, String)>>)
    ensures
        r is Some <==> parsed_str_map(doc@) is Some,
        r matches Some(v) ==> dict_uniq(v.deep_view()) && parsed_str_map(doc@) == Some(
            pairs_as_map(v.deep_view()),
        ),
{
    let m: std::collections::HashMap<String, String> = match serde_json::from_str(doc) {
        Ok(m) => m,
        Err(_) => return None,
    };
    Some(m.into_iter().collect())
}

/// The document as compact JSON: parsed, an empty object when it does
/// not parse, and rendered back without spaces, object keys sorted.
pub uninterp spec fn json_normalized(doc: Seq<char>) -> Seq<char>;

/// Relies on `serde_json::from_str` and `serde_json::Value::to_string`:
/// the parse-and-render step `json_normalized` names.
#[verifier::external_body]
pub fn json_normalize(doc: &str) -> (r: String)
    ensures
        r@ == json_normalized(doc@),
{
    let v: serde_json::Value = match serde_json::from_str(doc) {
        Ok(v) => v,
        Err(_) => serde_json::Value::Object(serde_json::Map::new()),
    };
    v.to_string()
}

/// What looking `pointer` up in `doc` yields: `doc` is parsed as JSON
/// (an empty object when it does not parse), the RFC 6901 pointer is
/// resolved, and the value found is coerced -- a string as itself, null
/// as the empty string, any other value as its compact JSON text.
pub uninterp spec fn json_extract(doc: Seq<char>, pointer: Seq<char>) -> Option<Seq<char>>;

/// Relies on `serde_json::from_str` and `serde_json::Value::pointer`:
/// the lookup-and-coerce step `json_extract` names.
#[verifier::external_body]
pub fn json_pointer_lookup(doc: &str, pointer: &str) -> (r: Option<String>)
    ensures
        r.deep_view() == json_extract(doc@, pointer@),
{
    let v: serde_json::Value = match serde_json::from_str(doc) {
        Ok(v) => v,
        Err(_) => serde_json::Value::Object(serde_json::Map::new()),
    };
    match v.pointer(pointer) {
        None => None,
        Some(serde_json::Value::String(s)) => Some(s.clone()),
        Some(serde_json::Value::Null) => Some(String::new()),
        Some(other) => Some(other.to_string()),
    }
}

/// A JSON string literal, built.
pub fn json_str_exec(s: &str) -> (r: String)
    ensures
        r@ == json_str(s@),
{
    let cs = crate::text::chars_of(s);
    let mut out = "\"".to_owned();
    let mut i: usize = 0;
    while i < cs.len()
        invariant
            i <= cs@.len(),
            cs@ == s@,
            out@ == "\""@ + esc_seq(s@.subrange(0, i as int)),
        decreases cs@.len() - i,
    {
        proof {
            let pre = s@.subrange(0, i as int);
            let post = s@.subrange(0, i + 1);
            assert(post.drop_last() =~= pre);
            assert(post.last() == s@[i as int]);
        }
        let c = cs[i];
        if c == '"' {
            out.append("\\\"");
        } else if c == '\\' {
            out.append("\\\\");
        } else if c == '\n' {
            out.append("\\n");
        } else if c == '\r' {
            out.append("\\r");
        } else if c == '\t' {
            out.append("\\t");
        } else if c == '\u{8}' {
            out.append("\\b");
        } else if c == '\u{c}' {
            out.append("\\f");
        } else if (c as u32) < 32 {
            out.append("\\u00");
            let hi = hex_to_char(((c as u32) / 16) as u8);
            let lo = hex_to_char(((c as u32) % 16) as u8);
            push_char(&mut out, hi);
            push_char(&mut out, lo);
            proof {
                assert(out@ =~= "\""@ + esc_seq(s@.subrange(0, i + 1)));
            }
        } else {
            push_char(&mut out, c);
            proof {
                assert(esc_char(c) =~= seq![c]);
                assert(out@ =~= "\""@ + esc_seq(s@.subrange(0, i + 1)));
            }
        }
        i = i + 1;
        proof {
            assert(out@ =~= "\""@ + esc_seq(s@.subrange(0, i as int)));
        }
    }
    proof {
        assert(s@.subrange(0, s@.len() as int) =~= s@);
    }
    out.append("\"");
    proof {
        assert(out@ =~= json_str(s@));
    }
    out
}

/// The character of one hexadecimal digit value.
fn hex_to_char(d: u8) -> (c: char)
    requires
        d < 16,
    ensures
        c == hex_char(d as int),
{
    if d < 10 {
        crate::text::digit_to_char(d as u64)
    } else if d == 10 {
        'a'
    } else if d == 11 {
        'b'
    } else if d == 12 {
        'c'
    } else if d == 13 {
        'd'
    } else if d == 14 {
        'e'
    } else {
        'f'
    }
}

/// An optional string, as JSON.
pub fn json_opt_str_exec(v: &Option<String>) -> (r: String)
    ensures
        r@ == json_opt_str(v.deep_view()),
{
    match v {
        Some(s) => json_str_exec(s.as_str()),
        None => "null".to_owned(),
    }
}


/// Append one field item when present.
fn push_field(items: &mut Vec<String>, prefix: &str, v: Option<String>)
    ensures
        final(items).deep_view() == old(items).deep_view() + opt_field(prefix@, v.deep_view()),
{
    let ghost pre = items.deep_view();
    match v {
        Some(x) => {
            let mut s = prefix.to_owned();
            s.append(x.as_str());
            items.push(s);
            proof {
                assert(items.deep_view() =~= pre + opt_field(prefix@, Some(x@)));
            }
        },
        None => {
            proof {
                assert(items.deep_view() =~= pre + opt_field(prefix@, None::<Seq<char>>));
            }
        },
    }
}

/// A list of strings, as JSON.
#[verifier::loop_isolation(false)]
pub fn json_str_list_exec(vs: &Vec<String>) -> (r: String)
    ensures
        r@ == json_str_list(vs.deep_view()),
{
    let mut items: Vec<String> = Vec::new();
    let mut i: usize = 0;
    while i < vs.len()
        invariant
            i <= vs@.len(),
            items.deep_view() == vs.deep_view().subrange(0, i as int).map_values(
                |v: Seq<char>| json_str(v),
            ),
        decreases vs@.len() - i,
    {
        let q = json_str_exec(vs[i].as_str());
        let ghost qv = q@;
        let ghost prev = items.deep_view();
        items.push(q);
        i = i + 1;
        proof {
            assert(items.deep_view() =~= prev.push(qv));
            assert(items.deep_view() =~= vs.deep_view().subrange(0, i as int).map_values(
                |v: Seq<char>| json_str(v),
            ));
        }
    }
    proof {
        assert(vs.deep_view().subrange(0, vs.deep_view().len() as int) =~= vs.deep_view());
        assert(items.deep_view() =~= vs.deep_view().map_values(|v: Seq<char>| json_str(v)));
    }
    let mut out = "[".to_owned();
    out.append(join_strings(&items, ",").as_str());
    out.append("]");
    proof {
        assert(out@ =~= json_str_list(vs.deep_view()));
    }
    out
}

/// A header table, as JSON.
#[verifier::loop_isolation(false)]
pub fn json_header_map_exec(hs: &crate::table::Dict<Vec<String>>) -> (r: String)
    ensures
        r@ == json_header_map(hs@),
{
    let spec_map = Ghost(
        |p: (Seq<char>, Seq<Seq<char>>)| json_str(p.0) + ":"@ + json_str_list(p.1),
    );
    let mut items: Vec<String> = Vec::new();
    let n = hs.len();
    let mut i: usize = 0;
    while i < n
        invariant
            i <= hs@.len(),
            n == hs@.len(),
            items.deep_view() == hs@.subrange(0, i as int).map_values(spec_map@),
        decreases hs@.len() - i,
    {
        let mut entry = json_str_exec(hs.key_at(i).as_str());
        entry.append(":");
        entry.append(json_str_list_exec(hs.val_at(i)).as_str());
        let ghost ev = entry@;
        let ghost prev = items.deep_view();
        items.push(entry);
        i = i + 1;
        proof {
            assert(ev =~= spec_map@(hs@[i - 1]));
            assert(items.deep_view() =~= prev.push(ev));
            assert(items.deep_view() =~= hs@.subrange(0, i as int).map_values(spec_map@));
        }
    }
    proof {
        assert(hs@.subrange(0, hs@.len() as int) =~= hs@);
        assert(items.deep_view() =~= hs@.map_values(spec_map@));
        assert(hs@.map_values(spec_map@) =~= hs@.map_values(
            |p: (Seq<char>, Seq<Seq<char>>)| json_str(p.0) + ":"@ + json_str_list(p.1),
        ));
    }
    let mut out = "{".to_owned();
    out.append(join_strings(&items, ",").as_str());
    out.append("}");
    proof {
        assert(out@ =~= json_header_map(hs@));
    }
    out
}

/// A string table, as JSON.
#[verifier::loop_isolation(false)]
pub fn json_str_map_exec(vs: &crate::table::Dict<String>) -> (r: String)
    ensures
        r@ == json_str_map(vs@),
{
    let spec_map = Ghost(|p: (Seq<char>, Seq<char>)| json_str(p.0) + ":"@ + json_str(p.1));
    let mut items: Vec<String> = Vec::new();
    let n = vs.len();
    let mut i: usize = 0;
    while i < n
        invariant
            i <= vs@.len(),
            n == vs@.len(),
            items.deep_view() == vs@.subrange(0, i as int).map_values(spec_map@),
        decreases vs@.len() - i,
    {
        let mut entry = json_str_exec(vs.key_at(i).as_str());
        entry.append(":");
        entry.append(json_str_exec(vs.val_at(i).as_str()).as_str());
        let ghost ev = entry@;
        let ghost prev = items.deep_view();
        items.push(entry);
        i = i + 1;
        proof {
            assert(ev =~= spec_map@(vs@[i - 1]));
            assert(items.deep_view() =~= prev.push(ev));
            assert(items.deep_view() =~= vs@.subrange(0, i as int).map_values(spec_map@));
        }
    }
    proof {
        assert(vs@.subrange(0, vs@.len() as int) =~= vs@);
        assert(items.deep_view() =~= vs@.map_values(spec_map@));
        assert(vs@.map_values(spec_map@) =~= vs@.map_values(
            |p: (Seq<char>, Seq<char>)| json_str(p.0) + ":"@ + json_str(p.1),
        ));
    }
    let mut out = "{".to_owned();
    out.append(join_strings(&items, ",").as_str());
    out.append("}");
    proof {
        assert(out@ =~= json_str_map(vs@));
    }
    out
}

/// The prerequisite list, as JSON.
#[verifier::loop_isolation(false)]
pub fn json_params_exec(ps: &Vec<crate::data::Param>) -> (r: String)
    ensures
        r@ == json_params(ps.deep_view()),
{
    let spec_map = Ghost(|p: ParamView| json_param(p));
    let mut items: Vec<String> = Vec::new();
    let mut i: usize = 0;
    while i < ps.len()
        invariant
            i <= ps@.len(),
            items.deep_view() == ps.deep_view().subrange(0, i as int).map_values(spec_map@),
        decreases ps@.len() - i,
    {
        let p = &ps[i];
        let mut entry = "{\"name\":".to_owned();
        entry.append(json_str_exec(p.name.as_str()).as_str());
        entry.append(",\"desc\":");
        entry.append(json_str_exec(p.desc.as_str()).as_str());
        entry.append("}");
        let ghost ev = entry@;
        let ghost prev = items.deep_view();
        items.push(entry);
        i = i + 1;
        proof {
            assert(ev =~= spec_map@(ps.deep_view()[i - 1]));
            assert(items.deep_view() =~= prev.push(ev));
            assert(items.deep_view() =~= ps.deep_view().subrange(0, i as int).map_values(
                spec_map@,
            ));
        }
    }
    proof {
        assert(ps.deep_view().subrange(0, ps.deep_view().len() as int) =~= ps.deep_view());
        assert(items.deep_view() =~= ps.deep_view().map_values(spec_map@));
        assert(ps.deep_view().map_values(spec_map@) =~= ps.deep_view().map_values(
            |p: ParamView| json_param(p),
        ));
    }
    let mut out = "[".to_owned();
    out.append(join_strings(&items, ",").as_str());
    out.append("]");
    proof {
        assert(out@ =~= json_params(ps.deep_view()));
    }
    out
}

/// One extraction rule, as JSON.
pub fn json_var_info_exec(v: &crate::data::VarInfo) -> (r: String)
    ensures
        r@ == json_var_info(v@),
{
    let mut out = "{\"expr\":".to_owned();
    out.append(json_opt_str_exec(&v.expr).as_str());
    out.append(",\"kind\":");
    out.append(json_str_exec(v.kind.as_str()).as_str());
    out.append(",\"from\":");
    out.append(json_str_exec(v.from.as_str()).as_str());
    out.append(",\"default\":");
    out.append(json_opt_str_exec(&v.default).as_str());
    out.append("}");
    proof {
        assert(out@ =~= json_var_info(v@));
    }
    out
}

/// The extraction-rule table, as JSON.
#[verifier::loop_isolation(false)]
pub fn json_var_infos_exec(vs: &crate::table::Dict<crate::data::VarInfo>) -> (r: String)
    ensures
        r@ == json_var_infos(vs@),
{
    let spec_map = Ghost(|p: (Seq<char>, VarInfoView)| json_str(p.0) + ":"@ + json_var_info(p.1));
    let mut items: Vec<String> = Vec::new();
    let n = vs.len();
    let mut i: usize = 0;
    while i < n
        invariant
            i <= vs@.len(),
            n == vs@.len(),
            items.deep_view() == vs@.subrange(0, i as int).map_values(spec_map@),
        decreases vs@.len() - i,
    {
        let mut entry = json_str_exec(vs.key_at(i).as_str());
        entry.append(":");
        entry.append(json_var_info_exec(vs.val_at(i)).as_str());
        let ghost ev = entry@;
        let ghost prev = items.deep_view();
        items.push(entry);
        i = i + 1;
        proof {
            assert(ev =~= spec_map@(vs@[i - 1]));
            assert(items.deep_view() =~= prev.push(ev));
            assert(items.deep_view() =~= vs@.subrange(0, i as int).map_values(spec_map@));
        }
    }
    proof {
        assert(vs@.subrange(0, vs@.len() as int) =~= vs@);
        assert(items.deep_view() =~= vs@.map_values(spec_map@));
        assert(vs@.map_values(spec_map@) =~= vs@.map_values(
            |p: (Seq<char>, VarInfoView)| json_str(p.0) + ":"@ + json_var_info(p.1),
        ));
    }
    let mut out = "{".to_owned();
    out.append(join_strings(&items, ",").as_str());
    out.append("}");
    proof {
        assert(out@ =~= json_var_infos(vs@));
    }
    out
}

/// Basic-auth credentials, as JSON.
pub fn json_basic_auth_exec(b: &crate::data::BasicAuth) -> (r: String)
    ensures
        r@ == json_basic_auth(b@),
{
    let mut out = "{\"user\":".to_owned();
    out.append(json_str_exec(b.user.as_str()).as_str());
    out.append(",\"password\":");
    out.append(json_opt_str_exec(&b.password).as_str());
    out.append("}");
    proof {
        assert(out@ =~= json_basic_auth(b@));
    }
    out
}

/// AWS signing material, as JSON.
pub fn json_aws_auth_exec(a: &crate::data::AWSAuth) -> (r: String)
    ensures
        r@ == json_aws_auth(a@),
{
    let mut out = "{\"region\":".to_owned();
    out.append(json_opt_str_exec(&a.region).as_str());
    out.append(",\"service\":");
    out.append(json_str_exec(a.service.as_str()).as_str());
    out.append(",\"key\":");
    out.append(json_str_exec(a.key.as_str()).as_str());
    out.append(",\"secret\":");
    out.append(json_str_exec(a.secret.as_str()).as_str());
    out.append(",\"token\":");
    out.append(json_opt_str_exec(&a.token).as_str());
    out.append(",\"endpoint\":");
    out.append(json_opt_str_exec(&a.endpoint).as_str());
    out.append("}");
    proof {
        assert(out@ =~= json_aws_auth(a@));
    }
    out
}

/// A request, as JSON.
pub fn json_request_exec(r: &crate::data::Request) -> (out: String)
    ensures
        out@ == json_request(r@),
{
    let mut items: Vec<String> = Vec::new();
    push_request_fields_a(&mut items, r);
    push_request_fields_b(&mut items, r);
    proof {
        assert(Seq::<Seq<char>>::empty() + request_fields_a(r@) =~= request_fields_a(r@));
        assert(items.deep_view() == request_fields(r@));
    }
    let mut out = "{".to_owned();
    out.append(join_strings(&items, ",").as_str());
    out.append("}");
    proof {
        assert(out@ =~= json_request(r@));
    }
    out
}

/// Append the first half of a request's fields.
#[verifier::rlimit(100)]
fn push_request_fields_a(items: &mut Vec<String>, r: &crate::data::Request)
    ensures
        final(items).deep_view() == old(items).deep_view() + request_fields_a(r@),
{
    let ghost base = items.deep_view();
    push_field(items, "\"id\":", match &r.id {
        Some(s) => Some(json_str_exec(s.as_str())),
        None => None,
    });
    push_field(items, "\"desc\":", match &r.desc {
        Some(s) => Some(json_str_exec(s.as_str())),
        None => None,
    });
    push_field(items, "\"uri\":", Some(json_str_exec(r.uri.as_str())));
    push_field(items, "\"params\":", match &r.params {
        Some(ps) => Some(json_params_exec(ps)),
        None => None,
    });
    push_field(items, "\"timeout_ms\":", match r.timeout_ms {
        Some(t) => Some(u64_to_string(t)),
        None => None,
    });
    push_field(items, "\"method\":", match &r.method {
        Some(s) => Some(json_str_exec(s.as_str())),
        None => None,
    });
    push_field(items, "\"basic_auth\":", match &r.basic_auth {
        Some(b) => Some(json_basic_auth_exec(b)),
        None => None,
    });
    proof {
        assert(items.deep_view() =~= base + request_fields_a(r@));
    }
}

/// Append the second half of a request's fields.
#[verifier::rlimit(100)]
fn push_request_fields_b(items: &mut Vec<String>, r: &crate::data::Request)
    ensures
        final(items).deep_view() == old(items).deep_view() + request_fields_b(r@),
{
    let ghost base = items.deep_view();
    push_field(items, "\"aws_auth\":", match &r.aws_auth {
        Some(a) => Some(json_aws_auth_exec(a)),
        None => None,
    });
    push_field(items, "\"headers\":", match &r.headers {
        Some(hs) => Some(json_header_map_exec(hs)),
        None => None,
    });
    push_field(items, "\"form\":", match &r.form {
        Some(f) => Some(json_str_map_exec(f)),
        None => None,
    });
    push_field(items, "\"body\":", match &r.body {
        Some(s) => Some(json_str_exec(s.as_str())),
        None => None,
    });
    push_field(items, "\"uri_list\":", match &r.uri_list {
        Some(us) => Some(json_str_list_exec(us)),
        None => None,
    });
    push_field(items, "\"vars_command\":", match &r.vars_command {
        Some(s) => Some(json_str_exec(s.as_str())),
        None => None,
    });
    push_field(items, "\"vars\":", match &r.vars {
        Some(vs) => Some(json_var_infos_exec(vs)),
        None => None,
    });
    proof {
        assert(items.deep_view() =~= base + request_fields_b(r@));
    }
}

/// A response, as JSON.
pub fn json_response_exec(r: &crate::data::Response) -> (out: String)
    ensures
        out@ == json_response(r@),
{
    let mut items: Vec<String> = Vec::new();
    push_field(&mut items, "\"request_id\":", Some(json_opt_str_exec(&r.request_id)));
    push_field(&mut items, "\"headers\":", match &r.headers {
        Some(hs) => Some(json_header_map_exec(hs)),
        None => None,
    });
    push_field(&mut items, "\"status_code\":", match &r.status_code {
        Some(s) => Some(json_str_exec(s.as_str())),
        None => None,
    });
    push_field(&mut items, "\"body\":", match &r.body {
        Some(s) => Some(json_str_exec(s.as_str())),
        None => None,
    });
    push_field(&mut items, "\"vars\":", match &r.vars {
        Some(vs) => Some(json_str_map_exec(vs)),
        None => None,
    });
    proof {
        assert(items.deep_view() =~= response_fields(r@));
    }
    let mut out = "{".to_owned();
    out.append(join_strings(&items, ",").as_str());
    out.append("}");
    proof {
        assert(out@ =~= json_response(r@));
    }
    out
}

/// The captured responses, as JSON.
#[verifier::loop_isolation(false)]
pub fn json_responses_exec(rs: &crate::table::Dict<crate::data::Response>) -> (r: String)
    ensures
        r@ == json_responses(rs@),
{
    let spec_map = Ghost(|p: (Seq<char>, ResponseView)| json_str(p.0) + ":"@ + json_response(p.1));
    let mut items: Vec<String> = Vec::new();
    let n = rs.len();
    let mut i: usize = 0;
    while i < n
        invariant
            i <= rs@.len(),
            n == rs@.len(),
            items.deep_view() == rs@.subrange(0, i as int).map_values(spec_map@),
        decreases rs@.len() - i,
    {
        let mut entry = json_str_exec(rs.key_at(i).as_str());
        entry.append(":");
        entry.append(json_response_exec(rs.val_at(i)).as_str());
        let ghost ev = entry@;
        let ghost prev = items.deep_view();
        items.push(entry);
        i = i + 1;
        proof {
            assert(ev =~= spec_map@(rs@[i - 1]));
            assert(items.deep_view() =~= prev.push(ev));
            assert(items.deep_view() =~= rs@.subrange(0, i as int).map_values(spec_map@));
        }
    }
    proof {
        assert(rs@.subrange(0, rs@.len() as int) =~= rs@);
        assert(items.deep_view() =~= rs@.map_values(spec_map@));
        assert(rs@.map_values(spec_map@) =~= rs@.map_values(
            |p: (Seq<char>, ResponseView)| json_str(p.0) + ":"@ + json_response(p.1),
        ));
    }
    let mut out = "{".to_owned();
    out.append(join_strings(&items, ",").as_str());
    out.append("}");
    proof {
        assert(out@ =~= json_responses(rs@));
    }
    out
}

/// The document the engine writes to a vars command's standard input.
pub fn vars_command_message_exec(
    req: &crate::data::Request,
    responses: &crate::table::Dict<crate::data::Response>,
) -> (r: String)
    ensures
        r@ == vars_command_message(req@, responses@),
{
    let mut out = "{\"request\":".to_owned();
    out.append(json_request_exec(req).as_str());
    out.append(",\"responses\":");
    out.append(json_responses_exec(responses).as_str());
    out.append("}");
    proof {
        assert(out@ =~= vars_command_message(req@, responses@));
    }
    out
}

} // verus!
