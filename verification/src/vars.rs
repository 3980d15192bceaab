//! Variable extraction: pull named strings out of a response through a
//! JSON pointer into the logical `{body, headers, status}` object, with
//! an optional capture regex and an optional default.
use vstd::prelude::*;

use crate::data::{Response, ResponseView, VarInfo, VarInfoView};
use crate::jsonio::{
    json_extract, json_header_map, json_header_map_exec, json_normalize, json_normalized,
    json_opt_str, json_opt_str_exec, json_pointer_lookup, json_str_list, json_str_list_exec,
};
use crate::rx::{regex_capture, regex_capture_first};
use crate::table::{dict_get, dict_has, Dict};
use crate::text::{
    parse_index, parse_index_u64, split_char, split_str, spec_replace, replace_str, str_eq,
    chars_of, string_of, push_range,
};

verus! {

/// A reference token, unescaped: `~1` stands for `/`, then `~0` for `~`.
pub open spec fn unescape_token(t: Seq<char>) -> Seq<char> {
    spec_replace(spec_replace(t, "~1"@, "/"@), "~0"@, "~"@)
}

/// The reference tokens of a pointer that starts with `/`.
pub open spec fn tokens_of(ptr: Seq<char>) -> Seq<Seq<char>> {
    split_char(ptr, '/').drop_first().map_values(|t: Seq<char>| unescape_token(t))
}

/// The body as a string; a missing body reads as the empty string.
pub open spec fn body_text(r: ResponseView) -> Seq<char> {
    match r.body {
        Some(b) => b,
        None => Seq::<char>::empty(),
    }
}

/// The status as a string; a missing status reads as the empty string.
pub open spec fn status_text(r: ResponseView) -> Seq<char> {
    match r.status_code {
        Some(s) => s,
        None => Seq::<char>::empty(),
    }
}

/// The whole logical object, as compact JSON, for the empty pointer.
pub open spec fn composite_json(r: ResponseView) -> Seq<char> {
    "{\"body\":"@ + json_opt_str(r.body) + ",\"headers\":"@ + (match r.headers {
        Some(hs) => json_header_map(hs),
        None => "null"@,
    }) + ",\"status\":"@ + json_opt_str(r.status_code) + "}"@
}

/// Resolve the tokens of a pointer against the logical object, and
/// coerce what is found: strings as themselves, null as the empty
/// string, a header list or table as its compact JSON.
pub open spec fn resolve_tokens(r: ResponseView, toks: Seq<Seq<char>>) -> Option<Seq<char>> {
    if toks.len() == 0 {
        None
    } else if toks[0] == "body"@ {
        if toks.len() == 1 {
            Some(body_text(r))
        } else {
            None
        }
    } else if toks[0] == "status"@ {
        if toks.len() == 1 {
            Some(status_text(r))
        } else {
            None
        }
    } else if toks[0] == "headers"@ {
        match r.headers {
            None => if toks.len() == 1 {
                Some(Seq::<char>::empty())
            } else {
                None
            },
            Some(hs) => {
                if toks.len() == 1 {
                    Some(json_header_map(hs))
                } else {
                    match dict_get(hs, toks[1]) {
                        None => None,
                        Some(vals) => {
                            if toks.len() == 2 {
                                Some(json_str_list(vals))
                            } else if toks.len() == 3 {
                                match parse_index(toks[2]) {
                                    Some(ix) => if 0 <= ix < vals.len() {
                                        Some(vals[ix])
                                    } else {
                                        None
                                    },
                                    None => None,
                                }
                            } else {
                                None
                            }
                        },
                    }
                }
            },
        }
    } else {
        None
    }
}

/// Resolve a pointer against the logical object with the body as a
/// plain string.
pub open spec fn resolve_plain(r: ResponseView, ptr: Seq<char>) -> Option<Seq<char>> {
    if ptr.len() == 0 {
        Some(composite_json(r))
    } else if ptr[0] != '/' {
        None
    } else {
        resolve_tokens(r, tokens_of(ptr))
    }
}

/// The pointer enters the body: it is `/body` or starts with `/body/`.
pub open spec fn json_body_route(ptr: Seq<char>) -> bool {
    ptr.len() >= 5 && ptr.subrange(0, 5) == "/body"@ && (ptr.len() == 5 || ptr[5] == '/')
}

/// The whole logical object for JSON extraction: the body parsed (an
/// empty object when it does not parse), the rest as it stands.
pub open spec fn composite_json_parsed(r: ResponseView) -> Seq<char> {
    "{\"body\":"@ + json_normalized(body_text(r)) + ",\"headers\":"@ + (match r.headers {
        Some(hs) => json_header_map(hs),
        None => "null"@,
    }) + ",\"status\":"@ + json_opt_str(r.status_code) + "}"@
}

/// Resolve a pointer, treating the body as parsed JSON when the rule
/// asks for JSON extraction: the empty pointer yields the whole object
/// with the body in parsed form, a pointer into the body is resolved
/// inside the parsed body, and the other branches read plain values.
pub open spec fn resolve_value(r: ResponseView, info: VarInfoView) -> Option<Seq<char>> {
    if info.kind == "json"@ {
        if info.from.len() == 0 {
            Some(composite_json_parsed(r))
        } else if json_body_route(info.from) {
            json_extract(body_text(r), info.from.skip(5))
        } else {
            resolve_plain(r, info.from)
        }
    } else {
        resolve_plain(r, info.from)
    }
}

/// The resolved value, or the rule's default, or the empty string.
pub open spec fn coerced_value(r: ResponseView, info: VarInfoView) -> Seq<char> {
    match resolve_value(r, info) {
        Some(v) => v,
        None => match info.default {
            Some(d) => d,
            None => Seq::<char>::empty(),
        },
    }
}

/// What one extraction rule yields: the coerced value, run through the
/// capture regex when one is given.
pub open spec fn extract_var_spec(r: ResponseView, info: VarInfoView) -> Seq<char> {
    match info.expr {
        None => coerced_value(r, info),
        Some(e) => regex_capture(e, coerced_value(r, info)),
    }
}

/// What a whole extraction yields: one entry per rule, in rule order.
pub open spec fn extract_pairs(r: ResponseView, infos: Seq<(Seq<char>, VarInfoView)>) -> Seq<
    (Seq<char>, Seq<char>),
> {
    crate::data::spec_save_pairs(
        Seq::<(Seq<char>, Seq<char>)>::empty(),
        infos.map_values(|p: (Seq<char>, VarInfoView)| (p.0, extract_var_spec(r, p.1))),
    )
}

/// The substring of `s` from character `at` on.
fn substr_from(s: &str, at: usize) -> (r: String)
    requires
        at <= s@.len(),
    ensures
        r@ == s@.skip(at as int),
{
    let cs = chars_of(s);
    let mut seg: Vec<char> = Vec::new();
    push_range(&mut seg, &cs, at, cs.len());
    proof {
        assert(cs@.subrange(at as int, cs@.len() as int) =~= s@.skip(at as int));
    }
    string_of(&seg)
}

/// Unescape one reference token.
fn unescape_exec(t: &str) -> (r: String)
    ensures
        r@ == unescape_token(t@),
{
    let step = replace_str(t, "~1", "/");
    replace_str(step.as_str(), "~0", "~")
}

/// Does the pointer enter the body?
fn body_route_exec(ptr: &str) -> (r: bool)
    ensures
        r == json_body_route(ptr@),
{
    let cs = chars_of(ptr);
    proof {
        reveal_strlit("/body");
    }
    if cs.len() < 5 {
        return false;
    }
    let pfx = cs[0] == '/' && cs[1] == 'b' && cs[2] == 'o' && cs[3] == 'd' && cs[4] == 'y';
    let ok = pfx && (cs.len() == 5 || cs[5] == '/');
    proof {
        assert("/body"@.len() == 5);
        if pfx {
            assert(ptr@.subrange(0, 5) =~= "/body"@);
        } else {
            if ptr@.subrange(0, 5) == "/body"@ {
                assert(ptr@[0] == "/body"@[0]);
                assert(ptr@[1] == "/body"@[1]);
                assert(ptr@[2] == "/body"@[2]);
                assert(ptr@[3] == "/body"@[3]);
                assert(ptr@[4] == "/body"@[4]);
            }
        }
    }
    ok
}

/// The composite object, rendered for the empty pointer.
fn composite_json_exec(r: &Response) -> (out: String)
    ensures
        out@ == composite_json(r@),
{
    let mut out = "{\"body\":".to_owned();
    out.append(json_opt_str_exec(&r.body).as_str());
    out.append(",\"headers\":");
    match &r.headers {
        Some(hs) => out.append(json_header_map_exec(hs).as_str()),
        None => out.append("null"),
    }
    out.append(",\"status\":");
    out.append(json_opt_str_exec(&r.status_code).as_str());
    out.append("}");
    proof {
        assert(out@ =~= composite_json(r@));
    }
    out
}

/// Resolve a pointer against the plain logical object.
#[verifier::loop_isolation(false)]
fn resolve_plain_exec(response: &Response, ptr: &str) -> (r: Option<String>)
    ensures
        r.deep_view() == resolve_plain(response@, ptr@),
{
    let cs = chars_of(ptr);
    if cs.len() == 0 {
        return Some(composite_json_exec(response));
    }
    if cs[0] != '/' {
        return None;
    }
    let raw = split_str(ptr, '/');
    let mut toks: Vec<String> = Vec::new();
    let mut i: usize = 1;
    proof {
        assert(raw.deep_view().len() >= 1);
    }
    while i < raw.len()
        invariant
            1 <= i <= raw.deep_view().len(),
            raw.deep_view() == split_char(ptr@, '/'),
            toks.deep_view() == raw.deep_view().subrange(1, i as int).map_values(
                |t: Seq<char>| unescape_token(t),
            ),
        decreases raw.deep_view().len() - i,
    {
        let u = unescape_exec(raw[i].as_str());
        let ghost uv = u@;
        let ghost prev = toks.deep_view();
        toks.push(u);
        i = i + 1;
        proof {
            assert(toks.deep_view() =~= prev.push(uv));
            assert(toks.deep_view() =~= raw.deep_view().subrange(1, i as int).map_values(
                |t: Seq<char>| unescape_token(t),
            ));
        }
    }
    proof {
        assert(raw.deep_view().subrange(1, raw.deep_view().len() as int) =~= raw.deep_view()
            .drop_first());
        assert(toks.deep_view() =~= tokens_of(ptr@));
    }
    resolve_tokens_exec(response, &toks)
}

/// Resolve unescaped tokens against the plain logical object.
fn resolve_tokens_exec(response: &Response, toks: &Vec<String>) -> (r: Option<String>)
    ensures
        r.deep_view() == resolve_tokens(response@, toks.deep_view()),
{
    if toks.len() == 0 {
        return None;
    }
    if str_eq(toks[0].as_str(), "body") {
        if toks.len() == 1 {
            return Some(
                match &response.body {
                    Some(b) => b.clone(),
                    None => String::new(),
                },
            );
        }
        return None;
    }
    if str_eq(toks[0].as_str(), "status") {
        if toks.len() == 1 {
            return Some(
                match &response.status_code {
                    Some(s) => s.clone(),
                    None => String::new(),
                },
            );
        }
        return None;
    }
    if str_eq(toks[0].as_str(), "headers") {
        match &response.headers {
            None => {
                if toks.len() == 1 {
                    return Some(String::new());
                }
                return None;
            },
            Some(hs) => {
                if toks.len() == 1 {
                    return Some(json_header_map_exec(hs));
                }
                match hs.get(toks[1].as_str()) {
                    None => {
                        return None;
                    },
                    Some(vals) => {
                        let vlen = vals.len();
                        if toks.len() == 2 {
                            return Some(json_str_list_exec(vals));
                        }
                        if toks.len() == 3 {
                            match parse_index_u64(toks[2].as_str()) {
                                Some(ix) => {
                                    if ix < vals.len() as u64 {
                                        return Some(vals[ix as usize].clone());
                                    }
                                    return None;
                                },
                                None => {
                                    proof {
                                        assert(vals.deep_view().len() == vlen);
                                    }
                                    return None;
                                },
                            }
                        }
                        return None;
                    },
                }
            },
        }
    }
    None
}

/// The composite object for JSON extraction, built.
fn composite_json_parsed_exec(r: &Response) -> (out: String)
    ensures
        out@ == composite_json_parsed(r@),
{
    let body = match &r.body {
        Some(b) => b.clone(),
        None => String::new(),
    };
    let mut out = "{\"body\":".to_owned();
    out.append(json_normalize(body.as_str()).as_str());
    out.append(",\"headers\":");
    match &r.headers {
        Some(hs) => out.append(json_header_map_exec(hs).as_str()),
        None => out.append("null"),
    }
    out.append(",\"status\":");
    out.append(json_opt_str_exec(&r.status_code).as_str());
    out.append("}");
    proof {
        assert(out@ =~= composite_json_parsed(r@));
    }
    out
}

/// Pull one variable out of a response.
pub fn extract_var(response: &Response, info: &VarInfo) -> (r: Result<String, String>)
    ensures
        r matches Ok(s) ==> s@ == extract_var_spec(response@, info@),
        info@.expr is None ==> r is Ok,
{
    let kind_json = str_eq(info.kind.as_str(), "json");
    let resolved: Option<String> = if kind_json && info.from.as_str().is_empty() {
        Some(composite_json_parsed_exec(response))
    } else if kind_json && body_route_exec(info.from.as_str()) {
        let body = match &response.body {
            Some(b) => b.clone(),
            None => String::new(),
        };
        let rest = substr_from(info.from.as_str(), 5);
        json_pointer_lookup(body.as_str(), rest.as_str())
    } else {
        resolve_plain_exec(response, info.from.as_str())
    };
    let coerced: String = match resolved {
        Some(v) => v,
        None => match &info.default {
            Some(d) => d.clone(),
            None => String::new(),
        },
    };
    match &info.expr {
        None => Ok(coerced),
        Some(e) => regex_capture_first(e.as_str(), coerced.as_str()),
    }
}

/// Pull every named variable out of a response, in rule order.
#[verifier::loop_isolation(false)]
pub fn extract(response: &Response, infos: &Dict<VarInfo>) -> (r: Result<Dict<String>, String>)
    ensures
        r matches Ok(d) ==> d@ == extract_pairs(response@, infos@) && d.wf(),
        r matches Ok(d) ==> forall|k: Seq<char>|
            #[trigger] dict_has(d@, k) == dict_has(infos@, k),
        (forall|i: int| 0 <= i < infos@.len() ==> (#[trigger] infos@[i]).1.expr is None) ==> r
            is Ok,
{
    let ghost mapped = infos@.map_values(
        |p: (Seq<char>, VarInfoView)| (p.0, extract_var_spec(response@, p.1)),
    );
    let mut d: Dict<String> = Dict::new();
    let n = infos.len();
    let mut i: usize = 0;
    proof {
        assert(mapped.skip(0) =~= mapped);
    }
    while i < n
        invariant
            i <= infos@.len(),
            n == infos@.len(),
            d.wf(),
            extract_pairs(response@, infos@) == crate::data::spec_save_pairs(
                d@,
                mapped.skip(i as int),
            ),
        decreases infos@.len() - i,
    {
        proof {
            assert(mapped.skip(i as int)[0] == mapped[i as int]);
            assert(mapped.skip(i as int).drop_first() =~= mapped.skip(i as int + 1));
        }
        let v = extract_var(response, infos.val_at(i))?;
        proof {
            crate::table::lemma_put_props(d@, infos@[i as int].0, v@);
        }
        d.insert(infos.key_at(i).clone(), v);
        i = i + 1;
    }
    proof {
        assert(mapped.skip(n as int) =~= Seq::<(Seq<char>, Seq<char>)>::empty());
        crate::data::lemma_save_pairs_props(
            Seq::<(Seq<char>, Seq<char>)>::empty(),
            mapped,
        );
        assert forall|k: Seq<char>| #[trigger] dict_has(mapped, k) == dict_has(infos@, k) by {
            if dict_has(mapped, k) {
                let j = choose|j: int| 0 <= j < mapped.len() && mapped[j].0 == k;
                assert(infos@[j].0 == k);
            }
            if dict_has(infos@, k) {
                let j = choose|j: int| 0 <= j < infos@.len() && infos@[j].0 == k;
                assert(mapped[j].0 == k);
            }
        }
    }
    Ok(d)
}

} // verus!
