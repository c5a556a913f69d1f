use crate::client::{endpoint_of, url_of, GeminiView, API_HOST};
use crate::request::{
    content_frame, escaped, joined, json_string, lemma_escaped_injective, part_frame, prompt_json,
    request_frame, USER_ROLE,
};
use crate::response::{flat_texts, reply_of, Candidate, Response};
use vstd::prelude::*;

verus! {

/// A proxy host takes the place of the public host and nothing else: two
/// configurations that differ only in the proxy post to URLs that share the
/// path and query, the one without a proxy to the public host and the one
/// with a proxy to that host.
pub proof fn lemma_proxy_replaces_host(direct: GeminiView, proxied: GeminiView, host: Seq<char>)
    requires
        direct.proxy is None,
        proxied.proxy == Some(host),
        direct.model == proxied.model,
        direct.api_key == proxied.api_key,
    ensures
        url_of(direct) == "https://"@ + API_HOST@ + endpoint_of(direct.model, direct.api_key),
        url_of(proxied) == "https://"@ + host + endpoint_of(direct.model, direct.api_key),
{
}

/// Flattening keeps order: the texts of a list of candidates followed by
/// another are the texts of the first list followed by those of the second.
pub proof fn lemma_flat_texts_append(first: Seq<Candidate>, second: Seq<Candidate>)
    ensures
        flat_texts(first + second) == flat_texts(first) + flat_texts(second),
    decreases second.len(),
{
    if second.len() == 0 {
        assert(first + second =~= first);
        assert(flat_texts(first) + Seq::<Seq<char>>::empty() =~= flat_texts(first));
    } else {
        let rest = second.drop_last();
        assert((first + second).drop_last() =~= first + rest);
        assert((first + second).last() == second.last());
        lemma_flat_texts_append(first, rest);
        assert(flat_texts(first + second) =~= flat_texts(first) + flat_texts(second));
    }
}

/// A reply without candidates has no texts.
pub proof fn lemma_no_candidates_no_texts(r: Response)
    requires
        r.candidates@.len() == 0,
    ensures
        reply_of(r) == Seq::<Seq<char>>::empty(),
{
}


spec fn body_head() -> Seq<char> {
    "{\"contents\":["@ + "{\"parts\":["@ + "{\"text\":"@ + seq!['"']
}

spec fn body_tail() -> Seq<char> {
    seq!['"'] + "}"@ + "],\"role\":"@ + json_string(USER_ROLE@) + "}"@ + "]}"@
}

proof fn lemma_prompt_json_split(prompt: Seq<char>)
    ensures
        prompt_json(prompt) == body_head() + escaped(prompt) + body_tail(),
{
    let part = part_frame(json_string(prompt));
    let content = content_frame(seq![part], json_string(USER_ROLE@));
    assert(joined(seq![part]) == part);
    assert(joined(seq![content]) == content);
    assert(prompt_json(prompt) == request_frame(seq![content]));
    assert(prompt_json(prompt) =~= body_head() + escaped(prompt) + body_tail());
}

/// The body posted for a prompt determines the prompt: the text goes into
/// the body whole, changed by nothing but JSON escaping, so two prompts that
/// differ are never posted as the same body.
pub proof fn lemma_body_determines_prompt(p1: Seq<char>, p2: Seq<char>)
    requires
        prompt_json(p1) == prompt_json(p2),
    ensures
        p1 == p2,
{
    lemma_prompt_json_split(p1);
    lemma_prompt_json_split(p2);
    let t = prompt_json(p1);
    let h = body_head().len() as int;
    let e1 = escaped(p1);
    let e2 = escaped(p2);
    assert(e1 =~= t.subrange(h, t.len() - body_tail().len()));
    assert(e2 =~= t.subrange(h, t.len() - body_tail().len()));
    lemma_escaped_injective(p1, p2);
}

} // verus!
