use crate::error::GeminiError;
use vstd::prelude::*;

verus! {

/// The role of the one content that a request carries.
pub const USER_ROLE: &'static str = "user";

/// One fragment of text, in a request or in a reply.
#[derive(Debug)]
pub struct Part {
    pub text: String,
}

/// An ordered list of parts, spoken by `role`.
#[derive(Debug)]
pub struct Content {
    pub parts: Vec<Part>,
    pub role: String,
}

/// What is posted: an ordered list of contents.
#[derive(Debug)]
pub struct RequestBody {
    pub contents: Vec<Content>,
}

/// The texts of a list of parts, in order.
pub open spec fn texts_of(parts: Seq<Part>) -> Seq<Seq<char>> {
    parts.map_values(|p: Part| p.text@)
}

/// Whether `b` is the request for `prompt`: a single content, of role
/// "user", holding a single part whose text is the prompt.
pub open spec fn is_request_for(b: RequestBody, prompt: Seq<char>) -> bool {
    &&& b.contents@.len() == 1
    &&& b.contents@[0].role@ == USER_ROLE@
    &&& texts_of(b.contents@[0].parts@) == seq![prompt]
}

/// The lowercase hexadecimal digit of `d`, for `d < 16`.
pub open spec fn hex_digit(d: int) -> char {
    seq!['0', '1', '2', '3', '4', '5', '6', '7', '8', '9', 'a', 'b', 'c', 'd', 'e', 'f'][d]
}

/// How one character is written inside a JSON string literal: a quote and a
/// backslash behind a backslash, backspace, tab, line feed, form feed and
/// carriage return as their short escapes, other control characters below
/// U+0020 as `\u00` and two hexadecimal digits, and every other character as
/// itself.
pub open spec fn escaped_char(c: char) -> Seq<char> {
    let n = c as u32;
    if c == '"' {
        seq!['\\', '"']
    } else if c == '\\' {
        seq!['\\', '\\']
    } else if n == 0x08 {
        seq!['\\', 'b']
    } else if n == 0x09 {
        seq!['\\', 't']
    } else if n == 0x0a {
        seq!['\\', 'n']
    } else if n == 0x0c {
        seq!['\\', 'f']
    } else if n == 0x0d {
        seq!['\\', 'r']
    } else if n < 0x20 {
        seq!['\\', 'u', '0', '0', hex_digit(n as int / 16), hex_digit(n as int % 16)]
    } else {
        seq![c]
    }
}

/// The text `s` with each character escaped, in order.
pub open spec fn escaped(s: Seq<char>) -> Seq<char>
    decreases s.len(),
{
    if s.len() == 0 {
        Seq::empty()
    } else {
        escaped_char(s[0]) + escaped(s.drop_first())
    }
}

proof fn lemma_escaped_char_unique(a: char, b: char, x: Seq<char>, y: Seq<char>)
    requires
        escaped_char(a) + x == escaped_char(b) + y,
    ensures
        a == b,
        x == y,
{
    let ea = escaped_char(a);
    let eb = escaped_char(b);
    let t = ea + x;
    assert(t[0] == ea[0] && t[0] == eb[0]);
    if ea.len() > 1 {
        assert(t[1] == ea[1]);
    }
    if eb.len() > 1 {
        assert(t[1] == eb[1]);
    }
    assert(ea.len() == eb.len());
    assert(ea =~= t.subrange(0, ea.len() as int));
    assert(eb =~= t.subrange(0, eb.len() as int));
    if ea.len() == 6 {
        let na = a as u32;
        let nb = b as u32;
        assert(t[4] == ea[4] && t[4] == eb[4]);
        assert(t[5] == ea[5] && t[5] == eb[5]);
        assert(na as int / 16 == nb as int / 16);
        assert(na as int % 16 == nb as int % 16);
        assert(na == nb);
    }
    assert(a == b);
    assert(x =~= t.subrange(ea.len() as int, t.len() as int));
    assert(y =~= t.subrange(eb.len() as int, t.len() as int));
}

/// Escaping loses nothing: different texts are escaped differently.
pub proof fn lemma_escaped_injective(s1: Seq<char>, s2: Seq<char>)
    requires
        escaped(s1) == escaped(s2),
    ensures
        s1 == s2,
    decreases s1.len(),
{
    if s1.len() == 0 {
        if s2.len() > 0 {
            assert(escaped(s2).len() > 0);
        }
        assert(s1 =~= s2);
    } else if s2.len() == 0 {
        assert(escaped(s1).len() > 0);
    } else {
        lemma_escaped_char_unique(s1[0], s2[0], escaped(s1.drop_first()), escaped(s2.drop_first()));
        lemma_escaped_injective(s1.drop_first(), s2.drop_first());
        assert(s1 =~= seq![s1[0]] + s1.drop_first());
        assert(s2 =~= seq![s2[0]] + s2.drop_first());
    }
}

/// The JSON string literal that writes the text `s`: the escaped text
/// between double quotes.
pub open spec fn json_string(s: Seq<char>) -> Seq<char> {
    seq!['"'] + escaped(s) + seq!['"']
}

/// Relies on serde_json::to_string on a `str`: it writes a quote, each
/// character escaped as its escape table says, and a quote, into a `Vec`
/// whose writes do not fail, so it always succeeds.
#[verifier::external_body]
fn quote(s: &str) -> (r: Result<String, serde_json::Error>)
    ensures
        r is Ok,
        r->Ok_0@ == json_string(s@),
{
    serde_json::to_string(s)
}

/// The texts of a list of strings.
pub open spec fn views_of(v: Seq<String>) -> Seq<Seq<char>> {
    v.map_values(|s: String| s@)
}

/// The items, separated by commas.
pub open spec fn joined(items: Seq<Seq<char>>) -> Seq<char>
    decreases items.len(),
{
    if items.len() == 0 {
        Seq::empty()
    } else if items.len() == 1 {
        items[0]
    } else {
        joined(items.drop_last()) + ","@ + items.last()
    }
}

/// The JSON object of a part whose text is written as `quoted`.
pub open spec fn part_frame(quoted: Seq<char>) -> Seq<char> {
    "{\"text\":"@ + quoted + "}"@
}

/// The JSON object of a content whose parts are written as `parts` and whose
/// role is written as `quoted_role`.
pub open spec fn content_frame(parts: Seq<Seq<char>>, quoted_role: Seq<char>) -> Seq<char> {
    "{\"parts\":["@ + joined(parts) + "],\"role\":"@ + quoted_role + "}"@
}

/// The JSON object of a request whose contents are written as `contents`.
pub open spec fn request_frame(contents: Seq<Seq<char>>) -> Seq<char> {
    "{\"contents\":["@ + joined(contents) + "]}"@
}

/// The JSON object of a part.
pub open spec fn part_json(p: Part) -> Seq<char> {
    part_frame(json_string(p.text@))
}

/// The JSON object of a content.
pub open spec fn content_json(c: Content) -> Seq<char> {
    content_frame(c.parts@.map_values(|p: Part| part_json(p)), json_string(c.role@))
}

/// The JSON text of a request body.
pub open spec fn request_json(b: RequestBody) -> Seq<char> {
    request_frame(b.contents@.map_values(|c: Content| content_json(c)))
}

/// The JSON text posted for `prompt`.
pub open spec fn prompt_json(prompt: Seq<char>) -> Seq<char> {
    request_frame(seq![content_frame(seq![part_frame(json_string(prompt))], json_string(USER_ROLE@))])
}

proof fn lemma_joined_push(items: Seq<Seq<char>>, i: int)
    requires
        0 <= i < items.len(),
    ensures
        joined(items.take(i + 1)) == joined(items.take(i)) + (if i == 0 {
            Seq::<char>::empty()
        } else {
            ","@
        }) + items[i],
{
    assert(items.take(i + 1).drop_last() =~= items.take(i));
    if i == 0 {
        assert(joined(items.take(1)) == items[0]);
        assert(joined(items.take(0)) == Seq::<char>::empty());
        assert(Seq::<char>::empty() + Seq::<char>::empty() + items[0] =~= items[0]);
    }
}

/// The items, separated by commas.
pub fn join_items(items: &Vec<String>) -> (r: String)
    ensures
        r@ == joined(views_of(items@)),
{
    let ghost all = views_of(items@);
    let mut r = String::new();
    let mut i: usize = 0;
    while i < items.len()
        invariant
            i <= items@.len(),
            all == views_of(items@),
            r@ == joined(all.take(i as int)),
        decreases items@.len() - i,
    {
        proof {
            lemma_joined_push(all, i as int);
        }
        if i > 0 {
            r.append(",");
        }
        r.append(items[i].as_str());
        i = i + 1;
    }
    proof {
        assert(all.take(all.len() as int) =~= all);
    }
    r
}

/// The JSON object of a part, given its text already written as a JSON string.
pub fn frame_part(quoted: &str) -> (r: String)
    ensures
        r@ == part_frame(quoted@),
{
    let mut r = String::from_str("{\"text\":");
    r.append(quoted);
    r.append("}");
    r
}

/// The JSON object of a content, given its parts and its role already written
/// as JSON.
pub fn frame_content(parts: &Vec<String>, quoted_role: &str) -> (r: String)
    ensures
        r@ == content_frame(views_of(parts@), quoted_role@),
{
    let mut r = String::from_str("{\"parts\":[");
    let joined = join_items(parts);
    r.append(joined.as_str());
    r.append("],\"role\":");
    r.append(quoted_role);
    r.append("}");
    r
}

/// The JSON object of a request, given its contents already written as JSON.
pub fn frame_request(contents: &Vec<String>) -> (r: String)
    ensures
        r@ == request_frame(views_of(contents@)),
{
    let mut r = String::from_str("{\"contents\":[");
    let joined = join_items(contents);
    r.append(joined.as_str());
    r.append("]}");
    r
}

impl Part {
    /// The JSON object of this part.
    pub fn to_json(&self) -> (r: Result<String, GeminiError>)
        ensures
            r matches Ok(t) && t@ == part_json(*self),
    {
        let q = match quote(self.text.as_str()) {
            Ok(q) => q,
            Err(e) => return Err(GeminiError::Serialization(e)),
        };
        Ok(frame_part(q.as_str()))
    }
}

impl Content {
    /// The JSON object of this content: its parts in order, then its role.
    pub fn to_json(&self) -> (r: Result<String, GeminiError>)
        ensures
            r matches Ok(t) && t@ == content_json(*self),
    {
        let ghost want = self.parts@.map_values(|p: Part| part_json(p));
        let mut items: Vec<String> = Vec::new();
        let mut i: usize = 0;
        while i < self.parts.len()
            invariant
                i <= self.parts@.len(),
                want == self.parts@.map_values(|p: Part| part_json(p)),
                views_of(items@) == want.take(i as int),
            decreases self.parts@.len() - i,
        {
            let t = match self.parts[i].to_json() {
                Ok(t) => t,
                Err(e) => return Err(e),
            };
            let ghost before = items@;
            items.push(t);
            proof {
                assert(views_of(items@) =~= views_of(before).push(want[i as int]));
                assert(want.take(i + 1) =~= want.take(i as int).push(want[i as int]));
            }
            i = i + 1;
        }
        let q = match quote(self.role.as_str()) {
            Ok(q) => q,
            Err(e) => return Err(GeminiError::Serialization(e)),
        };
        proof {
            assert(want.take(want.len() as int) =~= want);
        }
        Ok(frame_content(&items, q.as_str()))
    }
}

impl RequestBody {
    /// The request for `prompt`: one content of role "user" holding one part,
    /// the prompt as given.
    pub fn for_prompt(prompt: &str) -> (r: RequestBody)
        ensures
            is_request_for(r, prompt@),
    {
        let part = Part { text: prompt.to_owned() };
        let content = Content { parts: vec![part], role: USER_ROLE.to_owned() };
        let r = RequestBody { contents: vec![content] };
        proof {
            assert(texts_of(r.contents@[0].parts@) =~= seq![prompt@]);
        }
        r
    }

    /// The JSON text of this body.
    pub fn to_json(&self) -> (r: Result<String, GeminiError>)
        ensures
            r matches Ok(t) && t@ == request_json(*self),
    {
        let ghost want = self.contents@.map_values(|c: Content| content_json(c));
        let mut items: Vec<String> = Vec::new();
        let mut i: usize = 0;
        while i < self.contents.len()
            invariant
                i <= self.contents@.len(),
                want == self.contents@.map_values(|c: Content| content_json(c)),
                views_of(items@) == want.take(i as int),
            decreases self.contents@.len() - i,
        {
            let t = match self.contents[i].to_json() {
                Ok(t) => t,
                Err(e) => return Err(e),
            };
            let ghost before = items@;
            items.push(t);
            proof {
                assert(views_of(items@) =~= views_of(before).push(want[i as int]));
                assert(want.take(i + 1) =~= want.take(i as int).push(want[i as int]));
            }
            i = i + 1;
        }
        proof {
            assert(want.take(want.len() as int) =~= want);
        }
        Ok(frame_request(&items))
    }
}

/// Every body that is the request for a prompt is written as the same text,
/// which holds the prompt's JSON string literal as the one part and "user" as
/// the role.
pub proof fn lemma_request_text(b: RequestBody, prompt: Seq<char>)
    requires
        is_request_for(b, prompt),
    ensures
        request_json(b) == prompt_json(prompt),
{
    let c = b.contents@[0];
    assert(c.parts@.len() == texts_of(c.parts@).len());
    assert(texts_of(c.parts@)[0] == prompt);
    assert(c.parts@[0].text@ == prompt);
    assert(c.parts@.map_values(|p: Part| part_json(p)) =~= seq![part_frame(json_string(prompt))]);
    assert(b.contents@.map_values(|c: Content| content_json(c)) =~= seq![content_json(c)]);
}

/// The JSON text posted for `prompt`.
pub fn request_text(prompt: &str) -> (r: Result<String, GeminiError>)
    ensures
        r matches Ok(t) && t@ == prompt_json(prompt@),
{
    let body = RequestBody::for_prompt(prompt);
    proof {
        lemma_request_text(body, prompt@);
    }
    body.to_json()
}

} // verus!
