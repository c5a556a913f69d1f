use crate::error::GeminiError;
use crate::request::{texts_of, views_of, Content, Part};
use vstd::prelude::*;

verus! {

/// One alternative that the model generated.
#[derive(Debug)]
pub struct Candidate {
    pub content: Content,
}

/// A decoded reply: the candidates, in the order the server gave them.
#[derive(Debug)]
pub struct Response {
    pub candidates: Vec<Candidate>,
}

/// The texts of all parts of all candidates: candidate by candidate, and
/// within one candidate part by part.
pub open spec fn flat_texts(cands: Seq<Candidate>) -> Seq<Seq<char>>
    decreases cands.len(),
{
    if cands.len() == 0 {
        Seq::empty()
    } else {
        flat_texts(cands.drop_last()) + texts_of(cands.last().content.parts@)
    }
}

/// The generated texts, flattened in order.
pub open spec fn reply_of(r: Response) -> Seq<Seq<char>> {
    flat_texts(r.candidates@)
}

fn push_texts(out: &mut Vec<String>, parts: &Vec<Part>)
    ensures
        views_of(final(out)@) == views_of(old(out)@) + texts_of(parts@),
{
    let ghost start = views_of(out@);
    let mut i: usize = 0;
    while i < parts.len()
        invariant
            i <= parts@.len(),
            views_of(out@) == start + texts_of(parts@.take(i as int)),
        decreases parts@.len() - i,
    {
        let ghost before = out@;
        out.push(parts[i].text.clone());
        proof {
            assert(views_of(out@) =~= views_of(before) + seq![parts@[i as int].text@]);
            assert(texts_of(parts@.take(i + 1)) =~= texts_of(parts@.take(i as int)) + seq![
                parts@[i as int].text@,
            ]);
        }
        i = i + 1;
    }
    proof {
        assert(parts@.take(parts@.len() as int) =~= parts@);
    }
}

impl Response {
    /// The texts of all parts of all candidates, candidate by candidate and
    /// part by part; none where there is no candidate.
    pub fn texts(&self) -> (r: Vec<String>)
        ensures
            views_of(r@) == reply_of(*self),
    {
        let mut r: Vec<String> = Vec::new();
        let mut i: usize = 0;
        while i < self.candidates.len()
            invariant
                i <= self.candidates@.len(),
                views_of(r@) == flat_texts(self.candidates@.take(i as int)),
            decreases self.candidates@.len() - i,
        {
            proof {
                assert(self.candidates@.take(i + 1).drop_last() =~= self.candidates@.take(i as int));
            }
            push_texts(&mut r, &self.candidates[i].content.parts);
            i = i + 1;
        }
        proof {
            assert(self.candidates@.take(self.candidates@.len() as int) =~= self.candidates@);
            assert(views_of(Seq::<String>::empty()) =~= Seq::<Seq<char>>::empty());
        }
        r
    }
}

/// The result of a call, once the reply body has been decoded: a body that
/// did not decode is a serialization error, and a decoded one gives its texts.
pub fn reply_texts(decoded: Result<Response, serde_json::Error>) -> (r: Result<Vec<String>, GeminiError>)
    ensures
        decoded is Ok <==> r is Ok,
        r matches Ok(v) ==> views_of(v@) == reply_of(decoded->Ok_0),
        r matches Err(e) ==> e == GeminiError::Serialization(decoded->Err_0),
{
    match decoded {
        Ok(resp) => Ok(resp.texts()),
        Err(e) => Err(GeminiError::Serialization(e)),
    }
}

} // verus!
