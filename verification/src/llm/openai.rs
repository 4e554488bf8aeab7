//! The endpoint settings of an OpenAI-compatible chat-completions provider,
//! and how its reply is read.

use vstd::prelude::*;

use crate::text::{append_str, chars_of, string_of};

verus! {

/// The path of the chat-completions call under the base URL.
pub const CHAT_COMPLETIONS_PATH: &'static str = "/v1/chat/completions";

/// `s` without trailing `'/'` characters.
pub open spec fn trim_end_slashes(s: Seq<char>) -> Seq<char>
    decreases s.len(),
{
    if s.len() > 0 && s.last() == '/' {
        trim_end_slashes(s.drop_last())
    } else {
        s
    }
}

/// Where and as whom to call: the base URL (without trailing slashes), the
/// API key and the model id.
pub struct ChatEndpoint {
    base_url: String,
    api_key: String,
    model: String,
}

impl ChatEndpoint {
    pub closed spec fn base(&self) -> Seq<char> {
        self.base_url@
    }

    pub closed spec fn key(&self) -> Seq<char> {
        self.api_key@
    }

    pub closed spec fn model_id(&self) -> Seq<char> {
        self.model@
    }

    pub fn new(base_url: &str, api_key: String, model: String) -> (r: Self)
        ensures
            r.base() == trim_end_slashes(base_url@),
            r.key() == api_key@,
            r.model_id() == model@,
    {
        let v = chars_of(base_url);
        let mut j: usize = v.len();
        assert(v@.take(j as int) == v@);
        while j > 0 && v[j - 1] == '/'
            invariant
                j <= v@.len(),
                trim_end_slashes(v@) == trim_end_slashes(v@.take(j as int)),
            decreases j,
        {
            assert(v@.take(j as int).drop_last() == v@.take(j - 1));
            j = j - 1;
        }
        let b = crate::text::sub_chars(v.as_slice(), 0, j);
        assert(b@ == v@.take(j as int));
        ChatEndpoint { base_url: string_of(b.as_slice()), api_key, model }
    }

    /// The URL of the chat-completions call.
    pub fn completions_url(&self) -> (r: String)
        ensures
            r@ == self.base() + CHAT_COMPLETIONS_PATH@,
    {
        let mut v = chars_of(self.base_url.as_str());
        append_str(&mut v, CHAT_COMPLETIONS_PATH);
        string_of(v.as_slice())
    }

    /// The bearer token.
    pub fn api_key(&self) -> (r: &str)
        ensures
            r@ == self.key(),
    {
        self.api_key.as_str()
    }

    /// The model id.
    pub fn model(&self) -> (r: &str)
        ensures
            r@ == self.model_id(),
    {
        self.model.as_str()
    }
}

/// The reply text: the content of the first choice, empty when there is no
/// choice or it has no content.
pub fn first_choice_content(contents: Vec<Option<String>>) -> (r: String)
    ensures
        r@ == (if contents@.len() > 0 && contents@[0] is Some {
            contents@[0]->0@
        } else {
            Seq::<char>::empty()
        }),
{
    let mut contents = contents;
    if contents.len() > 0 {
        match contents.swap_remove(0) {
            Some(c) => c,
            None => String::new(),
        }
    } else {
        String::new()
    }
}

} // verus!
