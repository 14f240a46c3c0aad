//! The client side of the MCP network transports: configuration, framing
//! of the server-sent event stream, and sorting of what arrives on it.
use vstd::prelude::*;
use crate::http_api::{parse_u64, parse_u64_text};
use crate::text::{chars_of, string_of, trim_end_char, trim_end_chars};

verus! {

/// Configuration of the server-sent events client transport.
pub struct SseConfig {
    /// MCP endpoint URL.
    pub endpoint: String,
    /// Extra request headers.
    pub headers: Vec<(String, String)>,
    /// Request timeout in milliseconds.
    pub timeout_ms: u64,
}

impl Default for SseConfig {
    fn default() -> (c: Self)
        ensures
            c.endpoint@.len() == 0,
            c.headers@.len() == 0,
            c.timeout_ms == 30000,
    {
        SseConfig { endpoint: String::new(), headers: Vec::new(), timeout_ms: 30000 }
    }
}

/// Configuration of the streamable HTTP client transport.
pub struct HttpConfig {
    /// MCP endpoint URL.
    pub endpoint: String,
    /// Extra request headers.
    pub headers: Vec<(String, String)>,
    /// Request timeout in milliseconds.
    pub timeout_ms: u64,
}

impl Default for HttpConfig {
    fn default() -> (c: Self)
        ensures
            c.endpoint@.len() == 0,
            c.headers@.len() == 0,
            c.timeout_ms == 30000,
    {
        HttpConfig { endpoint: String::new(), headers: Vec::new(), timeout_ms: 30000 }
    }
}

/// The event stream's URL: the endpoint without trailing `/`, then `/sse`.
pub fn sse_url(endpoint: &str) -> (r: String)
    ensures
        r@ == trim_end_char(endpoint@, '/') + "/sse"@,
{
    let v = chars_of(endpoint);
    let t = trim_end_chars(&v, '/');
    let mut s = string_of(&t);
    s.append("/sse");
    s
}

/// The event blocks completed by reading `s`, where `cur` is the unfinished
/// block read so far, and the unfinished block after it. A block ends at a
/// blank line (two newlines in a row), which is not part of it.
pub open spec fn frames_from(s: Seq<char>, cur: Seq<char>) -> (Seq<Seq<char>>, Seq<char>)
    decreases s.len(),
{
    if s.len() == 0 {
        (Seq::empty(), cur)
    } else if s[0] == '\n' && cur.len() > 0 && cur.last() == '\n' {
        let (e, r) = frames_from(s.drop_first(), Seq::empty());
        (seq![cur.drop_last()] + e, r)
    } else {
        frames_from(s.drop_first(), cur.push(s[0]))
    }
}

/// Splitting the stream anywhere changes nothing: reading `a` then `b`
/// completes the same blocks as reading them together, and leaves the same
/// unfinished block.
pub proof fn law_framing_ignores_chunking(a: Seq<char>, b: Seq<char>, cur: Seq<char>)
    ensures
        frames_from(a + b, cur) == ({
            let (e1, r1) = frames_from(a, cur);
            let (e2, r2) = frames_from(b, r1);
            (e1 + e2, r2)
        }),
    decreases a.len(),
{
    if a.len() == 0 {
        assert(a + b =~= b);
        let (e2, r2) = frames_from(b, cur);
        assert(Seq::<Seq<char>>::empty() + e2 =~= e2);
    } else {
        assert((a + b).drop_first() =~= a.drop_first() + b);
        assert((a + b)[0] == a[0]);
        if a[0] == '\n' && cur.len() > 0 && cur.last() == '\n' {
            law_framing_ignores_chunking(a.drop_first(), b, Seq::empty());
            let (e1, r1) = frames_from(a.drop_first(), Seq::empty());
            let (e2, r2) = frames_from(b, r1);
            assert(seq![cur.drop_last()] + (e1 + e2) =~= (seq![cur.drop_last()] + e1) + e2);
        } else {
            law_framing_ignores_chunking(a.drop_first(), b, cur.push(a[0]));
        }
    }
}

/// The unfinished tail of an event stream.
pub struct SseBuffer {
    pending: Vec<char>,
}

impl View for SseBuffer {
    type V = Seq<char>;

    closed spec fn view(&self) -> Seq<char> {
        self.pending@
    }
}

/// The models of a list of strings.
pub open spec fn blocks_view(v: Seq<String>) -> Seq<Seq<char>> {
    Seq::new(v.len(), |i: int| v[i]@)
}

impl SseBuffer {
    /// Nothing read yet.
    pub fn new() -> (r: SseBuffer)
        ensures
            r@.len() == 0,
    {
        SseBuffer { pending: Vec::new() }
    }

    /// Reads a chunk of the stream and returns the event blocks it
    /// completes, in order (see [`frames_from`]).
    pub fn push(&mut self, text: &str) -> (r: Vec<String>)
        ensures
            (blocks_view(r@), final(self)@) == frames_from(text@, old(self)@),
    {
        let s = chars_of(text);
        let ghost total = frames_from(s@, self.pending@);
        let mut out: Vec<String> = Vec::new();
        let mut i: usize = 0;
        assert(s@.skip(0) =~= s@);
        assert(Seq::<Seq<char>>::empty() + total.0 =~= total.0);
        while i < s.len()
            invariant
                i <= s.len(),
                total.0 == blocks_view(out@) + frames_from(s@.skip(i as int), self.pending@).0,
                total.1 == frames_from(s@.skip(i as int), self.pending@).1,
            decreases s.len() - i,
        {
            let c = s[i];
            let ghost t = s@.skip(i as int);
            assert(t[0] == c);
            assert(t.drop_first() =~= s@.skip(i + 1));
            let n = self.pending.len();
            if c == '\n' && n > 0 && self.pending[n - 1] == '\n' {
                let ghost cur = self.pending@;
                let ghost before = blocks_view(out@);
                let mut block = Vec::new();
                std::mem::swap(&mut block, &mut self.pending);
                block.pop();
                assert(block@ == cur.drop_last());
                let b = string_of(&block);
                out.push(b);
                proof {
                    let rest = frames_from(s@.skip(i + 1), Seq::empty());
                    assert(blocks_view(out@) =~= before.push(cur.drop_last()));
                    assert(before.push(cur.drop_last()) + rest.0 =~= before + (seq![cur.drop_last()] + rest.0));
                    assert(self.pending@ =~= Seq::<char>::empty());
                }
            } else {
                self.pending.push(c);
            }
            i = i + 1;
        }
        assert(s@.skip(i as int) =~= Seq::<char>::empty());
        assert(blocks_view(out@) + Seq::<Seq<char>>::empty() =~= blocks_view(out@));
        out
    }
}

/// What a message on the event stream is.
#[derive(Debug, Clone, Copy, PartialEq, Eq, Structural)]
pub enum StreamMessage {
    /// A response to a request: it has an id and a result or an error.
    Response,
    /// A notification: it names a method.
    Notification,
    /// Anything else, which is ignored.
    Other,
}

/// Sorts a JSON message by the members it has.
pub fn classify_message(has_id: bool, has_result: bool, has_error: bool, has_method: bool) -> (r: StreamMessage)
    ensures
        has_id && (has_result || has_error) ==> r == StreamMessage::Response,
        !(has_id && (has_result || has_error)) && has_method ==> r == StreamMessage::Notification,
        !(has_id && (has_result || has_error)) && !has_method ==> r == StreamMessage::Other,
{
    if has_id && (has_result || has_error) {
        StreamMessage::Response
    } else if has_method {
        StreamMessage::Notification
    } else {
        StreamMessage::Other
    }
}

/// The id of a JSON-RPC response, as far as the client reads it.
pub enum ResponseId {
    /// A number, with its value where it is a non-negative integer.
    Number(Option<u64>),
    /// A string.
    Text(String),
    /// Anything else.
    Other,
}

/// The number of the pending request a response answers: a numeric id, or
/// a string id that parses as a number; 0 otherwise.
pub fn pending_request_number(id: &ResponseId) -> (r: u64)
    ensures
        match id {
            ResponseId::Number(Some(n)) => r == *n,
            ResponseId::Number(None) => r == 0,
            ResponseId::Text(s) => r == (match parse_u64(s@) {
                Some(n) => n,
                None => 0,
            }),
            ResponseId::Other => r == 0,
        },
{
    match id {
        ResponseId::Number(Some(n)) => *n,
        ResponseId::Number(None) => 0,
        ResponseId::Text(s) => {
            let v = chars_of(s.as_str());
            match parse_u64_text(&v) {
                Some(n) => n,
                None => 0,
            }
        },
        ResponseId::Other => 0,
    }
}

} // verus!
