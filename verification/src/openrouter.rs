//! The chat provider's side of the protocol: its errors, the request URL,
//! the status check, and the decoding of completions and event streams.
use vstd::prelude::*;
use vstd::utf8::{decode_utf8, valid_utf8};

use crate::text::{
    all_ws, chars_of, is_blank, lemma_trim_empty_iff_all_ws, opt_chars, trim, trim_range, trimmed,
};

verus! {

/// A message as the provider receives it.
#[derive(Clone, Debug, PartialEq, Eq)]
pub struct ProviderMessage {
    pub role: String,
    pub content: String,
}

/// Why a call to the chat provider failed.
#[derive(Debug)]
pub enum ChatProviderError {
    /// No API key is configured.
    MissingApiKey,
    /// The provider answered with a status outside `200..300`.
    Upstream { status: u16, body: String },
    /// The request could not be sent or its body could not be read.
    Request(String),
    /// The provider's answer could not be understood.
    InvalidResponse(String),
}

/// What `http::StatusCode`'s `Display` writes for the status `code`.
pub uninterp spec fn status_display(code: u16) -> Seq<char>;

/// Formats a status with `http::StatusCode::from_u16` and its `Display` impl.
/// The contract claims only that the text is `status_display(code)`, a name
/// for that output (the number followed by its canonical reason phrase);
/// the phrase table itself is not stated here.
#[verifier::external_body]
fn status_text(code: u16) -> (s: String)
    requires
        100 <= code <= 999,
    ensures
        s@ == status_display(code),
{
    match http::StatusCode::from_u16(code) {
        Ok(status) => status.to_string(),
        Err(_) => String::new(),
    }
}

/// `s` without the slashes at its end.
pub open spec fn trim_trailing_slashes(s: Seq<char>) -> Seq<char>
    decreases s.len(),
{
    if s.len() > 0 && s.last() == '/' {
        trim_trailing_slashes(s.drop_last())
    } else {
        s
    }
}

/// The chat-completions endpoint under the API base `base`.
pub open spec fn completions_url_of(base: Seq<char>) -> Seq<char> {
    trim_trailing_slashes(base) + "/chat/completions"@
}

proof fn lemma_trim_trailing_slashes(s: Seq<char>, j: int)
    requires
        0 <= j <= s.len(),
        forall|k: int| j <= k < s.len() ==> #[trigger] s[k] == '/',
        j == 0 || s[j - 1] != '/',
    ensures
        trim_trailing_slashes(s) == s.take(j),
    decreases s.len() - j,
{
    if j == s.len() {
        assert(s.take(j) =~= s);
    } else {
        let t = s.drop_last();
        assert(s[s.len() - 1] == '/');
        assert forall|k: int| j <= k < t.len() implies #[trigger] t[k] == '/' by {
            assert(t[k] == s[k]);
        }
        lemma_trim_trailing_slashes(t, j);
        assert(t.take(j) =~= s.take(j));
    }
}

/// The endpoint is the base followed by `/chat/completions`, and slashes at
/// the end of the base do not change it.
pub proof fn lemma_completions_url(base: Seq<char>)
    ensures
        completions_url_of(base + seq!['/']) == completions_url_of(base),
        (base.len() == 0 || base.last() != '/') ==> completions_url_of(base) == base
            + "/chat/completions"@,
{
    assert((base + seq!['/']).drop_last() =~= base);
}

/// The chat-completions endpoint under the API base `base_url`, which may end in slashes.
pub fn completions_url(base_url: &str) -> (url: String)
    ensures
        url@ == completions_url_of(base_url@),
{
    let v = chars_of(base_url);
    let mut j = v.len();
    while j > 0 && v[j - 1] == '/'
        invariant
            j <= v.len(),
            forall|k: int| j <= k < v.len() ==> #[trigger] v@[k] == '/',
        decreases j,
    {
        j = j - 1;
    }
    proof {
        lemma_trim_trailing_slashes(v@, j as int);
    }
    let mut url = String::from_str(base_url.substring_char(0, j));
    url.append("/chat/completions");
    url
}

/// Whether a status code reports success, as `http::StatusCode::is_success` decides.
pub open spec fn is_success(status: u16) -> bool {
    200 <= status < 300
}

/// Whether the provider's status reports success.
pub fn status_is_success(status: u16) -> (r: bool)
    ensures
        r == is_success(status),
        r <==> 200 <= status && status < 300,
{
    200 <= status && status < 300
}

/// Exactly the `2xx` statuses are successes: every informational,
/// redirection, client-error and server-error status is a failure.
pub proof fn lemma_success_is_2xx(status: u16)
    ensures
        is_success(status) <==> 200 <= status && status < 300,
        100 <= status < 200 ==> !is_success(status),
        300 <= status <= 999 ==> !is_success(status),
        500 <= status < 600 ==> !is_success(status),
{
}

/// Checks the status of the provider's answer: anything but a success is an
/// upstream error that carries the status and the answer's body.
pub fn check_status(status: u16, body: String) -> (r: Result<(), ChatProviderError>)
    requires
        100 <= status <= 999,
    ensures
        is_success(status) ==> r is Ok,
        !is_success(status) ==> (r matches Err(ChatProviderError::Upstream { status: s, body: b })
            && s == status && b@ == body@),
        200 <= status < 300 ==> r is Ok,
        300 <= status || status < 200 ==> (r matches Err(
            ChatProviderError::Upstream { status: s, body: b },
        ) && s == status && b@ == body@),
        r matches Err(e) ==> e.wf(),
{
    if 200 <= status && status < 300 {
        Ok(())
    } else {
        Err(ChatProviderError::Upstream { status, body })
    }
}

/// The configured API key, or the error that none is configured.
pub fn require_api_key(api_key: &Option<String>) -> (r: Result<&str, ChatProviderError>)
    ensures
        match api_key {
            Some(k) => r matches Ok(s) && s@ == k@,
            None => r matches Err(ChatProviderError::MissingApiKey),
        },
{
    match api_key {
        Some(key) => Ok(key.as_str()),
        None => Err(ChatProviderError::MissingApiKey),
    }
}

impl ChatProviderError {
    /// An `Upstream` error carries a status code that `http` accepts (`100..=999`).
    pub open spec fn wf(&self) -> bool {
        self matches ChatProviderError::Upstream { status, .. } ==> 100 <= *status <= 999
    }

    /// The message that may be shown to a client: it never carries the
    /// provider's body or the transport's error text.
    pub open spec fn public_text(&self) -> Seq<char> {
        match self {
            ChatProviderError::MissingApiKey => "OPENROUTER_API_KEY is not configured"@,
            ChatProviderError::Upstream { status, .. } => "OpenRouter request failed with "@
                + status_display(*status),
            ChatProviderError::Request(_) => "OpenRouter request failed"@,
            ChatProviderError::InvalidResponse(_) => "OpenRouter response was invalid"@,
        }
    }

    /// Whether the error is well formed.
    pub fn is_well_formed(&self) -> (r: bool)
        ensures
            r == self.wf(),
    {
        match self {
            ChatProviderError::Upstream { status, .. } => 100 <= *status && *status <= 999,
            _ => true,
        }
    }

    /// The message that may be shown to a client.
    pub fn public_message(&self) -> (m: String)
        requires
            self.wf(),
        ensures
            m@ == self.public_text(),
    {
        match self {
            ChatProviderError::MissingApiKey => String::from_str(
                "OPENROUTER_API_KEY is not configured",
            ),
            ChatProviderError::Upstream { status, .. } => {
                let mut m = String::from_str("OpenRouter request failed with ");
                let code = status_text(*status);
                m.append(code.as_str());
                m
            },
            ChatProviderError::Request(_) => String::from_str("OpenRouter request failed"),
            ChatProviderError::InvalidResponse(_) => String::from_str(
                "OpenRouter response was invalid",
            ),
        }
    }
}

/// The message of one choice of a completion answer.
#[derive(Clone, Debug, PartialEq, Eq)]
pub struct OpenRouterMessage {
    pub content: Option<String>,
}

/// One choice of a completion answer.
#[derive(Clone, Debug, PartialEq, Eq)]
pub struct OpenRouterChoice {
    pub message: OpenRouterMessage,
}

/// A completion answer, as the provider sends it without streaming.
#[derive(Clone, Debug, PartialEq, Eq)]
pub struct OpenRouterResponse {
    pub choices: Vec<OpenRouterChoice>,
}

/// The increment of one streamed choice.
#[derive(Clone, Debug, PartialEq, Eq)]
pub struct OpenRouterStreamDelta {
    pub content: Option<String>,
}

/// One streamed choice.
#[derive(Clone, Debug, PartialEq, Eq)]
pub struct OpenRouterStreamChoice {
    pub delta: OpenRouterStreamDelta,
}

/// One event of a streamed answer.
#[derive(Clone, Debug, PartialEq, Eq)]
pub struct OpenRouterStreamResponse {
    pub choices: Vec<OpenRouterStreamChoice>,
}

/// The assistant's text in a completion answer: the content of the first
/// choice, where it is there and not blank.
pub open spec fn completion_text(response: OpenRouterResponse) -> Option<Seq<char>> {
    if response.choices.len() > 0 {
        match response.choices[0].message.content {
            Some(c) => if trim(c@).len() > 0 {
                Some(c@)
            } else {
                None
            },
            None => None,
        }
    } else {
        None
    }
}

/// The text a streamed event adds: the content of the first choice's delta,
/// where it is there and not empty.
pub open spec fn delta_text(response: OpenRouterStreamResponse) -> Option<Seq<char>> {
    if response.choices.len() > 0 {
        match response.choices[0].delta.content {
            Some(c) => if c@.len() > 0 {
                Some(c@)
            } else {
                None
            },
            None => None,
        }
    } else {
        None
    }
}

/// The reply taken from a completion answer is the first choice's content,
/// whole and unchanged, whenever that content holds a character that is not
/// white space; there is no reply when there is no choice, no content, or
/// only white space.
pub proof fn lemma_completion_is_whole_reply(response: OpenRouterResponse)
    ensures
        response.choices.len() == 0 ==> completion_text(response) is None,
        response.choices.len() > 0 ==> match response.choices[0].message.content {
            Some(c) => (!all_ws(c@) ==> completion_text(response) == Some(c@)) && (all_ws(c@)
                ==> completion_text(response) is None),
            None => completion_text(response) is None,
        },
{
    if response.choices.len() > 0 {
        if let Some(c) = response.choices[0].message.content {
            lemma_trim_empty_iff_all_ws(c@);
        }
    }
}

/// The text a streamed event adds is its first choice's delta exactly as
/// sent, character for character (white space included), whenever that delta
/// is not empty; an event adds nothing when it has no choice, no content or
/// empty content.
pub proof fn lemma_delta_is_sent_as_is(response: OpenRouterStreamResponse)
    ensures
        response.choices.len() == 0 ==> delta_text(response) is None,
        response.choices.len() > 0 ==> match response.choices[0].delta.content {
            Some(c) => (c@.len() > 0 ==> delta_text(response) == Some(c@)) && (c@.len() == 0
                ==> delta_text(response) is None),
            None => delta_text(response) is None,
        },
{
}

/// The assistant's text in a completion answer, or the error that it has none.
pub fn extract_completion(response: OpenRouterResponse) -> (r: Result<String, ChatProviderError>)
    ensures
        match (r, completion_text(response)) {
            (Ok(c), Some(t)) => c@ == t,
            (Err(ChatProviderError::InvalidResponse(m)), None) => m@ == "missing assistant content"@,
            _ => false,
        },
        response.choices.len() > 0 ==> match response.choices[0].message.content {
            Some(c) => !all_ws(c@) ==> (r matches Ok(t) && t@ == c@),
            None => r is Err,
        },
{
    proof {
        lemma_completion_is_whole_reply(response);
    }
    let mut choices = response.choices;
    if choices.len() > 0 {
        let first = choices.remove(0);
        match first.message.content {
            Some(c) => {
                if !is_blank(c.as_str()) {
                    return Ok(c);
                }
            },
            None => {},
        }
    }
    Err(ChatProviderError::InvalidResponse(String::from_str("missing assistant content")))
}

/// The text a streamed event adds, if any.
pub fn stream_delta_content(response: OpenRouterStreamResponse) -> (r: Option<String>)
    ensures
        opt_chars(r) == delta_text(response),
        response.choices.len() > 0 ==> match response.choices[0].delta.content {
            Some(c) => c@.len() > 0 ==> (r matches Some(t) && t@ == c@),
            None => r is None,
        },
{
    proof {
        lemma_delta_is_sent_as_is(response);
    }
    let mut choices = response.choices;
    if choices.len() > 0 {
        let first = choices.remove(0);
        match first.delta.content {
            Some(c) => {
                if c.as_str().unicode_len() > 0 {
                    return Some(c);
                }
            },
            None => {},
        }
    }
    None
}

/// The outcome of parsing a streamed event's payload: the text it adds, or,
/// where the payload could not be parsed, an invalid-response error that
/// carries the parser's message.
pub fn stream_content(parsed: Result<OpenRouterStreamResponse, String>) -> (r: Result<
    Option<String>,
    ChatProviderError,
>)
    ensures
        match parsed {
            Ok(response) => r matches Ok(c) && opt_chars(c) == delta_text(response),
            Err(message) => r matches Err(ChatProviderError::InvalidResponse(m)) && m@ == message@,
        },
{
    match parsed {
        Ok(response) => Ok(stream_delta_content(response)),
        Err(message) => Err(ChatProviderError::InvalidResponse(message)),
    }
}

/// The line feed byte.
pub open spec fn line_feed() -> u8 {
    10u8
}

/// Whether `s` holds no line feed.
pub open spec fn no_line_feed(s: Seq<u8>) -> bool {
    forall|i: int| 0 <= i < s.len() ==> #[trigger] s[i] != line_feed()
}

/// The complete lines of `s` (the bytes before each line feed, without it)
/// and the bytes after its last line feed.
pub open spec fn split_lines(s: Seq<u8>) -> (Seq<Seq<u8>>, Seq<u8>)
    decreases s.len(),
{
    if s.len() == 0 {
        (Seq::empty(), Seq::empty())
    } else {
        let (lines, rest) = split_lines(s.drop_last());
        if s.last() == line_feed() {
            (lines.push(rest), Seq::empty())
        } else {
            (lines, rest.push(s.last()))
        }
    }
}

/// The lines, each followed by a line feed, one after another.
pub open spec fn join_lines(lines: Seq<Seq<u8>>) -> Seq<u8>
    decreases lines.len(),
{
    if lines.len() == 0 {
        Seq::empty()
    } else {
        join_lines(lines.drop_last()) + lines.last().push(line_feed())
    }
}

proof fn lemma_split_no_line_feed(s: Seq<u8>)
    requires
        no_line_feed(s),
    ensures
        split_lines(s) == (Seq::<Seq<u8>>::empty(), s),
    decreases s.len(),
{
    if s.len() > 0 {
        let t = s.drop_last();
        assert(no_line_feed(t)) by {
            assert forall|i: int| 0 <= i < t.len() implies #[trigger] t[i] != line_feed() by {
                assert(t[i] == s[i]);
            }
        }
        lemma_split_no_line_feed(t);
        assert(s[s.len() - 1] != line_feed());
        assert(t.push(s.last()) =~= s);
    }
}

/// Splitting a byte stream into lines loses nothing and finds every line feed:
/// the lines, each with its line feed put back, followed by the rest, give the
/// stream again, and neither a line nor the rest holds a line feed.
pub proof fn lemma_split_lines_roundtrip(s: Seq<u8>)
    ensures
        join_lines(split_lines(s).0) + split_lines(s).1 == s,
        no_line_feed(split_lines(s).1),
        forall|i: int|
            0 <= i < split_lines(s).0.len() ==> no_line_feed(#[trigger] split_lines(s).0[i]),
    decreases s.len(),
{
    if s.len() > 0 {
        let t = s.drop_last();
        lemma_split_lines_roundtrip(t);
        let (lines, rest) = split_lines(t);
        let x = s.last();
        if x == line_feed() {
            let nl = lines.push(rest);
            assert(nl.drop_last() =~= lines);
            assert(join_lines(nl) == join_lines(lines) + rest.push(line_feed()));
            assert(s =~= t.push(x));
            assert(join_lines(nl) + Seq::<u8>::empty() =~= s);
            assert forall|i: int| 0 <= i < nl.len() implies no_line_feed(#[trigger] nl[i]) by {
                if i < lines.len() {
                    assert(nl[i] == lines[i]);
                }
            }
        } else {
            let nr = rest.push(x);
            assert(s =~= t.push(x));
            assert(join_lines(lines) + nr =~= s);
            assert forall|i: int| 0 <= i < nr.len() implies #[trigger] nr[i] != line_feed() by {
                if i < rest.len() {
                    assert(nr[i] == rest[i]);
                }
            }
        }
    }
}

/// Lines do not depend on how the stream is cut into chunks: splitting
/// `a + b` gives the lines of `a`, then the lines of what `a` left pending
/// followed by `b`; and the same bytes stay pending.
pub proof fn lemma_split_lines_chunking(a: Seq<u8>, b: Seq<u8>)
    ensures
        split_lines(a + b).0 == split_lines(a).0 + split_lines(split_lines(a).1 + b).0,
        split_lines(a + b).1 == split_lines(split_lines(a).1 + b).1,
    decreases b.len(),
{
    let r = split_lines(a).1;
    if b.len() == 0 {
        assert(a + b =~= a);
        assert(r + b =~= r);
        lemma_split_lines_roundtrip(a);
        lemma_split_no_line_feed(r);
        assert(split_lines(a).0 + Seq::<Seq<u8>>::empty() =~= split_lines(a).0);
    } else {
        let bp = b.drop_last();
        lemma_split_lines_chunking(a, bp);
        assert((a + b).drop_last() =~= a + bp);
        assert((a + b).last() == b.last());
        assert((r + b).drop_last() =~= r + bp);
        assert((r + b).last() == b.last());
        let (l1, r1) = split_lines(r + bp);
        if b.last() == line_feed() {
            assert((split_lines(a).0 + l1).push(r1) =~= split_lines(a).0 + l1.push(r1));
        }
    }
}

/// Bytes received from the provider that do not yet end a line.
pub struct SseLineBuffer {
    buffer: Vec<u8>,
}

impl SseLineBuffer {
    #[verifier::type_invariant]
    spec fn inv(self) -> bool {
        no_line_feed(self.buffer@)
    }

    /// The bytes held back until their line is complete.
    pub closed spec fn pending(self) -> Seq<u8> {
        self.buffer@
    }

    /// An empty buffer.
    pub fn new() -> (b: SseLineBuffer)
        ensures
            b.pending() == Seq::<u8>::empty(),
    {
        SseLineBuffer { buffer: Vec::new() }
    }

    /// Takes the next chunk of the stream and gives back the lines that it completes.
    pub fn feed(&mut self, chunk: &[u8]) -> (lines: Vec<Vec<u8>>)
        ensures
            lines.deep_view() == split_lines(old(self).pending() + chunk@).0,
            final(self).pending() == split_lines(old(self).pending() + chunk@).1,
    {
        proof {
            use_type_invariant(&*self);
        }
        let ghost start = self.buffer@;
        proof {
            lemma_split_no_line_feed(start);
            assert(start + chunk@.take(0) =~= start);
        }
        let mut pending: Vec<u8> = Vec::new();
        std::mem::swap(&mut pending, &mut self.buffer);
        let mut lines: Vec<Vec<u8>> = Vec::new();
        let mut i: usize = 0;
        while i < chunk.len()
            invariant
                i <= chunk.len(),
                lines.deep_view() == split_lines(start + chunk@.take(i as int)).0,
                pending@ == split_lines(start + chunk@.take(i as int)).1,
            decreases chunk.len() - i,
        {
            let b = chunk[i];
            proof {
                let s = start + chunk@.take(i as int);
                assert((start + chunk@.take(i + 1)).drop_last() =~= s);
                assert((start + chunk@.take(i + 1)).last() == b);
            }
            if b == 10u8 {
                let mut line: Vec<u8> = Vec::new();
                std::mem::swap(&mut line, &mut pending);
                let ghost before = lines.deep_view();
                let ghost lv = line@;
                let ghost old_vec = lines@;
                lines.push(line);
                proof {
                    assert forall|k: int| 0 <= k < lines.len() implies lines.deep_view()[k]
                        == before.push(lv)[k] by {
                        if k < before.len() {
                            assert(lines@[k] == old_vec[k]);
                        }
                    }
                    assert(lines.deep_view() =~= before.push(lv));
                }
            } else {
                pending.push(b);
            }
            i = i + 1;
        }
        proof {
            assert(chunk@.take(chunk.len() as int) =~= chunk@);
            lemma_split_lines_roundtrip(start + chunk@);
        }
        self.buffer = pending;
        lines
    }

    /// Ends the stream and gives back the bytes of its unfinished last line.
    pub fn finish(self) -> (rest: Vec<u8>)
        ensures
            rest@ == self.pending(),
    {
        self.buffer
    }
}

/// The bytes `data:`.
pub open spec fn data_prefix() -> Seq<char> {
    seq!['d', 'a', 't', 'a', ':']
}

/// The payload that ends a stream, `[DONE]`.
pub open spec fn done_marker() -> Seq<char> {
    seq!['[', 'D', 'O', 'N', 'E', ']']
}

/// The payload of a line of the event stream: what follows `data:`, trimmed;
/// nothing for other lines, for empty data and for `[DONE]`.
pub open spec fn line_payload(line: Seq<char>) -> Option<Seq<char>> {
    if line.len() >= 5 && line.take(5) == data_prefix() {
        let data = trim(line.skip(5));
        if data.len() == 0 || data == done_marker() {
            None
        } else {
            Some(data)
        }
    } else {
        None
    }
}

/// A line `data:` followed by `x` carries the trimmed `x`, unless that is
/// empty or `[DONE]`; a line that does not begin with `data:` carries nothing.
pub proof fn lemma_line_payload(x: Seq<char>, line: Seq<char>)
    ensures
        line_payload(data_prefix() + x) == if trim(x).len() == 0 || trim(x) == done_marker() {
            None::<Seq<char>>
        } else {
            Some(trim(x))
        },
        (line.len() < 5 || line.take(5) != data_prefix()) ==> line_payload(line) is None,
{
    let l = data_prefix() + x;
    assert(l.take(5) =~= data_prefix());
    assert(l.skip(5) =~= x);
}

/// The payload of a line of the event stream, if it has one.
pub fn stream_line_payload(line: &str) -> (r: Option<String>)
    ensures
        opt_chars(r) == line_payload(line@),
{
    let v = chars_of(line);
    if v.len() >= 5 && v[0] == 'd' && v[1] == 'a' && v[2] == 't' && v[3] == 'a' && v[4] == ':' {
        assert(v@.take(5) =~= data_prefix());
        let (a, b) = trim_range(&v, 5, v.len());
        assert(v@.subrange(5, v@.len() as int) =~= v@.skip(5));
        if a == b {
            None
        } else if b - a == 6 && v[a] == '[' && v[a + 1] == 'D' && v[a + 2] == 'O' && v[a + 3]
            == 'N' && v[a + 4] == 'E' && v[a + 5] == ']' {
            assert(v@.subrange(a as int, b as int) =~= done_marker());
            None
        } else {
            proof {
                if v@.subrange(a as int, b as int) == done_marker() {
                    assert(done_marker().len() == 6);
                    assert(b - a == 6);
                    assert(v@.subrange(a as int, b as int)[0] == v@[a as int]);
                    assert(v@.subrange(a as int, b as int)[1] == v@[a + 1]);
                    assert(v@.subrange(a as int, b as int)[2] == v@[a + 2]);
                    assert(v@.subrange(a as int, b as int)[3] == v@[a + 3]);
                    assert(v@.subrange(a as int, b as int)[4] == v@[a + 4]);
                    assert(v@.subrange(a as int, b as int)[5] == v@[a + 5]);
                }
            }
            Some(String::from_str(line.substring_char(a, b)))
        }
    } else {
        proof {
            if v@.len() >= 5 && v@.take(5) == data_prefix() {
                assert(v@.take(5)[0] == v@[0]);
                assert(v@.take(5)[1] == v@[1]);
                assert(v@.take(5)[2] == v@[2]);
                assert(v@.take(5)[3] == v@[3]);
                assert(v@.take(5)[4] == v@[4]);
            }
        }
        None
    }
}

/// What `std::str::from_utf8`'s error writes when `bytes` are not UTF-8.
pub uninterp spec fn utf8_error_text(bytes: Seq<u8>) -> Seq<char>;

/// Decodes bytes with `std::str::from_utf8`: its documentation promises success
/// exactly on valid UTF-8, whose characters then make the text. The error's
/// text is only named, by `utf8_error_text`; its wording is not stated.
#[verifier::external_body]
fn utf8_decode(bytes: &[u8]) -> (r: Result<String, String>)
    ensures
        r is Ok <==> valid_utf8(bytes@),
        r matches Ok(s) ==> s@ == decode_utf8(bytes@),
        r matches Err(e) ==> e@ == utf8_error_text(bytes@),
{
    match std::str::from_utf8(bytes) {
        Ok(s) => Ok(s.to_string()),
        Err(e) => Err(e.to_string()),
    }
}

/// Decodes a complete line of the event stream: the line must be UTF-8; its
/// trimmed text gives the payload, if it has one.
pub fn decode_stream_line(line: &[u8]) -> (r: Result<Option<String>, ChatProviderError>)
    ensures
        valid_utf8(line@) ==> (r matches Ok(p) && opt_chars(p) == line_payload(
            trim(decode_utf8(line@)),
        )),
        !valid_utf8(line@) ==> (r matches Err(ChatProviderError::InvalidResponse(m)) && m@
            == utf8_error_text(line@)),
{
    match utf8_decode(line) {
        Ok(text) => {
            let t = trimmed(text.as_str());
            Ok(stream_line_payload(t.as_str()))
        },
        Err(message) => Err(ChatProviderError::InvalidResponse(message)),
    }
}

} // verus!
