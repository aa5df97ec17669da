//! Asking a model for a fix: the request sent to each provider, the reading
//! of its reply, and the patch block the answer carries.

use vstd::prelude::*;
use crate::config::{LlmConfig, LlmProvider};
use crate::text::{
    copy_range, copy_text, digit_char, ends_with, ends_with_str, find_chars, find_from,
    has_prefix_at, index_of_char, is_digit_char, is_whitespace, lemma_find_from,
    lemma_next_index_of, next_index_of, opt_text, push_all, skip_back, skip_fwd, skip_ws_from,
    starts_with, starts_with_str, string_of, to_chars, trim_char, trimmed_char,
};

verus! {

/// A text replacement proposed by a model: `before` is to be replaced by
/// `after` in the file the issue is about.
#[derive(Debug, Clone)]
pub struct SuggestedPatch {
    pub before: String,
    pub after: String,
}

impl View for SuggestedPatch {
    type V = (Seq<char>, Seq<char>);

    open spec fn view(&self) -> (Seq<char>, Seq<char>) {
        (self.before@, self.after@)
    }
}

impl SuggestedPatch {
    /// A copy of this patch with the same texts.
    pub fn duplicate(&self) -> (r: SuggestedPatch)
        ensures
            r@ == self@,
    {
        SuggestedPatch { before: self.before.clone(), after: self.after.clone() }
    }
}

/// A model's answer: its full text and the patch it holds, if any.
#[derive(Debug, Clone)]
pub struct LlmSuggestion {
    pub text: String,
    pub patch: Option<SuggestedPatch>,
}


impl View for LlmSuggestion {
    type V = (Seq<char>, Option<(Seq<char>, Seq<char>)>);

    open spec fn view(&self) -> (Seq<char>, Option<(Seq<char>, Seq<char>)>) {
        (
            self.text@,
            match self.patch {
                Some(p) => Some(p@),
                None => None,
            },
        )
    }
}

// ─── Cleaning a patch block ──────────────────────────────────────────────────

/// `p` is the start of a line of `t`.
pub open spec fn line_start(t: Seq<char>, p: int) -> bool {
    p == 0 || (0 < p <= t.len() && t[p - 1] == '\n')
}

/// The first index `>= i` that is not a decimal digit (`t.len()` if none).
pub open spec fn skip_digits(t: Seq<char>, i: int) -> int
    decreases t.len() - i,
{
    if i < 0 || i >= t.len() {
        if i < 0 { 0 } else { t.len() as int }
    } else if is_digit_char(t[i]) {
        skip_digits(t, i + 1)
    } else {
        i
    }
}

/// Where a marked line-number prefix starting at `p` ends: `>>>` or three
/// spaces, white space, one or more digits, `:` and an optional space (the
/// pattern `(?:>>>|   )\s*\d+: ?`).
pub open spec fn marked_prefix_end(t: Seq<char>, p: int) -> Option<int> {
    if 0 <= p && p + 3 <= t.len() && ((t[p] == '>' && t[p + 1] == '>' && t[p + 2] == '>') || (
    t[p] == ' ' && t[p + 1] == ' ' && t[p + 2] == ' ')) {
        let q = skip_fwd(t, p + 3, None);
        let r = skip_digits(t, q);
        if q < r && r < t.len() && t[r] == ':' {
            if r + 1 < t.len() && t[r + 1] == ' ' {
                Some(r + 2)
            } else {
                Some(r + 1)
            }
        } else {
            None
        }
    } else {
        None
    }
}

/// The first index `>= i` that is not an ASCII digit (`t.len()` if none).
pub open spec fn skip_ascii_digits(t: Seq<char>, i: int) -> int
    decreases t.len() - i,
{
    if i < 0 || i >= t.len() {
        if i < 0 { 0 } else { t.len() as int }
    } else if '0' <= t[i] && t[i] <= '9' {
        skip_ascii_digits(t, i + 1)
    } else {
        i
    }
}

/// Where a line number printed as `{:4}: ` starts at `p` ends: the number
/// right-aligned with spaces in four columns (no spaces when it has four
/// digits or more), `:` and an optional space.
pub open spec fn padded_prefix_end(t: Seq<char>, p: int) -> Option<int> {
    let q = skip_fwd(t, p, Some(' '));
    let r = skip_ascii_digits(t, q);
    let spaces = q - p;
    let digits = r - q;
    if 0 <= p && digits >= 1 && ((digits < 4 && spaces + digits == 4) || (digits >= 4 && spaces
        == 0)) && r < t.len() && t[r] == ':' {
        if r + 1 < t.len() && t[r + 1] == ' ' {
            Some(r + 2)
        } else {
            Some(r + 1)
        }
    } else {
        None
    }
}

/// Where a line-number prefix starting at `p` ends: a marked prefix, or else
/// a number in the `{:4}: ` form the context shown to the model uses.
pub open spec fn number_prefix_end(t: Seq<char>, p: int) -> Option<int> {
    match marked_prefix_end(t, p) {
        Some(e) => Some(e),
        None => padded_prefix_end(t, p),
    }
}

/// `t[p..]` with every line-number prefix (see `number_prefix_end`) that
/// starts a line removed, the prefixes taken left to right without
/// overlapping.
pub open spec fn strip_numbers_from(t: Seq<char>, p: int) -> Seq<char>
    decreases t.len() - p,
{
    if p < 0 || p >= t.len() {
        seq![]
    } else {
        match number_prefix_end(t, p) {
            Some(e) => {
                if line_start(t, p) && p < e {
                    strip_numbers_from(t, e)
                } else {
                    seq![t[p]] + strip_numbers_from(t, p + 1)
                }
            },
            None => seq![t[p]] + strip_numbers_from(t, p + 1),
        }
    }
}

/// A patch block cleaned of what models add around it: leading and trailing
/// newlines, a Markdown code fence (with its language tag line) and line-number
/// prefixes copied from the context shown to the model.
pub open spec fn sanitized(raw: Seq<char>) -> Seq<char> {
    let trimmed = trimmed_char(raw, '\n');
    let inner = if starts_with(trimmed, "```"@) {
        let rest = trimmed.subrange(3, trimmed.len() as int);
        let after_lang = match next_index_of(rest, 0, '\n') {
            Some(i) => rest.subrange(i + 1, rest.len() as int),
            None => rest,
        };
        if ends_with(after_lang, "```"@) {
            trimmed_char(after_lang.subrange(0, after_lang.len() - 3), '\n')
        } else {
            after_lang
        }
    } else {
        trimmed
    };
    strip_numbers_from(inner, 0)
}

fn skip_digits_from(t: &Vec<char>, i: usize) -> (r: usize)
    requires
        i <= t@.len(),
    ensures
        r == skip_digits(t@, i as int),
        i <= r <= t@.len(),
{
    let mut k = i;
    while k < t.len() && digit_char(t[k])
        invariant
            i <= k <= t@.len(),
            skip_digits(t@, i as int) == skip_digits(t@, k as int),
        decreases t@.len() - k,
    {
        k = k + 1;
    }
    k
}

fn marked_end(t: &Vec<char>, p: usize) -> (r: Option<usize>)
    requires
        p <= t@.len(),
    ensures
        r == (match marked_prefix_end(t@, p as int) {
            Some(e) => Some(e as usize),
            None => None::<usize>,
        }),
        r matches Some(e) ==> p < e <= t@.len(),
{
    let tl = t.len();
    if !(p < tl && tl - p >= 3 && ((t[p] == '>' && t[p + 1] == '>' && t[p + 2] == '>') || (t[p]
        == ' ' && t[p + 1] == ' ' && t[p + 2] == ' '))) {
        return None;
    }
    let q = skip_ws_from(t, p + 3);
    let r = skip_digits_from(t, q);
    if q < r && r < tl && t[r] == ':' {
        if r + 1 < tl && t[r + 1] == ' ' {
            Some(r + 2)
        } else {
            Some(r + 1)
        }
    } else {
        None
    }
}

fn padded_end(t: &Vec<char>, p: usize) -> (r: Option<usize>)
    requires
        p <= t@.len(),
    ensures
        r == (match padded_prefix_end(t@, p as int) {
            Some(e) => Some(e as usize),
            None => None::<usize>,
        }),
        r matches Some(e) ==> p < e <= t@.len(),
{
    let tl = t.len();
    let mut q = p;
    while q < tl && t[q] == ' '
        invariant
            p <= q <= tl,
            tl == t@.len(),
            skip_fwd(t@, p as int, Some(' ')) == skip_fwd(t@, q as int, Some(' ')),
        decreases tl - q,
    {
        q = q + 1;
    }
    let mut r = q;
    while r < tl && '0' <= t[r] && t[r] <= '9'
        invariant
            q <= r <= tl,
            tl == t@.len(),
            skip_ascii_digits(t@, q as int) == skip_ascii_digits(t@, r as int),
        decreases tl - r,
    {
        r = r + 1;
    }
    let spaces = q - p;
    let digits = r - q;
    if digits >= 1 && ((digits < 4 && spaces + digits == 4) || (digits >= 4 && spaces == 0)) && r
        < tl && t[r] == ':' {
        if r + 1 < tl && t[r + 1] == ' ' {
            Some(r + 2)
        } else {
            Some(r + 1)
        }
    } else {
        None
    }
}

fn prefix_end(t: &Vec<char>, p: usize) -> (r: Option<usize>)
    requires
        p <= t@.len(),
    ensures
        r == (match number_prefix_end(t@, p as int) {
            Some(e) => Some(e as usize),
            None => None::<usize>,
        }),
        r matches Some(e) ==> p < e <= t@.len(),
{
    match marked_end(t, p) {
        Some(e) => Some(e),
        None => padded_end(t, p),
    }
}

fn strip_line_numbers(t: &Vec<char>) -> (r: Vec<char>)
    ensures
        r@ == strip_numbers_from(t@, 0),
{
    let mut out: Vec<char> = Vec::new();
    let mut p: usize = 0;
    while p < t.len()
        invariant
            p <= t@.len(),
            out@ + strip_numbers_from(t@, p as int) == strip_numbers_from(t@, 0),
        decreases t@.len() - p,
    {
        let ls = p == 0 || t[p - 1] == '\n';
        match prefix_end(t, p) {
            Some(e) => {
                if ls {
                    p = e;
                    continue;
                }
            },
            None => {},
        }
        let ghost before = out@;
        out.push(t[p]);
        assert(out@ + strip_numbers_from(t@, p + 1) =~= before + strip_numbers_from(
            t@,
            p as int,
        ));
        p = p + 1;
    }
    assert(out@ + strip_numbers_from(t@, p as int) =~= out@);
    out
}

/// Cleans a BEFORE/AFTER block of a model's answer: strips leading and
/// trailing newlines, a surrounding Markdown code fence (```html, ``` …) and
/// line-number prefixes such as `   5: `, `  12: ` or `>>>  5: ` at line
/// starts.
pub fn sanitize_patch_block(raw: &Vec<char>) -> (r: Vec<char>)
    ensures
        r@ == sanitized(raw@),
{
    let trimmed = trim_char(raw, '\n');
    proof {
        reveal_strlit("```");
    }
    let inner = if starts_with_str(&trimmed, "```") {
        let tl = trimmed.len();
        let rest = copy_range(&trimmed, 3, tl);
        proof {
            lemma_next_index_of(rest@, 0, '\n');
        }
        let after_lang = match index_of_char(&rest, 0, '\n') {
            Some(i) => copy_range(&rest, i + 1, rest.len()),
            None => rest,
        };
        if ends_with_str(&after_lang, "```") {
            let al = after_lang.len();
            let body = copy_range(&after_lang, 0, al - 3);
            trim_char(&body, '\n')
        } else {
            after_lang
        }
    } else {
        trimmed
    };
    strip_line_numbers(&inner)
}

// ─── Parsing an answer ───────────────────────────────────────────────────────

/// The patch block of an answer: from the first `---PATCH---` to the first
/// `---END_PATCH---` after it (the end marker excluded).
pub open spec fn patch_block(raw: Seq<char>) -> Option<Seq<char>> {
    match find_from(raw, "---PATCH---"@, 0) {
        Some(start) => match find_from(raw, "---END_PATCH---"@, start) {
            Some(end) => Some(raw.subrange(start, end)),
            None => None,
        },
        None => None,
    }
}

/// The cleaned text between the first `marker` of `block` and the first
/// `end_marker` after it; empty when either is missing.
pub open spec fn section(block: Seq<char>, marker: Seq<char>, end_marker: Seq<char>) -> Seq<char> {
    match find_from(block, marker, 0) {
        Some(bm) => match find_from(block, end_marker, bm) {
            Some(eb) => sanitized(block.subrange(bm + marker.len(), eb)),
            None => seq![],
        },
        None => seq![],
    }
}

/// The `(before, after)` texts of the patch an answer holds: both sections of
/// its patch block, when neither is empty.
pub open spec fn answer_patch(raw: Seq<char>) -> Option<(Seq<char>, Seq<char>)> {
    match patch_block(raw) {
        Some(block) => {
            let b = section(block, "BEFORE:"@, "---END_BEFORE---"@);
            let a = section(block, "AFTER:"@, "---END_AFTER---"@);
            if b.len() > 0 && a.len() > 0 {
                Some((b, a))
            } else {
                None
            }
        },
        None => None,
    }
}

/// An end marker that starts with `-` is not found inside a marker without
/// `-`: it starts after the marker's end.
proof fn lemma_marker_order(t: Seq<char>, bm: int, marker: Seq<char>, end_marker: Seq<char>, eb: int)
    requires
        has_prefix_at(t, bm, marker),
        has_prefix_at(t, eb, end_marker),
        bm <= eb,
        end_marker.len() > 0,
        end_marker[0] == '-',
        forall|k: int| 0 <= k < marker.len() ==> marker[k] != '-',
    ensures
        bm + marker.len() <= eb,
{
    if eb < bm + marker.len() {
        assert(t.subrange(eb, eb + end_marker.len())[0] == t[eb]);
        assert(t.subrange(bm, bm + marker.len())[eb - bm] == t[eb]);
        assert(marker[eb - bm] != '-');
    }
}

/// The cleaned section of `block` between `marker` and `end_marker`.
fn section_of(block: &Vec<char>, marker: &str, end_marker: &str) -> (r: Vec<char>)
    requires
        end_marker@.len() > 0,
        end_marker@[0] == '-',
        forall|k: int| 0 <= k < marker@.len() ==> marker@[k] != '-',
    ensures
        r@ == section(block@, marker@, end_marker@),
{
    let m = to_chars(marker);
    let em = to_chars(end_marker);
    match find_chars(block, &m, 0) {
        Some(bm) => {
            proof {
                lemma_find_from(block@, m@, 0);
            }
            match find_chars(block, &em, bm) {
                Some(eb) => {
                    proof {
                        lemma_find_from(block@, em@, bm as int);
                        lemma_marker_order(block@, bm as int, m@, em@, eb as int);
                    }
                    let body = copy_range(block, bm + m.len(), eb);
                    sanitize_patch_block(&body)
                },
                None => Vec::new(),
            }
        },
        None => Vec::new(),
    }
}

/// Reads a model's answer: its text is kept whole, and the patch is taken
/// from the block `---PATCH--- … BEFORE: … ---END_BEFORE--- AFTER: …
/// ---END_AFTER--- … ---END_PATCH---` when both cleaned sections are
/// non-empty.
pub fn parse_suggestion_with_patch(raw: &str) -> (r: LlmSuggestion)
    ensures
        r.text@ == raw@,
        answer_patch(raw@) matches Some((b, a)) ==> (r.patch matches Some(p) && p.before@ == b
            && p.after@ == a),
        answer_patch(raw@) is None ==> r.patch is None,
{
    let t = to_chars(raw);
    let open = to_chars("---PATCH---");
    let close = to_chars("---END_PATCH---");
    let mut patch: Option<SuggestedPatch> = None;
    match find_chars(&t, &open, 0) {
        Some(start) => {
            proof {
                lemma_find_from(t@, open@, 0);
            }
            match find_chars(&t, &close, start) {
                Some(end) => {
                    proof {
                        lemma_find_from(t@, close@, start as int);
                        reveal_strlit("BEFORE:");
                        reveal_strlit("AFTER:");
                        reveal_strlit("---END_BEFORE---");
                        reveal_strlit("---END_AFTER---");
                    }
                    let block = copy_range(&t, start, end);
                    let before = section_of(&block, "BEFORE:", "---END_BEFORE---");
                    let after = section_of(&block, "AFTER:", "---END_AFTER---");
                    if before.len() > 0 && after.len() > 0 {
                        patch = Some(SuggestedPatch { before: string_of(&before), after: string_of(&after) });
                    }
                },
                None => {},
            }
        },
        None => {},
    }
    LlmSuggestion { text: raw.to_owned(), patch }
}

// ─── Talking to a provider ───────────────────────────────────────────────────

/// Something that asks a model for a fix: given the prompt, the model's
/// parsed answer, or the text of what went wrong.
pub trait LlmClient {
    fn suggest_fix(&self, prompt: &str) -> Result<LlmSuggestion, String>;
}

/// One chat request to send: where, with which extra headers, and the JSON
/// body's contents (`model`, `messages` as role/content pairs, and
/// `max_tokens` / `stream` when set).
#[derive(Debug, Clone)]
pub struct ChatRequest {
    pub url: String,
    pub headers: Vec<(String, String)>,
    pub model: String,
    pub messages: Vec<(String, String)>,
    pub max_tokens: Option<u32>,
    pub stream: Option<bool>,
}

/// The part of a provider's answer that holds the model's text.
#[derive(Debug, Clone)]
pub enum ChatReply {
    /// The `message.content` of each of OpenAI's `choices`.
    OpenAi { contents: Vec<String> },
    /// The `text` of each of Anthropic's `content` blocks.
    Anthropic { texts: Vec<Option<String>> },
    /// Ollama's `message.content`.
    Ollama { content: String },
}

/// A client for the configured provider.
#[derive(Debug, Clone)]
pub struct ChatClient {
    pub cfg: LlmConfig,
}

/// The system message sent to OpenAI.
pub open spec fn openai_system() -> Seq<char> {
    "You are an assistant that suggests safe, concise image-related HTML/JS code fixes and emits an optional structured patch block as described."@
}

/// The base URL used for `p` when none is configured.
pub open spec fn default_base(p: LlmProvider) -> Seq<char> {
    match p {
        LlmProvider::OpenAi => "https://api.openai.com"@,
        LlmProvider::Anthropic => "https://api.anthropic.com"@,
        LlmProvider::Ollama => "http://localhost:11434"@,
    }
}

/// The path of the chat endpoint of `p`.
pub open spec fn chat_path(p: LlmProvider) -> Seq<char> {
    match p {
        LlmProvider::OpenAi => "/v1/chat/completions"@,
        LlmProvider::Anthropic => "/v1/messages"@,
        LlmProvider::Ollama => "/api/chat"@,
    }
}

/// The views of a vector of text pairs.
pub open spec fn pairs_view(v: Seq<(String, String)>) -> Seq<(Seq<char>, Seq<char>)> {
    v.map_values(|p: (String, String)| (p.0@, p.1@))
}

/// The request a client for `cfg` sends for `prompt` (with the API key `key`
/// where the provider needs one).
pub open spec fn request_matches(r: ChatRequest, cfg: LlmConfig, prompt: Seq<char>) -> bool {
    let base = match cfg.endpoint {
        Some(e) => e@,
        None => default_base(cfg.provider),
    };
    &&& r.url@ == base + chat_path(cfg.provider)
    &&& r.model@ == cfg.model@
    &&& match cfg.provider {
        LlmProvider::OpenAi => {
            &&& pairs_view(r.headers@) == seq![("Authorization"@, "Bearer "@ + cfg.api_key->0@)]
            &&& pairs_view(r.messages@) == seq![("system"@, openai_system()), ("user"@, prompt)]
            &&& r.max_tokens is None
            &&& r.stream is None
        },
        LlmProvider::Anthropic => {
            &&& pairs_view(r.headers@) == seq![
                ("x-api-key"@, cfg.api_key->0@),
                ("anthropic-version"@, "2023-06-01"@),
            ]
            &&& pairs_view(r.messages@) == seq![("user"@, prompt)]
            &&& r.max_tokens == Some(512u32)
            &&& r.stream is None
        },
        LlmProvider::Ollama => {
            &&& pairs_view(r.headers@) == Seq::<(Seq<char>, Seq<char>)>::empty()
            &&& pairs_view(r.messages@) == seq![("user"@, prompt)]
            &&& r.max_tokens is None
            &&& r.stream == Some(false)
        },
    }
}

/// The error given when the provider needs an API key that is not set.
pub open spec fn missing_key_message(p: LlmProvider) -> Seq<char> {
    match p {
        LlmProvider::OpenAi => "OPENAI_API_KEY is required for OpenAI provider"@,
        LlmProvider::Anthropic => "ANTHROPIC_API_KEY is required for Anthropic provider"@,
        LlmProvider::Ollama => seq![],
    }
}

/// `texts` joined with `sep` between them.
pub open spec fn joined(texts: Seq<Seq<char>>, sep: Seq<char>) -> Seq<char>
    decreases texts.len(),
{
    if texts.len() == 0 {
        seq![]
    } else if texts.len() == 1 {
        texts[0]
    } else {
        joined(texts.drop_last(), sep) + sep + texts.last()
    }
}

/// The texts present among optional texts, in order.
pub open spec fn present_texts(v: Seq<Option<String>>) -> Seq<Seq<char>>
    decreases v.len(),
{
    if v.len() == 0 {
        seq![]
    } else {
        let rest = present_texts(v.drop_last());
        match v.last() {
            Some(s) => rest.push(s@),
            None => rest,
        }
    }
}

/// The model's text in a reply: OpenAI's first choice (an error when there is
/// none), Anthropic's text blocks joined by newlines, Ollama's message.
pub open spec fn reply_text(reply: ChatReply) -> Option<Seq<char>> {
    match reply {
        ChatReply::OpenAi { contents } => if contents.len() > 0 {
            Some(contents[0]@)
        } else {
            None
        },
        ChatReply::Anthropic { texts } => Some(joined(present_texts(texts@), "\n"@)),
        ChatReply::Ollama { content } => Some(content@),
    }
}


fn text_pair(a: &str, b: String) -> (r: (String, String))
    ensures
        r.0@ == a@,
        r.1@ == b@,
{
    (a.to_owned(), b)
}

/// A client for the provider of `cfg`; making one cannot fail.
pub fn create_llm_client(cfg: &LlmConfig) -> (r: Result<ChatClient, String>)
    ensures
        r matches Ok(c) && c.cfg.provider == cfg.provider && opt_text(c.cfg.api_key) == opt_text(
            cfg.api_key,
        ) && opt_text(c.cfg.endpoint) == opt_text(cfg.endpoint) && c.cfg.model@ == cfg.model@,
{
    let api_key = match &cfg.api_key {
        Some(k) => Some(copy_text(k)),
        None => None,
    };
    let endpoint = match &cfg.endpoint {
        Some(e) => Some(copy_text(e)),
        None => None,
    };
    Ok(
        ChatClient {
            cfg: LlmConfig {
                provider: cfg.provider,
                api_key,
                endpoint,
                model: copy_text(&cfg.model),
            },
        },
    )
}

impl ChatClient {
    /// The request that asks the model about `prompt`. OpenAI and Anthropic
    /// need an API key; without one the result is the error naming it.
    pub fn request(&self, prompt: &str) -> (r: Result<ChatRequest, String>)
        ensures
            (self.cfg.provider != LlmProvider::Ollama && self.cfg.api_key is None) ==> (r matches Err(
                m,
            ) && m@ == missing_key_message(self.cfg.provider)),
            !(self.cfg.provider != LlmProvider::Ollama && self.cfg.api_key is None) ==> (r matches Ok(
                req,
            ) && request_matches(req, self.cfg, prompt@)),
    {
        let base: Vec<char> = match &self.cfg.endpoint {
            Some(e) => to_chars(e.as_str()),
            None => match self.cfg.provider {
                LlmProvider::OpenAi => to_chars("https://api.openai.com"),
                LlmProvider::Anthropic => to_chars("https://api.anthropic.com"),
                LlmProvider::Ollama => to_chars("http://localhost:11434"),
            },
        };
        let mut url = base;
        let path = match self.cfg.provider {
            LlmProvider::OpenAi => to_chars("/v1/chat/completions"),
            LlmProvider::Anthropic => to_chars("/v1/messages"),
            LlmProvider::Ollama => to_chars("/api/chat"),
        };
        push_all(&mut url, &path);
        let url = string_of(&url);
        let model = copy_text(&self.cfg.model);
        let user = text_pair("user", prompt.to_owned());
        match self.cfg.provider {
            LlmProvider::OpenAi => {
                let key = match &self.cfg.api_key {
                    Some(k) => k,
                    None => {
                        return Err("OPENAI_API_KEY is required for OpenAI provider".to_owned());
                    },
                };
                let mut auth = to_chars("Bearer ");
                push_all(&mut auth, &to_chars(key.as_str()));
                let mut headers: Vec<(String, String)> = Vec::new();
                headers.push(text_pair("Authorization", string_of(&auth)));
                let mut messages: Vec<(String, String)> = Vec::new();
                messages.push(
                    text_pair(
                        "system",
                        "You are an assistant that suggests safe, concise image-related HTML/JS code fixes and emits an optional structured patch block as described.".to_owned(),
                    ),
                );
                messages.push(user);
                let r = ChatRequest { url, headers, model, messages, max_tokens: None, stream: None };
                assert(pairs_view(r.headers@) =~= seq![
                    ("Authorization"@, "Bearer "@ + self.cfg.api_key->0@),
                ]);
                assert(pairs_view(r.messages@) =~= seq![
                    ("system"@, openai_system()),
                    ("user"@, prompt@),
                ]);
                Ok(r)
            },
            LlmProvider::Anthropic => {
                let key = match &self.cfg.api_key {
                    Some(k) => k,
                    None => {
                        return Err("ANTHROPIC_API_KEY is required for Anthropic provider".to_owned());
                    },
                };
                let mut headers: Vec<(String, String)> = Vec::new();
                headers.push(text_pair("x-api-key", copy_text(key)));
                headers.push(text_pair("anthropic-version", "2023-06-01".to_owned()));
                let mut messages: Vec<(String, String)> = Vec::new();
                messages.push(user);
                let r = ChatRequest {
                    url,
                    headers,
                    model,
                    messages,
                    max_tokens: Some(512),
                    stream: None,
                };
                assert(pairs_view(r.headers@) =~= seq![
                    ("x-api-key"@, self.cfg.api_key->0@),
                    ("anthropic-version"@, "2023-06-01"@),
                ]);
                assert(pairs_view(r.messages@) =~= seq![("user"@, prompt@)]);
                Ok(r)
            },
            LlmProvider::Ollama => {
                let headers: Vec<(String, String)> = Vec::new();
                let mut messages: Vec<(String, String)> = Vec::new();
                messages.push(user);
                let r = ChatRequest {
                    url,
                    headers,
                    model,
                    messages,
                    max_tokens: None,
                    stream: Some(false),
                };
                assert(pairs_view(r.headers@) =~= Seq::<(Seq<char>, Seq<char>)>::empty());
                assert(pairs_view(r.messages@) =~= seq![("user"@, prompt@)]);
                Ok(r)
            },
        }
    }

    /// The suggestion a reply holds: the model's text (see `reply_text`)
    /// parsed by `parse_suggestion_with_patch`; OpenAI answering with no
    /// choice is an error.
    pub fn suggestion(&self, reply: &ChatReply) -> (r: Result<LlmSuggestion, String>)
        ensures
            reply_text(*reply) is None ==> (r matches Err(m) && m@ == "OpenAI returned no choices"@),
            reply_text(*reply) matches Some(t) ==> (r matches Ok(s) && s.text@ == t && (
            answer_patch(t) matches Some((b, a)) ==> (s.patch matches Some(p) && p.before@ == b
                && p.after@ == a)) && (answer_patch(t) is None ==> s.patch is None)),
    {
        match reply {
            ChatReply::OpenAi { contents } => {
                if contents.len() == 0 {
                    return Err("OpenAI returned no choices".to_owned());
                }
                Ok(parse_suggestion_with_patch(contents[0].as_str()))
            },
            ChatReply::Anthropic { texts } => {
                let combined = join_present(texts);
                Ok(parse_suggestion_with_patch(combined.as_str()))
            },
            ChatReply::Ollama { content } => Ok(parse_suggestion_with_patch(content.as_str())),
        }
    }
}

/// The present texts of `v`, joined by newlines.
fn join_present(v: &Vec<Option<String>>) -> (r: String)
    ensures
        r@ == joined(present_texts(v@), "\n"@),
{
    let mut out: Vec<char> = Vec::new();
    let mut any = false;
    let mut k: usize = 0;
    while k < v.len()
        invariant
            k <= v@.len(),
            out@ == joined(present_texts(v@.take(k as int)), "\n"@),
            any == (present_texts(v@.take(k as int)).len() > 0),
        decreases v@.len() - k,
    {
        let ghost prev = present_texts(v@.take(k as int));
        assert(v@.take(k + 1).drop_last() =~= v@.take(k as int));
        assert(v@.take(k + 1).last() == v@[k as int]);
        match &v[k] {
            Some(s) => {
                assert(present_texts(v@.take(k + 1)) == prev.push(s@));
                assert(prev.push(s@).drop_last() =~= prev);
                let sv = to_chars(s.as_str());
                if any {
                    out.push('\n');
                    push_all(&mut out, &sv);
                    assert(out@ =~= joined(prev, "\n"@) + "\n"@ + s@) by {
                        reveal_strlit("\n");
                    }
                } else {
                    push_all(&mut out, &sv);
                    assert(out@ =~= s@);
                }
                any = true;
            },
            None => {},
        }
        k = k + 1;
    }
    assert(v@.take(v@.len() as int) =~= v@);
    string_of(&out)
}

/// The part of an answer shown as prose: the text before its first
/// `---PATCH---` with trailing white space removed, or the whole text.
pub open spec fn prose_of(text: Seq<char>) -> Seq<char> {
    match find_from(text, "---PATCH---"@, 0) {
        Some(i) => text.subrange(0, skip_back(text, 0, i, None)),
        None => text,
    }
}

/// The prose of a model's answer, without the patch block that the patch
/// preview shows.
pub fn suggestion_prose(text: &str) -> (r: String)
    ensures
        r@ == prose_of(text@),
{
    let t = to_chars(text);
    let marker = to_chars("---PATCH---");
    match find_chars(&t, &marker, 0) {
        Some(i) => {
            let mut e = i;
            while e > 0 && is_whitespace(t[e - 1])
                invariant
                    e <= i,
                    i <= t@.len(),
                    skip_back(t@, 0, i as int, None) == skip_back(t@, 0, e as int, None),
                decreases e,
            {
                e = e - 1;
            }
            string_of(&copy_range(&t, 0, e))
        },
        None => string_of(&t),
    }
}

} // verus!
