//! The parts of multi-scale attention that are not arithmetic on scores:
//! chat types, the known entities a text names, the windows a text is cut
//! into, and the embedding endpoint's settings.
//!
//! Scores are floating-point values; computing and comparing them stays
//! with the caller.
use vstd::prelude::*;
use crate::text::{from_chars, push_range, spec_contains, str_contains, to_chars};

verus! {

/// The kind of a conversation, by where attention is active.
#[derive(Debug, Clone, Copy, PartialEq, Eq, Structural)]
pub enum ChatType {
    /// Both the focus and the micro scale are active.
    FocusDiscussion,
    /// The wide scale is active but the focus scale is not.
    TopicShift,
    /// Attention is low everywhere.
    Scattered,
}

/// The name of a chat type.
pub open spec fn chat_type_name(t: ChatType) -> Seq<char> {
    match t {
        ChatType::FocusDiscussion => "focus_discussion"@,
        ChatType::TopicShift => "topic_shift"@,
        ChatType::Scattered => "scattered"@,
    }
}

impl ChatType {
    /// The name of this chat type.
    pub fn as_str(&self) -> (r: &'static str)
        ensures
            r@ == chat_type_name(*self),
    {
        match self {
            ChatType::FocusDiscussion => "focus_discussion",
            ChatType::TopicShift => "topic_shift",
            ChatType::Scattered => "scattered",
        }
    }
}

/// The chat type from which scales are active: focus and micro together
/// make a focused discussion; wide without focus a topic shift.
pub open spec fn chat_type_of(focus: bool, micro: bool, wide: bool) -> ChatType {
    if focus && micro {
        ChatType::FocusDiscussion
    } else if wide && !focus {
        ChatType::TopicShift
    } else {
        ChatType::Scattered
    }
}

/// The chat type from which scales are active.
pub fn classify_chat_type(focus_active: bool, micro_active: bool, wide_active: bool) -> (r: ChatType)
    ensures
        r == chat_type_of(focus_active, micro_active, wide_active),
{
    if focus_active && micro_active {
        ChatType::FocusDiscussion
    } else if wide_active && !focus_active {
        ChatType::TopicShift
    } else {
        ChatType::Scattered
    }
}

/// The entities the attention engine knows, in order.
pub open spec fn known_entities() -> Seq<Seq<char>> {
    seq![
        "神大人"@, "葵"@, "琳玲"@, "透闪石"@, "Tremolite"@, "情绪"@, "记忆"@, "注意力"@, "学习"@,
        "计划书"@, "插件"@, "工具"@, "L1"@, "L2"@, "L3"@,
    ]
}

/// The known entities among the first `n` that `text` contains, in order.
pub open spec fn entities_in(text: Seq<char>, n: int) -> Seq<Seq<char>>
    decreases n,
{
    if n <= 0 {
        Seq::empty()
    } else if spec_contains(text, known_entities()[n - 1]) {
        entities_in(text, n - 1).push(known_entities()[n - 1])
    } else {
        entities_in(text, n - 1)
    }
}

/// The texts of a list of strings.
pub open spec fn texts_of(v: Seq<String>) -> Seq<Seq<char>> {
    v.map_values(|s: String| s@)
}

/// The known entities that `text` names, in the order of the known list.
pub fn extract_known_entities(text: &str) -> (r: Vec<String>)
    ensures
        texts_of(r@) == entities_in(text@, 15),
{
    let known: [&'static str; 15] = [
        "神大人", "葵", "琳玲", "透闪石", "Tremolite", "情绪", "记忆", "注意力", "学习", "计划书",
        "插件", "工具", "L1", "L2", "L3",
    ];
    assert forall|k: int| 0 <= k < 15 implies #[trigger] known@[k]@ == known_entities()[k] by {}
    let mut out: Vec<String> = Vec::new();
    let mut i: usize = 0;
    while i < 15
        invariant
            i <= 15,
            known@.len() == 15,
            forall|k: int| 0 <= k < 15 ==> #[trigger] known@[k]@ == known_entities()[k],
            texts_of(out@) == entities_in(text@, i as int),
        decreases 15 - i,
    {
        if str_contains(text, known[i]) {
            let ghost before = texts_of(out@);
            out.push(known[i].to_string());
            assert(texts_of(out@) =~= before.push(known@[i as int]@));
        }
        i += 1;
    }
    out
}

/// The windows that a scan cuts `text` into: from every `stride`-th
/// character, at most `window` characters, each with its position.
pub open spec fn windows_of(
    text: Seq<char>,
    base: nat,
    window: nat,
    stride: nat,
    r: Seq<(usize, Seq<char>)>,
) -> bool {
    &&& (text.len() == 0 || window == 0) ==> r.len() == 0
    &&& (text.len() > 0 && window > 0) ==> {
        &&& r.len() * stride >= text.len()
        &&& r.len() > 0 && (r.len() - 1) * stride < text.len()
        &&& forall|k: int|
            0 <= k < r.len() ==> #[trigger] r[k].0 == base + k * stride && r[k].1 == text.subrange(
                k * stride,
                window_end(k * stride, window, text.len()),
            )
    }
}

/// Where a window from `start` ends: `window` characters on, or at the end.
pub open spec fn window_end(start: int, window: nat, len: nat) -> int {
    if start + window < len {
        start + window
    } else {
        len as int
    }
}

/// Cuts `text` into windows of `window` characters every `stride`
/// characters, positions counted from `base`.
pub fn window_segments(text: &str, base: usize, window: usize, stride: usize) -> (r: Vec<(usize, String)>)
    requires
        stride > 0 || text@.len() == 0 || window == 0,
        base + text@.len() + stride <= usize::MAX,
    ensures
        windows_of(text@, base as nat, window as nat, stride as nat, r@.map_values(|p: (usize, String)| (p.0, p.1@))),
{
    let chars = to_chars(text);
    let mut out: Vec<(usize, String)> = Vec::new();
    if chars.len() == 0 || window == 0 {
        assert(out@.map_values(|p: (usize, String)| (p.0, p.1@)).len() == 0);
        return out;
    }
    let len = chars.len();
    let mut i: usize = 0;
    assert(out@.len() * stride == 0) by (nonlinear_arith)
        requires
            out@.len() == 0,
    ;
    while i < len
        invariant
            len == chars@.len(),
            chars@ == text@,
            stride > 0,
            window > 0,
            base + len + stride <= usize::MAX,
            i == out@.len() * stride,
            out@.len() == 0 || (out@.len() - 1) * stride < len,
            i <= len + stride,
            forall|k: int|
                0 <= k < out@.len() ==> #[trigger] out@[k].0 == base + k * stride && out@[k].1@
                    == chars@.subrange(k * stride, window_end(k * stride, window as nat, len as nat)),
        decreases len + stride - i,
    {
        let end = if window < len - i {
            i + window
        } else {
            len
        };
        let mut seg = Vec::new();
        push_range(&mut seg, chars.as_slice(), i, end);
        assert(seg@ =~= chars@.subrange(i as int, end as int));
        let piece = from_chars(seg.as_slice());
        let ghost kk = out@.len();
        let ghost prev = out@;
        out.push((base + i, piece));
        assert(out@[kk as int].1@ == chars@.subrange(i as int, end as int));
        assert forall|j: int| 0 <= j < out@.len() implies #[trigger] out@[j].0 == base + j * stride
            && out@[j].1@ == chars@.subrange(j * stride, window_end(j * stride, window as nat, len as nat)) by {
            if j < kk {
                assert(out@[j] == prev[j]);
            } else {
                assert(j == kk);
                assert(j * stride == i);
            }
        }
        assert(out@.len() * stride == i + stride) by (nonlinear_arith)
            requires
                out@.len() == kk + 1,
                i == kk * stride,
        ;
        i = i + stride;
    }
    assert(out@.map_values(|p: (usize, String)| (p.0, p.1@)).len() == out@.len());
    out
}

/// The settings of an embedding endpoint.
#[derive(Debug, Clone)]
pub struct EmbeddingEngine {
    /// The API base URL, without trailing slashes.
    pub api_base: String,
    pub api_key: String,
    pub model: String,
}

/// `s` without its trailing `c` characters (`str::trim_end_matches`).
pub open spec fn trim_end_char(s: Seq<char>, c: char) -> Seq<char>
    decreases s.len(),
{
    if s.len() > 0 && s.last() == c {
        trim_end_char(s.drop_last(), c)
    } else {
        s
    }
}

impl EmbeddingEngine {
    /// The settings of an endpoint; trailing slashes of the base URL are
    /// dropped.
    pub fn new(api_base: &str, api_key: &str, model: &str) -> (r: Self)
        ensures
            r.api_base@ == trim_end_char(api_base@, '/'),
            r.api_key@ == api_key@,
            r.model@ == model@,
    {
        let c = to_chars(api_base);
        let mut n = c.len();
        assert(c@.take(n as int) == c@);
        while n > 0 && c[n - 1] == '/'
            invariant
                n <= c@.len(),
                trim_end_char(c@, '/') == trim_end_char(c@.take(n as int), '/'),
            decreases n,
        {
            assert(c@.take(n as int).drop_last() == c@.take(n - 1));
            n -= 1;
        }
        let mut head = Vec::new();
        push_range(&mut head, c.as_slice(), 0, n);
        assert(c@.subrange(0, n as int) == c@.take(n as int));
        EmbeddingEngine {
            api_base: from_chars(head.as_slice()),
            api_key: api_key.to_string(),
            model: model.to_string(),
        }
    }
}

} // verus!
