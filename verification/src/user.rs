//! User profiles: the traits a message reveals, and the user module's
//! settings.
use vstd::prelude::*;
use crate::text::{
    cut_bytes, cut_bytes_exec, find_chars, push_chars, push_range, spec_find, to_chars,
    trim_chars, trim_spec,
};

verus! {

/// Settings of the user module.
#[derive(Debug, Clone)]
pub struct UserModuleConfig {
    /// The model may update profiles on its own.
    pub auto_mode: bool,
    /// Profiles are extracted every `message_interval` messages.
    pub timed_mode: bool,
    pub message_interval: u32,
}

/// The default message interval of timed mode.
pub fn default_message_interval() -> (r: u32)
    ensures
        r == 5,
{
    5
}

impl Default for UserModuleConfig {
    fn default() -> (r: Self)
        ensures
            r.auto_mode && !r.timed_mode && r.message_interval == 5,
    {
        UserModuleConfig {
            auto_mode: true,
            timed_mode: false,
            message_interval: default_message_interval(),
        }
    }
}

/// Whether `c` ends a value: `。`, `，`, `!`, `？`, and for food also `的`.
pub open spec fn is_stop(c: char, with_de: bool) -> bool {
    c == '。' || c == '，' || c == '!' || c == '？' || (with_de && c == '的')
}

/// The first position of a stop character.
pub open spec fn first_stop(s: Seq<char>, with_de: bool) -> Option<int>
    decreases s.len(),
{
    if s.len() == 0 {
        None
    } else if is_stop(s.last(), with_de) {
        match first_stop(s.drop_last(), with_de) {
            Some(k) => Some(k),
            None => Some(s.len() - 1),
        }
    } else {
        first_stop(s.drop_last(), with_de)
    }
}

/// The value after a keyword: the trimmed text after it up to the first stop
/// character, or else within its first `limit` bytes; `None` where those
/// bytes end inside a character (a slicing panic).
pub open spec fn value_after(input: Seq<char>, key: Seq<char>, with_de: bool, limit: nat) -> Option<
    Option<Seq<char>>,
> {
    match spec_find(input, key) {
        None => Some(None),
        Some(i) => {
            let after = trim_spec(input.skip(i + key.len()));
            match first_stop(after, with_de) {
                Some(k) => Some(Some(trim_spec(after.take(k)))),
                None => match cut_bytes(after, limit) {
                    Some(c) => Some(Some(trim_spec(c))),
                    None => None,
                },
            }
        },
    }
}

/// Whether reading the traits of `input` panics.
pub open spec fn traits_panic(input: Seq<char>) -> bool {
    value_after(input, "不吃"@, true, 20) is None || value_after(input, "喜欢"@, false, 15) is None
        || value_after(input, "住在"@, false, 15) is None
}

/// The traits that `input` reveals, as (kind, fact) pairs: a food taboo
/// (`不吃…`), a liking (`喜欢…`, shorter than 15 characters) and a home
/// (`住在…`), in that order, each when its value is not empty.
pub open spec fn traits_of(input: Seq<char>) -> Seq<(Seq<char>, Seq<char>)> {
    let food = match value_after(input, "不吃"@, true, 20) {
        Some(Some(v)) => if v.len() > 0 {
            seq![("饮食禁忌"@, "不吃"@ + v)]
        } else {
            Seq::empty()
        },
        _ => Seq::empty(),
    };
    let like = match value_after(input, "喜欢"@, false, 15) {
        Some(Some(v)) => if v.len() > 0 && v.len() < 15 {
            seq![("喜好"@, "喜欢"@ + v)]
        } else {
            Seq::empty()
        },
        _ => Seq::empty(),
    };
    let home = match value_after(input, "住在"@, false, 15) {
        Some(Some(v)) => if v.len() > 0 {
            seq![("居住地"@, "住在"@ + v)]
        } else {
            Seq::empty()
        },
        _ => Seq::empty(),
    };
    food + like + home
}

/// The texts of a list of string pairs.
pub open spec fn pairs_view(v: Seq<(String, String)>) -> Seq<(Seq<char>, Seq<char>)> {
    v.map_values(|p: (String, String)| (p.0@, p.1@))
}

fn first_stop_exec(s: &[char], with_de: bool) -> (r: Option<usize>)
    ensures
        match r {
            Some(k) => first_stop(s@, with_de) == Some(k as int) && k < s@.len(),
            None => first_stop(s@, with_de) is None,
        },
{
    let mut i: usize = 0;
    while i < s.len()
        invariant
            i <= s@.len(),
            first_stop(s@.take(i as int), with_de) is None,
        decreases s@.len() - i,
    {
        assert(s@.take(i + 1).drop_last() == s@.take(i as int));
        assert(s@.take(i + 1).last() == s@[i as int]);
        let c = s[i];
        if c == '。' || c == '，' || c == '!' || c == '？' || (with_de && c == '的') {
            proof {
                lemma_first_stop_prefix(s@, i as int, with_de);
            }
            return Some(i);
        }
        i += 1;
    }
    assert(s@.take(s@.len() as int) == s@);
    None
}

proof fn lemma_first_stop_prefix(s: Seq<char>, i: int, with_de: bool)
    requires
        0 <= i < s.len(),
        first_stop(s.take(i), with_de) is None,
        is_stop(s[i], with_de),
    ensures
        first_stop(s, with_de) == Some(i),
    decreases s.len(),
{
    if s.len() - 1 == i {
        assert(s.drop_last() == s.take(i));
    } else {
        assert(s.drop_last().take(i) == s.take(i));
        lemma_first_stop_prefix(s.drop_last(), i, with_de);
    }
}

fn value_after_exec(input: &[char], key: &str, with_de: bool, limit: usize) -> (r: Option<Option<Vec<char>>>)
    ensures
        match r {
            None => value_after(input@, key@, with_de, limit as nat) is None,
            Some(None) => value_after(input@, key@, with_de, limit as nat) == Some(None::<Seq<char>>),
            Some(Some(v)) => value_after(input@, key@, with_de, limit as nat) == Some(Some(v@)),
        },
{
    let k = to_chars(key);
    match find_chars(input, k.as_slice()) {
        None => Some(None),
        Some(i) => {
            proof {
                crate::text::lemma_find_from(input@, key@, 0);
                assert(crate::text::matches_at(input@, k@, i as int));
            }
            let n = input.len();
            assert(i + k.len() <= n);
            let mut rest = Vec::new();
            push_range(&mut rest, input, i + k.len(), input.len());
            assert(input@.subrange(i + k.len(), input@.len() as int) == input@.skip(i + key@.len()));
            let after = trim_chars(rest.as_slice());
            match first_stop_exec(after.as_slice(), with_de) {
                Some(e) => {
                    let mut head = Vec::new();
                    push_range(&mut head, after.as_slice(), 0, e);
                    assert(after@.subrange(0, e as int) == after@.take(e as int));
                    Some(Some(trim_chars(head.as_slice())))
                },
                None => match cut_bytes_exec(after.as_slice(), limit) {
                    Some(c) => Some(Some(trim_chars(c.as_slice()))),
                    None => None,
                },
            }
        },
    }
}

fn fact(kind: &str, key: &str, v: &Vec<char>) -> (r: (String, String))
    ensures
        r.0@ == kind@,
        r.1@ == key@ + v@,
{
    let mut s = key.to_string();
    push_chars(&mut s, v.as_slice());
    (kind.to_string(), s)
}

/// The traits that `input` reveals (see [`traits_of`]).
pub fn extract_traits(input: &str) -> (r: Vec<(String, String)>)
    requires
        !traits_panic(input@),
    ensures
        pairs_view(r@) == traits_of(input@),
{
    let c = to_chars(input);
    let mut out: Vec<(String, String)> = Vec::new();
    let ghost mut acc: Seq<(Seq<char>, Seq<char>)> = Seq::empty();
    match value_after_exec(c.as_slice(), "不吃", true, 20) {
        Some(Some(v)) => {
            if v.len() > 0 {
                let f = fact("饮食禁忌", "不吃", &v);
                out.push(f);
                proof {
                    acc = seq![("饮食禁忌"@, "不吃"@ + v@)];
                }
            }
        },
        _ => {},
    }
    assert(pairs_view(out@) =~= acc);
    let ghost food = acc;
    match value_after_exec(c.as_slice(), "喜欢", false, 15) {
        Some(Some(v)) => {
            if v.len() > 0 && v.len() < 15 {
                let f = fact("喜好", "喜欢", &v);
                out.push(f);
                proof {
                    acc = acc + seq![("喜好"@, "喜欢"@ + v@)];
                }
            }
        },
        _ => {},
    }
    assert(pairs_view(out@) =~= acc);
    let ghost like = acc;
    match value_after_exec(c.as_slice(), "住在", false, 15) {
        Some(Some(v)) => {
            if v.len() > 0 {
                let f = fact("居住地", "住在", &v);
                out.push(f);
                proof {
                    acc = acc + seq![("居住地"@, "住在"@ + v@)];
                }
            }
        },
        _ => {},
    }
    assert(pairs_view(out@) =~= acc);
    assert(acc =~= traits_of(input@));
    out
}

/// Whether reading the traits of `input` would panic (see [`traits_panic`]).
pub fn traits_would_panic(input: &str) -> (r: bool)
    ensures
        r == traits_panic(input@),
{
    let c = to_chars(input);
    value_after_exec(c.as_slice(), "不吃", true, 20).is_none() || value_after_exec(
        c.as_slice(),
        "喜欢",
        false,
        15,
    ).is_none() || value_after_exec(c.as_slice(), "住在", false, 15).is_none()
}

} // verus!
