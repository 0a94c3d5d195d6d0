//! Skill files: markdown with a small frontmatter naming the skill, its
//! category and description.
//!
//! ```text
//! ---
//! name: 理解文本
//! category: core
//! description: 能理解用户输入的文字内容
//! ---
//! 详细描述和用法说明……
//! ```
//!
//! Reading and writing the files stays with the caller.
use vstd::prelude::*;
use crate::text::{
    concat2, from_chars, pieces_view, spec_find, spec_starts_with, split_chars, split_on,
    starts_with_chars, to_chars, trim_chars, trim_spec, find_chars,
};

verus! {

/// What a skill file says of its skill.
#[derive(Debug)]
pub enum SkillSource {
    /// A file without frontmatter: the skill is named after the file.
    Plain { id: String },
    /// A file with frontmatter.
    Described { id: String, name: String, category: String, description: String },
}

/// The skill id of a skill named `name`.
pub open spec fn skill_id_spec(name: Seq<char>) -> Seq<char> {
    "file."@ + name
}

/// The skill id of a skill named `name`: `file.<name>`.
pub fn skill_id(name: &str) -> (r: String)
    ensures
        r@ == skill_id_spec(name@),
{
    concat2("file.", name)
}

/// The frontmatter of a file that opens with `---`: up to the first line
/// that starts with `---`, or the rest of the file without one.
pub open spec fn frontmatter_of(rest: Seq<char>) -> Seq<char> {
    match spec_find(rest, "\n---"@) {
        Some(end) => rest.take(end),
        None => rest,
    }
}

/// The value of the last frontmatter line that starts with `key` (after
/// trimming), trimmed.
pub open spec fn field_value(lines: Seq<Seq<char>>, key: Seq<char>) -> Option<Seq<char>>
    decreases lines.len(),
{
    if lines.len() == 0 {
        None
    } else if spec_starts_with(trim_spec(lines.last()), key) {
        Some(trim_spec(trim_spec(lines.last()).skip(key.len() as int)))
    } else {
        field_value(lines.drop_last(), key)
    }
}

/// A field's value, or `d` when it is absent or empty.
pub open spec fn value_or(v: Option<Seq<char>>, d: Seq<char>) -> Seq<char> {
    match v {
        Some(t) => if t.len() > 0 {
            t
        } else {
            d
        },
        None => d,
    }
}

/// The last value of `key` among `lines`.
fn last_field(lines: &Vec<Vec<char>>, key: &str) -> (r: Option<Vec<char>>)
    ensures
        match r {
            Some(v) => field_value(pieces_view(lines@), key@) == Some(v@),
            None => field_value(pieces_view(lines@), key@) is None,
        },
{
    let k = to_chars(key);
    let mut i = lines.len();
    assert(pieces_view(lines@).take(i as int) == pieces_view(lines@));
    while i > 0
        invariant
            i <= lines@.len(),
            k@ == key@,
            field_value(pieces_view(lines@), key@) == field_value(pieces_view(lines@).take(i as int), key@),
        decreases i,
    {
        let ghost prefix = pieces_view(lines@).take(i as int);
        assert(prefix.last() == lines@[i - 1]@);
        assert(prefix.drop_last() == pieces_view(lines@).take(i - 1));
        let t = trim_chars(lines[i - 1].as_slice());
        if starts_with_chars(t.as_slice(), k.as_slice()) {
            let v = trim_chars(&t.as_slice()[k.len()..t.len()]);
            assert(t@.subrange(k@.len() as int, t@.len() as int) == t@.skip(k@.len() as int));
            return Some(v);
        }
        i -= 1;
    }
    assert(pieces_view(lines@).take(0) =~= Seq::<Seq<char>>::empty());
    None
}

/// Reads a skill file named `stem` (its file name without extension).
/// Without an opening `---` it names a skill after the file. Otherwise its
/// frontmatter gives `name:`, `category:` and `description:`; the name
/// falls back to the file's, the category to `custom`.
pub fn parse_skill_file(content: &str, stem: &str) -> (r: SkillSource)
    ensures
        !spec_starts_with(content@, "---"@) ==> (r matches SkillSource::Plain { id } && id@
            == skill_id_spec(stem@)),
        spec_starts_with(content@, "---"@) ==> ({
            let lines = split_on(frontmatter_of(content@.skip(3)), '\n');
            let name = value_or(field_value(lines, "name:"@), stem@);
            &&& r matches SkillSource::Described { id, name: n, category, description }
            &&& id@ == skill_id_spec(name)
            &&& n@ == name
            &&& category@ == value_or(field_value(lines, "category:"@), "custom"@)
            &&& description@ == value_or(field_value(lines, "description:"@), Seq::empty())
        }),
{
    let c = to_chars(content);
    let open = to_chars("---");
    if !starts_with_chars(c.as_slice(), open.as_slice()) {
        return SkillSource::Plain { id: skill_id(stem) };
    }
    proof {
        reveal_strlit("---");
    }
    let rest = &c.as_slice()[3..c.len()];
    assert(rest@ == c@.skip(3));
    let close = to_chars("\n---");
    let front = match find_chars(rest, close.as_slice()) {
        Some(end) => {
            proof {
                crate::text::lemma_find_from(rest@, close@, 0);
            }
            assert(rest@.subrange(0, end as int) == rest@.take(end as int));
            &rest[0..end]
        },
        None => rest,
    };
    let lines = split_chars(front, '\n');
    let name = match last_field(&lines, "name:") {
        Some(v) => if v.len() > 0 {
            from_chars(v.as_slice())
        } else {
            stem.to_string()
        },
        None => stem.to_string(),
    };
    let category = match last_field(&lines, "category:") {
        Some(v) => if v.len() > 0 {
            from_chars(v.as_slice())
        } else {
            "custom".to_string()
        },
        None => "custom".to_string(),
    };
    let description = match last_field(&lines, "description:") {
        Some(v) => from_chars(v.as_slice()),
        None => String::new(),
    };
    SkillSource::Described { id: skill_id(name.as_str()), name, category, description }
}

/// The markdown of a new skill file.
pub open spec fn skill_markdown_spec(
    id: Seq<char>,
    name: Seq<char>,
    category: Seq<char>,
    description: Seq<char>,
    body: Seq<char>,
) -> Seq<char> {
    "---\nname: "@ + name + "\ncategory: "@ + category + "\ndescription: "@ + description
        + "\n---\n\n# "@ + name + " ("@ + id + ")\n\n"@ + description + "\n\n"@ + body
}

/// The markdown of a new skill file: the frontmatter, a heading with the
/// name and id, the description and the body.
pub fn skill_markdown(id: &str, name: &str, category: &str, description: &str, body: &str) -> (r: String)
    ensures
        r@ == skill_markdown_spec(id@, name@, category@, description@, body@),
{
    let mut s = concat2("---\nname: ", name);
    s.append("\ncategory: ");
    s.append(category);
    s.append("\ndescription: ");
    s.append(description);
    s.append("\n---\n\n# ");
    s.append(name);
    s.append(" (");
    s.append(id);
    s.append(")\n\n");
    s.append(description);
    s.append("\n\n");
    s.append(body);
    s
}

/// A frontmatter value that reads back as written: one line, with no
/// whitespace at either end.
pub open spec fn plain_field(v: Seq<char>) -> bool {
    &&& forall|k: int| 0 <= k < v.len() ==> v[k] != '\n'
    &&& v.len() > 0 ==> !crate::text::is_ws(v[0]) && !crate::text::is_ws(v.last())
}

/// The first occurrence of `p` in `s` is at `k` when `p` occurs there and
/// nowhere before.
proof fn lemma_first_match(s: Seq<char>, p: Seq<char>, k: int)
    requires
        crate::text::matches_at(s, p, k),
        forall|j: int| 0 <= j < k ==> !crate::text::matches_at(s, p, j),
    ensures
        spec_find(s, p) == Some(k),
{
    crate::text::lemma_find_from(s, p, 0);
}

/// Splitting at the first newline: a newline-free head, then the rest.
proof fn lemma_split_head(head: Seq<char>, rest: Seq<char>)
    requires
        forall|k: int| 0 <= k < head.len() ==> head[k] != '\n',
    ensures
        split_on(head + seq!['\n'] + rest, '\n') == seq![head] + split_on(rest, '\n'),
{
    let s = head + seq!['\n'] + rest;
    assert forall|j: int| 0 <= j < head.len() implies !crate::text::matches_at(s, seq!['\n'], j) by {
        assert(s.subrange(j, j + 1)[0] == head[j]);
    }
    assert(s.subrange(head.len() as int, head.len() as int + 1) =~= seq!['\n']);
    lemma_first_match(s, seq!['\n'], head.len() as int);
    assert(s.take(head.len() as int) =~= head);
    assert(s.skip(head.len() as int + 1) =~= rest);
}

/// A newline-free piece is not split.
proof fn lemma_split_none(s: Seq<char>)
    requires
        forall|k: int| 0 <= k < s.len() ==> s[k] != '\n',
    ensures
        split_on(s, '\n') == seq![s],
{
    crate::text::lemma_find_from(s, seq!['\n'], 0);
    if crate::text::index_of(s, '\n') is Some {
        let k = crate::text::index_of(s, '\n')->0;
        assert(s.subrange(k, k + 1)[0] == s[k]);
    }
}

/// A frontmatter line `<key> <v>`: trimmed it still starts with the key,
/// and its value trims back to `v`.
proof fn lemma_field_line(key: Seq<char>, v: Seq<char>)
    requires
        key.len() > 0,
        !crate::text::is_ws(key[0]),
        !crate::text::is_ws(key.last()),
        plain_field(v),
    ensures
        ({
            let t = trim_spec(key + " "@ + v);
            &&& spec_starts_with(t, key)
            &&& trim_spec(t.skip(key.len() as int)) == v
        }),
{
    reveal_strlit(" ");
    let line = key + " "@ + v;
    assert(line[0] == key[0]);
    assert(crate::text::lead_ws(line) == 0);
    assert(line.skip(0) =~= line);
    let t = trim_spec(line);
    if v.len() > 0 {
        assert(line.last() == v.last());
        assert(crate::text::trail_ws(line) == 0);
        assert(t =~= line);
        let w = " "@ + v;
        assert(t.skip(key.len() as int) =~= w);
        assert(crate::text::is_ws(w[0]));
        assert(w.skip(1) =~= v);
        assert(crate::text::lead_ws(v) == 0);
        assert(crate::text::lead_ws(w) == 1);
        assert(w.skip(1).skip(0) =~= v);
        assert(crate::text::trail_ws(v) == 0);
        assert(v.take(v.len() as int) =~= v);
        assert(t.take(key.len() as int) =~= key);
    } else {
        assert(line =~= key + " "@);
        assert(crate::text::is_ws(line.last()));
        assert(line.drop_last() =~= key);
        assert(crate::text::trail_ws(key) == 0);
        assert(crate::text::trail_ws(line) == 1);
        assert(t =~= key);
        assert(t.take(key.len() as int) =~= key);
        let e = t.skip(key.len() as int);
        assert(e.len() == 0);
        assert(crate::text::lead_ws(e) == 0);
        assert(crate::text::trail_ws(e.skip(0)) == 0);
        assert(trim_spec(e) =~= v);
    }
}

/// A trimmed frontmatter line that starts with one key does not start
/// with a key that begins with another character.
proof fn lemma_other_key(t: Seq<char>, key: Seq<char>, other: Seq<char>)
    requires
        spec_starts_with(t, key),
        key.len() > 0,
        other.len() > 0,
        key[0] != other[0],
    ensures
        !spec_starts_with(t, other),
{
    assert(t.take(key.len() as int)[0] == t[0]);
    if spec_starts_with(t, other) {
        assert(t.take(other.len() as int)[0] == t[0]);
    }
}

/// The closing `\n---` is found right after a frontmatter in which no
/// newline is followed by `-`.
proof fn lemma_find_close(front: Seq<char>, tail: Seq<char>)
    requires
        spec_starts_with(tail, "\n---"@),
        forall|j: int| 0 <= j < front.len() && #[trigger] front[j] == '\n' ==> j + 1 < front.len() && front[j + 1] != '-',
    ensures
        spec_find(front + tail, "\n---"@) == Some(front.len() as int),
{
    reveal_strlit("\n---");
    let s = front + tail;
    assert(s.subrange(front.len() as int, front.len() as int + 4) =~= tail.take(4));
    assert forall|j: int| 0 <= j < front.len() implies !crate::text::matches_at(s, "\n---"@, j) by {
        if crate::text::matches_at(s, "\n---"@, j) {
            assert(s.subrange(j, j + 4)[0] == s[j]);
            assert(s.subrange(j, j + 4)[1] == s[j + 1]);
        }
    }
    lemma_first_match(s, "\n---"@, front.len() as int);
}

/// Three newline-free lines, each after a newline, that do not start
/// with `-`.
proof fn lemma_three_lines(l1: Seq<char>, l2: Seq<char>, l3: Seq<char>)
    requires
        forall|k: int| 0 <= k < l1.len() ==> l1[k] != '\n',
        forall|k: int| 0 <= k < l2.len() ==> l2[k] != '\n',
        forall|k: int| 0 <= k < l3.len() ==> l3[k] != '\n',
        l1.len() > 0 && l1[0] != '-',
        l2.len() > 0 && l2[0] != '-',
        l3.len() > 0 && l3[0] != '-',
    ensures
        ({
            let front = seq!['\n'] + l1 + seq!['\n'] + l2 + seq!['\n'] + l3;
            &&& forall|j: int| 0 <= j < front.len() && #[trigger] front[j] == '\n' ==> j + 1 < front.len() && front[j + 1] != '-'
            &&& split_on(front, '\n') == seq![Seq::<char>::empty(), l1, l2, l3]
        }),
{
    let front = seq!['\n'] + l1 + seq!['\n'] + l2 + seq!['\n'] + l3;
    let n1 = 1 + l1.len();
    let n2 = n1 + 1 + l2.len();
    assert forall|j: int| 0 <= j < front.len() && #[trigger] front[j] == '\n' implies j + 1 < front.len() && front[j + 1] != '-' by {
        if j == 0 {
            assert(front[1] == l1[0]);
        } else if j < n1 {
            assert(front[j] == l1[j - 1]);
        } else if j == n1 {
            assert(front[j + 1] == l2[0]);
        } else if j < n2 {
            assert(front[j] == l2[j - n1 - 1]);
        } else if j == n2 {
            assert(front[j + 1] == l3[0]);
        } else {
            assert(front[j] == l3[j - n2 - 1]);
        }
    }
    let empty = Seq::<char>::empty();
    assert(front =~= empty + seq!['\n'] + (l1 + seq!['\n'] + (l2 + seq!['\n'] + l3)));
    lemma_split_head(empty, l1 + seq!['\n'] + (l2 + seq!['\n'] + l3));
    lemma_split_head(l1, l2 + seq!['\n'] + l3);
    lemma_split_head(l2, l3);
    lemma_split_none(l3);
    assert(split_on(front, '\n') =~= seq![empty, l1, l2, l3]);
}

/// `<key> <v>` holds no newline when `v` holds none.
proof fn lemma_line_one(key: Seq<char>, v: Seq<char>)
    requires
        forall|k: int| 0 <= k < key.len() ==> key[k] != '\n',
        plain_field(v),
    ensures
        forall|k: int| 0 <= k < (key + " "@ + v).len() ==> (key + " "@ + v)[k] != '\n',
{
    reveal_strlit(" ");
    let l = key + " "@ + v;
    assert forall|k: int| 0 <= k < l.len() implies l[k] != '\n' by {
        if k < key.len() {
            assert(l[k] == key[k]);
        } else if k == key.len() {
            assert(l[k] == ' ');
        } else {
            assert(l[k] == v[k - key.len() - 1]);
        }
    }
}

/// The three fields read from the lines of a written frontmatter.
proof fn lemma_three_fields(name: Seq<char>, category: Seq<char>, description: Seq<char>)
    requires
        plain_field(name),
        plain_field(category),
        plain_field(description),
    ensures
        ({
            let lines = seq![
                Seq::<char>::empty(),
                "name:"@ + " "@ + name,
                "category:"@ + " "@ + category,
                "description:"@ + " "@ + description,
            ];
            &&& field_value(lines, "name:"@) == Some(name)
            &&& field_value(lines, "category:"@) == Some(category)
            &&& field_value(lines, "description:"@) == Some(description)
        }),
{
    reveal_strlit("name:");
    reveal_strlit("category:");
    reveal_strlit("description:");
    let l1 = "name:"@ + " "@ + name;
    let l2 = "category:"@ + " "@ + category;
    let l3 = "description:"@ + " "@ + description;
    let lines = seq![Seq::<char>::empty(), l1, l2, l3];
    assert(!crate::text::is_ws('n') && !crate::text::is_ws(':') && !crate::text::is_ws('c')
        && !crate::text::is_ws('d'));
    assert("name:"@[0] == 'n' && "name:"@.last() == ':');
    assert("category:"@[0] == 'c' && "category:"@.last() == ':');
    assert("description:"@[0] == 'd' && "description:"@.last() == ':');
    lemma_field_line("name:"@, name);
    lemma_field_line("category:"@, category);
    lemma_field_line("description:"@, description);
    lemma_other_key(trim_spec(l3), "description:"@, "category:"@);
    lemma_other_key(trim_spec(l3), "description:"@, "name:"@);
    lemma_other_key(trim_spec(l2), "category:"@, "name:"@);
    assert(lines.last() == l3);
    assert(lines.drop_last() =~= seq![Seq::<char>::empty(), l1, l2]);
    assert(lines.drop_last().last() == l2);
    assert(lines.drop_last().drop_last() =~= seq![Seq::<char>::empty(), l1]);
    assert(lines.drop_last().drop_last().last() == l1);
    assert(field_value(lines, "description:"@) == Some(description));
    assert(field_value(lines.drop_last(), "category:"@) == Some(category));
    assert(field_value(lines, "category:"@) == Some(category));
    assert(field_value(lines.drop_last().drop_last(), "name:"@) == Some(name));
    assert(field_value(lines.drop_last(), "name:"@) == Some(name));
    assert(field_value(lines, "name:"@) == Some(name));
}

/// A skill file made by [`skill_markdown`] reads back, through the
/// frontmatter rules of [`parse_skill_file`], with the name, category and
/// description it was written with, whatever the file is called, when each
/// of the three is one line without surrounding whitespace and the name
/// and category are not empty.
pub proof fn law_skill_file_round_trip(
    id: Seq<char>,
    name: Seq<char>,
    category: Seq<char>,
    description: Seq<char>,
    body: Seq<char>,
    stem: Seq<char>,
)
    requires
        plain_field(name),
        plain_field(category),
        plain_field(description),
        name.len() > 0,
        category.len() > 0,
    ensures
        ({
            let content = skill_markdown_spec(id, name, category, description, body);
            let lines = split_on(frontmatter_of(content.skip(3)), '\n');
            &&& spec_starts_with(content, "---"@)
            &&& value_or(field_value(lines, "name:"@), stem) == name
            &&& value_or(field_value(lines, "category:"@), "custom"@) == category
            &&& value_or(field_value(lines, "description:"@), Seq::empty()) == description
        }),
{
    reveal_strlit("---");
    reveal_strlit("---\nname: ");
    reveal_strlit("name:");
    reveal_strlit("\ncategory: ");
    reveal_strlit("category:");
    reveal_strlit("\ndescription: ");
    reveal_strlit("description:");
    reveal_strlit("\n---\n\n# ");
    reveal_strlit("\n---");
    reveal_strlit(" ");
    let content = skill_markdown_spec(id, name, category, description, body);
    let l1 = "name:"@ + " "@ + name;
    let l2 = "category:"@ + " "@ + category;
    let l3 = "description:"@ + " "@ + description;
    let front = seq!['\n'] + l1 + seq!['\n'] + l2 + seq!['\n'] + l3;
    let tail = "\n---\n\n# "@ + (name + " ("@ + id + ")\n\n"@ + description + "\n\n"@ + body);
    assert("---\nname: "@ =~= "---"@ + seq!['\n'] + "name:"@ + " "@);
    assert("\ncategory: "@ =~= seq!['\n'] + "category:"@ + " "@);
    assert("\ndescription: "@ =~= seq!['\n'] + "description:"@ + " "@);
    assert(content =~= "---"@ + (front + tail));
    assert(content.take(3) =~= "---"@);
    assert(content.skip(3) =~= front + tail);
    assert(tail.take(4) =~= "\n---"@);
    lemma_line_one("name:"@, name);
    lemma_line_one("category:"@, category);
    lemma_line_one("description:"@, description);
    lemma_three_lines(l1, l2, l3);
    lemma_find_close(front, tail);
    assert((front + tail).take(front.len() as int) =~= front);
    lemma_three_fields(name, category, description);
}

/// The prompt segment for the current skill context; none when it is
/// empty.
pub fn skill_prompt_segment(context: &str) -> (r: Option<String>)
    ensures
        context@.len() == 0 ==> r is None,
        context@.len() > 0 ==> (r matches Some(t) && t@ == "[技能状态]\n"@ + context@),
{
    if context.unicode_len() == 0 {
        None
    } else {
        Some(concat2("[技能状态]\n", context))
    }
}

} // verus!
