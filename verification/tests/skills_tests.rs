use tremolite::skills::{parse_skill_file, skill_id, skill_markdown, skill_prompt_segment, SkillSource};

fn described(s: SkillSource) -> (String, String, String, String) {
    match s {
        SkillSource::Described { id, name, category, description } => (id, name, category, description),
        other => panic!("{other:?}"),
    }
}

#[test]
fn frontmatter_fields() {
    let f = "---\nname: 理解文本\ncategory: core\ndescription: 能理解用户输入的文字内容\n---\n详细描述……";
    assert_eq!(
        described(parse_skill_file(f, "understand")),
        ("file.理解文本".into(), "理解文本".into(), "core".into(), "能理解用户输入的文字内容".into())
    );
}

#[test]
fn fallbacks_and_last_value_wins() {
    let f = "---\n  name:   \ndescription: a\r\ndescription:  b  \n";
    assert_eq!(
        described(parse_skill_file(f, "stemmy")),
        ("file.stemmy".into(), "stemmy".into(), "custom".into(), "b".into())
    );
    let no_close = "---name: x\ncategory: tools";
    assert_eq!(
        described(parse_skill_file(no_close, "s")),
        ("file.x".into(), "x".into(), "tools".into(), "".into())
    );
    match parse_skill_file("# just notes", "notes") {
        SkillSource::Plain { id } => assert_eq!(id, "file.notes"),
        other => panic!("{other:?}"),
    }
}

#[test]
fn written_skill_reads_back() {
    let md = skill_markdown("cook", "做饭", "life", "会做家常菜", "步骤……\n---\n更多");
    assert!(md.starts_with("---\nname: 做饭\ncategory: life\ndescription: 会做家常菜\n---\n\n# 做饭 (cook)\n\n会做家常菜\n\n"));
    assert_eq!(
        described(parse_skill_file(&md, "cook")),
        ("file.做饭".into(), "做饭".into(), "life".into(), "会做家常菜".into())
    );
    assert_eq!(skill_id("cook"), "file.cook");
}

#[test]
fn prompt_segment_text() {
    assert_eq!(skill_prompt_segment(""), None);
    assert_eq!(skill_prompt_segment("葵已精通的技能：\nx").as_deref(), Some("[技能状态]\n葵已精通的技能：\nx"));
}

#[test]
fn skill_file_round_trip() {
    let md = skill_markdown("understand", "理解文本", "core", "能理解用户输入的文字内容", "用法……");
    match parse_skill_file(&md, "understand") {
        SkillSource::Described { id, name, category, description } => {
            assert_eq!(id, "file.理解文本");
            assert_eq!(name, "理解文本");
            assert_eq!(category, "core");
            assert_eq!(description, "能理解用户输入的文字内容");
        }
        other => panic!("unexpected {:?}", other),
    }
    match parse_skill_file(&skill_markdown("x", "n", "c", "", "b"), "stem") {
        SkillSource::Described { description, .. } => assert_eq!(description, ""),
        other => panic!("unexpected {:?}", other),
    }
}
