use agnt::bash::{BashInput, BashOutput, BashTool};
use agnt::event::{DisplayBody, ToolOutput};
use agnt::skill::{
    build_tool_description, first_body_line, select_skill, skill_document, skill_metadata,
    sort_skills, split_frontmatter, unknown_skill_message, SkillEntry, SkillFrontmatter, SkillInput,
    SkillTool,
};
use agnt::write::{count_lines, write_output, WriteInput, WriteOutput, WriteTool};

fn out(stdout: &str, stderr: &str, code: Option<i32>) -> BashOutput {
    BashOutput { stdout: stdout.to_string(), stderr: stderr.to_string(), exit_code: code }
}

#[test]
fn bash_output_for_the_model() {
    assert_eq!(out("hi\n", "", Some(0)).to_llm(), "hi\n");
    assert_eq!(out("a", "b", Some(0)).to_llm(), "a\nstderr:\nb");
    assert_eq!(out("", "b", Some(2)).to_llm(), "stderr:\nb\n[exit code: 2]");
    assert_eq!(out("", "", Some(-1)).to_llm(), "\n[exit code: -1]");
    assert_eq!(out("", "", Some(0)).to_llm(), "(no output)");
    assert_eq!(out("", "", None).to_llm(), "(no output)");
}

#[test]
fn bash_display() {
    let tool = BashTool { cwd: ".".to_string() };
    assert_eq!(tool.name(), "bash");
    let input = BashInput { command: "ls -l".to_string() };
    assert_eq!(tool.render_input(&input).title, "Run `ls -l`");
    let d = tool.render_output(&input, &out("x", "y", Some(1)));
    assert_eq!(d.title, "exit code 1");
    match d.body {
        Some(DisplayBody::Code { language: None, content }) => assert_eq!(content, "x\nstderr:\ny"),
        _ => panic!("expected code body"),
    }
    let d = tool.render_output(&input, &out("", "", None));
    assert_eq!(d.title, "killed by signal");
    assert!(d.body.is_none());
}

#[test]
fn write_reports_bytes_and_lines() {
    let input = WriteInput { path: "a/b.txt".to_string(), content: "héllo\nworld\n".to_string() };
    let o = write_output(input.clone());
    assert_eq!(o.bytes, 13);
    assert_eq!(o.to_llm(), "wrote 13 bytes to a/b.txt");
    let tool = WriteTool { cwd: ".".to_string() };
    assert_eq!(tool.render_input(&input).title, "Write a/b.txt (2 lines)");
    assert_eq!(tool.render_output(&input, &WriteOutput { path: "p".to_string(), bytes: 3 }).title, "Wrote 3 bytes to p");
    for (text, n) in [("", 0), ("a", 1), ("a\n", 1), ("\n", 1), ("a\nb", 2), ("a\r\nb\r\n", 2), ("\n\n", 2)] {
        assert_eq!(count_lines(text), n, "{text:?}");
        assert_eq!(count_lines(text), text.lines().count());
    }
}

#[test]
fn frontmatter_split_and_body_line() {
    assert_eq!(
        split_frontmatter("---\nname: x\n---\nbody\n"),
        Some(("name: x\n".to_string(), "body\n".to_string()))
    );
    assert_eq!(
        split_frontmatter("---\r\nname: y\r\n  ---  \r\nrest"),
        Some(("name: y\r\n".to_string(), "rest".to_string()))
    );
    assert_eq!(split_frontmatter("no front matter"), None);
    assert_eq!(split_frontmatter("---\nunterminated\n"), None);
    assert_eq!(first_body_line("\n# Title\n\n  First line.  \nSecond"), Some("First line.".to_string()));
    assert_eq!(first_body_line("# only heading\n\n"), None);
}

#[test]
fn skill_metadata_prefers_frontmatter() {
    let fm = SkillFrontmatter { name: Some("  Deploy ".to_string()), description: Some(" ".to_string()) };
    let (name, desc) = skill_metadata(Some(fm), "# H\nShips it.\n", "dir");
    assert_eq!((name.as_str(), desc.as_str()), ("Deploy", "Ships it."));
    let (name, desc) = skill_metadata(None, "", "dir");
    assert_eq!((name.as_str(), desc.as_str()), ("dir", "No description provided."));
}

fn entry(name: &str) -> SkillEntry {
    SkillEntry { name: name.to_string(), description: format!("about {name}"), path: format!("/s/{name}/SKILL.md") }
}

#[test]
fn skills_sorted_and_selected() {
    let sorted = sort_skills(vec![entry("beta"), entry("Alpha"), entry("gamma")]);
    let names: Vec<&str> = sorted.iter().map(|s| s.name.as_str()).collect();
    assert_eq!(names, vec!["Alpha", "beta", "gamma"]);
    assert_eq!(select_skill(&sorted, "beta"), Some(1));
    assert_eq!(select_skill(&sorted, "ALPHA"), Some(0));
    assert_eq!(select_skill(&sorted, "delta"), None);
    assert_eq!(
        unknown_skill_message(&sorted, "delta"),
        "unknown skill `delta`. Available skills: Alpha, beta, gamma"
    );
    assert_eq!(unknown_skill_message(&vec![], "x"), "unknown skill `x`. Available skills: (none)");
    assert_eq!(skill_document(&sorted[1], "text"), "# beta\n\ntext\n\n---\nSource: /s/beta/SKILL.md");
}

#[test]
fn skill_tool_description_and_choice() {
    let d = build_tool_description(".agents/skills", &Ok(vec![]));
    assert_eq!(d, "Load a local skill by name from .agents/skills. No skills found in .agents/skills.");
    let d = build_tool_description("d", &Ok(vec![entry("a")]));
    assert_eq!(d, "Load a local skill by name from .agents/skills. Available skills:\n- a: about a\n");
    let d = build_tool_description("d", &Err("boom".to_string()));
    assert_eq!(d, "Load a local skill by name from .agents/skills. Failed to index skills in d: boom");
    let tool = SkillTool::new("d".to_string(), Ok(vec![entry("a")]));
    assert_eq!(tool.name(), "skill");
    let skills = vec![entry("a")];
    assert_eq!(tool.pick_skill(&skills, &SkillInput { name: "  a ".to_string() }), Ok(0));
    assert_eq!(
        tool.pick_skill(&skills, &SkillInput { name: "   ".to_string() }),
        Err("skill name cannot be empty".to_string())
    );
    assert_eq!(tool.render_input(&SkillInput { name: " a ".to_string() }).title, "Load skill a");
}
