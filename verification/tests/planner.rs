use dbfc::planner::plan_command;
use dbfc::planner::tokenize;
use dbfc::planner::PlanError;
use dbfc::text::char_is_whitespace;
use dbfc::text::chars_of;
use dbfc::text::same_text;

fn strings(texts: &[&str]) -> Vec<String> {
    texts.iter().map(|text| String::from(*text)).collect()
}

#[test]
fn template_substitution() {
    assert_eq!(
        plan_command("tool -i $file_path -o $file_path_out", "/a/in.avi", "/b/out.mp4"),
        Ok(strings(&["tool", "-i", "/a/in.avi", "-o", "/b/out.mp4"]))
    );
}

#[test]
fn plan_keeps_fixed_flags() {
    assert_eq!(
        plan_command(
            "ffmpeg -i $file_path -c:v libx264 -preset slow $file_path_out",
            "/src/a.avi",
            "/dst/a.avi"
        ),
        Ok(strings(&[
            "ffmpeg", "-i", "/src/a.avi", "-c:v", "libx264", "-preset", "slow", "/dst/a.avi"
        ]))
    );
}

#[test]
fn plan_substitutes_whole_tokens_only() {
    assert_eq!(
        plan_command("tool --in=$file_path $file_path_outer $file_pat", "/a", "/b"),
        Ok(strings(&["tool", "--in=$file_path", "$file_path_outer", "$file_pat"]))
    );
}

#[test]
fn plan_substitutes_every_occurrence() {
    assert_eq!(
        plan_command("cp $file_path $file_path $file_path_out $file_path_out", "s", "d"),
        Ok(strings(&["cp", "s", "s", "d", "d"]))
    );
}

#[test]
fn plan_does_not_split_the_paths() {
    assert_eq!(
        plan_command("tool $file_path $file_path_out", "/a/my file.avi", "/b/my file.avi"),
        Ok(strings(&["tool", "/a/my file.avi", "/b/my file.avi"]))
    );
}

#[test]
fn plan_of_an_empty_template_fails() {
    assert_eq!(plan_command("", "/a", "/b"), Err(PlanError::NoTokens));
    assert_eq!(plan_command("  \t\n ", "/a", "/b"), Err(PlanError::NoTokens));
}

#[test]
fn plan_with_an_unresolved_program_fails() {
    assert_eq!(
        plan_command("$tool -i $file_path", "/a", "/b"),
        Err(PlanError::UnresolvedProgram)
    );
    assert_eq!(plan_command("$", "/a", "/b"), Err(PlanError::UnresolvedProgram));
    assert_eq!(
        plan_command("$file_path_in $file_path", "/a", "/b"),
        Err(PlanError::UnresolvedProgram)
    );
}

#[test]
fn plan_with_a_placeholder_as_program_runs_the_file() {
    assert_eq!(plan_command("$file_path --check", "/a/run.sh", "/b"), Ok(strings(&["/a/run.sh", "--check"])));
    assert_eq!(plan_command("$file_path_out", "/a", "/b/out"), Ok(strings(&["/b/out"])));
}

#[test]
fn plan_accepts_a_dollar_inside_the_program() {
    assert_eq!(plan_command("to$ol x", "/a", "/b"), Ok(strings(&["to$ol", "x"])));
}

#[test]
fn tokenize_splits_at_runs_of_white_space() {
    assert_eq!(tokenize("a b"), strings(&["a", "b"]));
    assert_eq!(tokenize("  a \t b\n\nc  "), strings(&["a", "b", "c"]));
    assert_eq!(tokenize("abc"), strings(&["abc"]));
    assert_eq!(tokenize(""), strings(&[]));
    assert_eq!(tokenize("   "), strings(&[]));
}

#[test]
fn tokenize_knows_white_space_beyond_ascii() {
    assert_eq!(tokenize("a\u{a0}b\u{3000}c\u{2003}d"), strings(&["a", "b", "c", "d"]));
    assert_eq!(tokenize("é\u{2028}ü"), strings(&["é", "ü"]));
    assert_eq!(tokenize("a\u{200b}b"), strings(&["a\u{200b}b"]));
}

#[test]
fn tokenize_agrees_with_std() {
    let samples = [
        "tool -i $file_path -o $file_path_out",
        "  leading and trailing  ",
        "tabs\tand\nnewlines\r\nmixed \u{85} nel",
        "ünï cödé \u{1680} ogham",
        "",
        " ",
        "x",
    ];
    for sample in samples {
        let expected: Vec<String> = sample.split_whitespace().map(String::from).collect();
        assert_eq!(tokenize(sample), expected, "{sample:?}");
    }
}

#[test]
fn white_space_is_what_std_takes_for_it() {
    for code in 0..=0x10ffffu32 {
        if let Some(c) = char::from_u32(code) {
            assert_eq!(char_is_whitespace(c), c.is_whitespace(), "U+{code:04X}");
        }
    }
}

#[test]
fn chars_of_lists_the_characters() {
    assert_eq!(chars_of("aé\u{1f600}"), vec!['a', 'é', '\u{1f600}']);
    assert_eq!(chars_of(""), Vec::<char>::new());
}

#[test]
fn same_text_compares_every_character() {
    assert!(same_text("avi", "avi"));
    assert!(same_text("", ""));
    assert!(!same_text("avi", "AVI"));
    assert!(!same_text("avi", "av"));
    assert!(!same_text("avi", "avid"));
    assert!(!same_text("avi", "avj"));
}
