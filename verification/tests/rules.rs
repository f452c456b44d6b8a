use dbfc::rules::RuleTable;

#[test]
fn new_table_is_empty() {
    let table = RuleTable::new();
    assert_eq!(table.len(), 0);
    assert_eq!(table.lookup("avi"), None);
    assert_eq!(table.lookup(""), None);
}

#[test]
fn lookup_finds_what_was_inserted() {
    let mut table = RuleTable::new();
    table.insert("avi", "ffmpeg -i $file_path $file_path_out");
    table.insert("txt", "cp $file_path $file_path_out");
    assert_eq!(table.len(), 2);
    assert_eq!(
        table.lookup("avi"),
        Some(String::from("ffmpeg -i $file_path $file_path_out"))
    );
    assert_eq!(table.lookup("txt"), Some(String::from("cp $file_path $file_path_out")));
    assert_eq!(table.lookup("mp4"), None);
}

#[test]
fn lookup_is_exact() {
    let mut table = RuleTable::new();
    table.insert("avi", "tool");
    assert_eq!(table.lookup("AVI"), None);
    assert_eq!(table.lookup("Avi"), None);
    assert_eq!(table.lookup(".avi"), None);
    assert_eq!(table.lookup("av"), None);
    assert_eq!(table.lookup("avi "), None);
}

#[test]
fn insert_replaces_the_rule_of_an_extension() {
    let mut table = RuleTable::new();
    table.insert("avi", "first");
    table.insert("txt", "other");
    table.insert("avi", "second");
    assert_eq!(table.len(), 2);
    assert_eq!(table.lookup("avi"), Some(String::from("second")));
    assert_eq!(table.lookup("txt"), Some(String::from("other")));
}

#[test]
fn rules_lists_each_extension_once() {
    let mut table = RuleTable::new();
    table.insert("avi", "first");
    table.insert("txt", "other");
    table.insert("avi", "second");
    let mut listed: Vec<(String, String)> = table
        .rules()
        .iter()
        .map(|rule| (rule.extension.clone(), rule.template.clone()))
        .collect();
    listed.sort();
    assert_eq!(
        listed,
        vec![
            (String::from("avi"), String::from("second")),
            (String::from("txt"), String::from("other")),
        ]
    );
}
