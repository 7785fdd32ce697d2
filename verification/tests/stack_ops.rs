use dftodo::config::Config;
use dftodo::config::DFTodoError;
use dftodo::config::DFTodoItem;
use dftodo::file::collect_all_but_last;
use dftodo::file::get_active_stack_file;
use dftodo::file::get_config_file;
use dftodo::file::get_stack_directory;
use dftodo::file::get_top_item;
use dftodo::file::pop_contents;
use dftodo::file::remove_top_item;
use dftodo::file::write_top_item;
use dftodo::file::MemoryFile;
use dftodo::file::TopItem;
use dftodo::lines::split_lines;

fn stack(data: &str) -> MemoryFile {
    MemoryFile {
        path: "path/stack.txt".to_string(),
        data: data.to_string(),
        append: true,
        read_index: 0,
    }
}

fn item(text: &str) -> DFTodoItem {
    DFTodoItem { item: text.to_string() }
}

fn top_of(file: &MemoryFile) -> TopItem {
    get_top_item(stack(&file.data)).unwrap()
}

#[test]
fn top_returns_most_recently_pushed_item() {
    let mut file = stack("");
    write_top_item(&mut file, item("first")).unwrap();
    assert_eq!(top_of(&file), TopItem::Item("first".to_string()));
    write_top_item(&mut file, item("second")).unwrap();
    assert_eq!(top_of(&file), TopItem::Item("second".to_string()));
    write_top_item(&mut file, item("third")).unwrap();
    assert_eq!(top_of(&file), TopItem::Item("third".to_string()));
}

#[test]
fn top_does_not_consume_the_item() {
    let mut file = stack("");
    write_top_item(&mut file, item("only")).unwrap();
    assert_eq!(top_of(&file), TopItem::Item("only".to_string()));
    assert_eq!(top_of(&file), TopItem::Item("only".to_string()));
    assert_eq!(file.data, "only\n");
}

#[test]
fn push_then_pop_restores_the_stack() {
    let mut file = stack("");
    write_top_item(&mut file, item("keep me")).unwrap();
    let before = file.data.clone();
    write_top_item(&mut file, item("drop me")).unwrap();
    let after_pop = pop_contents(&file.data);
    assert_eq!(after_pop, before);
}

#[test]
fn repeated_pop_reaches_empty_and_stays_empty() {
    let mut file = stack("");
    write_top_item(&mut file, item("a")).unwrap();
    write_top_item(&mut file, item("b")).unwrap();
    let once = pop_contents(&file.data);
    assert_eq!(once, "a\n");
    let twice = pop_contents(&once);
    assert_eq!(twice, "");
    let thrice = pop_contents(&twice);
    assert_eq!(thrice, "");
}

#[test]
fn top_of_empty_stack_is_the_empty_signal() {
    let result = get_top_item(stack(""));
    assert_eq!(result, Ok(TopItem::Empty));
}

#[test]
fn push_pop_scenario() {
    let mut file = stack("");
    write_top_item(&mut file, item("buy milk")).unwrap();
    write_top_item(&mut file, item("walk dog")).unwrap();
    assert_eq!(top_of(&file), TopItem::Item("walk dog".to_string()));

    let data = pop_contents(&file.data);
    assert_eq!(top_of(&stack(&data)), TopItem::Item("buy milk".to_string()));

    let data = pop_contents(&data);
    assert_eq!(top_of(&stack(&data)), TopItem::Empty);

    let data = pop_contents(&data);
    assert_eq!(top_of(&stack(&data)), TopItem::Empty);
}

#[test]
fn first_run_creates_config_and_empty_stack() {
    let config_file: MemoryFile =
        get_config_file("dir/conf.json", "path/stack.txt", false).unwrap();
    assert_eq!(config_file.path, "dir/conf.json");
    assert_eq!(config_file.data, "{\"data_path\":\"path/stack.txt\"}");

    let stack_file: MemoryFile =
        get_active_stack_file(true, "dir/conf.json", "path/stack.txt", false).unwrap();
    assert_eq!(stack_file.path, "path/stack.txt");
    assert_eq!(stack_file.data, "");
}

#[test]
fn pushed_item_is_one_line_closed_by_one_newline() {
    let mut file = stack("");
    write_top_item(&mut file, item("finish report")).unwrap();
    assert_eq!(file.data, "finish report\n");
}

#[test]
fn split_lines_drops_the_line_terminators() {
    let lines = split_lines("a\nb\n");
    assert_eq!(lines, vec!["a".to_string(), "b".to_string()]);
}

#[test]
fn split_lines_accepts_a_missing_final_newline() {
    let lines = split_lines("a\nb");
    assert_eq!(lines, vec!["a".to_string(), "b".to_string()]);
}

#[test]
fn split_lines_of_empty_text_is_empty() {
    let lines = split_lines("");
    assert_eq!(lines, Vec::<String>::new());
}

#[test]
fn split_lines_keeps_empty_lines() {
    let lines = split_lines("\n\n");
    assert_eq!(lines, vec!["".to_string(), "".to_string()]);
}

#[test]
fn collect_all_but_last_keeps_order() {
    let lines = vec!["a".to_string(), "b".to_string(), "c".to_string()];
    assert_eq!(collect_all_but_last(&lines), "a\nb\n");
}

#[test]
fn collect_all_but_last_of_one_line_is_empty() {
    let lines = vec!["a".to_string()];
    assert_eq!(collect_all_but_last(&lines), "");
}

#[test]
fn collect_all_but_last_of_nothing_is_empty() {
    let lines: Vec<String> = Vec::new();
    assert_eq!(collect_all_but_last(&lines), "");
}

#[test]
fn pop_contents_drops_the_last_line() {
    assert_eq!(pop_contents("a\nb\n"), "a\n");
    assert_eq!(pop_contents("single\n"), "");
    assert_eq!(pop_contents(""), "");
}

#[test]
fn remove_top_item_on_a_fresh_file_leaves_it_empty() {
    let file: MemoryFile = remove_top_item("path/stack.txt").unwrap();
    assert_eq!(file.path, "path/stack.txt");
    assert_eq!(file.append, false);
    assert_eq!(file.data, "");
}

#[test]
fn config_json_round_trip() {
    let config = Config { data_path: "some/dir/stack.txt".to_string() };
    let json = config.to_json();
    assert_eq!(json, "{\"data_path\":\"some/dir/stack.txt\"}");
    let back = Config::from_json(&json).unwrap();
    assert_eq!(back.data_path, "some/dir/stack.txt");
}

#[test]
fn config_from_json_rejects_other_text() {
    assert!(Config::from_json("not json at all").is_none());
    assert!(Config::from_json("{\"other_field\":\"x\"}").is_none());
    assert!(Config::from_json("{\"data_path\":7}").is_none());
}

#[test]
fn unparsable_config_is_a_config_error() {
    let config_file = MemoryFile {
        path: "dir/conf.json".to_string(),
        data: "not a config record".to_string(),
        append: true,
        read_index: 0,
    };
    let result = get_stack_directory(config_file);
    assert_eq!(result, Err(DFTodoError::ConfigError));
}

#[test]
fn error_messages_name_the_failing_stage() {
    assert_eq!(DFTodoError::ConfigError.message(), "Failed to open configuration file");
    assert_eq!(DFTodoError::FileAccessError.message(), "Error opening file");
    assert_eq!(DFTodoError::ReadError.message(), "Failed to read stack file");
    assert_eq!(DFTodoError::WriteError.message(), "Error writing to file");
    assert_eq!(DFTodoError::PopError.message(), "Failed to write to file");
}
