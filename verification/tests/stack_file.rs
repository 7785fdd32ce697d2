use dftodo::config::DFTodoError;
use dftodo::config::DFTodoItem;
use dftodo::file::get_active_stack_file;
use dftodo::file::get_active_stack_file_path;
use dftodo::file::get_config_file;
use dftodo::file::write_top_item;
use dftodo::file::MemoryFile;

#[test]
fn creates_correct_stack_file_path() -> Result<(), DFTodoError> {
    let path_buf =
        get_active_stack_file_path::<MemoryFile>("dir/conf.json", "path/stack.txt", false)?;
    assert_eq!(path_buf, "path/stack.txt".to_string());

    Ok(())
}

#[test]
fn creates_correct_stack_file() -> Result<(), DFTodoError> {
    let stack_file: MemoryFile =
        get_active_stack_file(true, "dir/conf.json", "path/stack.txt", false)?;
    assert_eq!(stack_file.path, String::from("path/stack.txt"));
    assert_eq!(stack_file.append, true);
    assert_eq!(stack_file.data, "");

    Ok(())
}

#[test]
fn creates_correct_config_file() -> Result<(), DFTodoError> {
    let mock_file: MemoryFile = get_config_file("dir/conf.json", "path/stack.txt", false)?;
    assert_eq!(mock_file.path, String::from("dir/conf.json"));
    assert_eq!(mock_file.append, true);
    assert_eq!(mock_file.data, "{\"data_path\":\"path/stack.txt\"}");

    Ok(())
}

#[test]
fn does_write_top_item_to_empty() -> Result<(), DFTodoError> {
    let item_text = "This is the new item";
    let mut mock_file =
        MemoryFile { path: "path".to_string(), data: "".to_string(), append: true, read_index: 0 };
    let item = DFTodoItem { item: item_text.to_string() };

    write_top_item(&mut mock_file, item)?;

    assert_eq!(mock_file.path, "path".to_string());
    assert_eq!(mock_file.data, (item_text.to_string() + "\n"));
    assert_eq!(mock_file.append, true);
    assert_eq!(mock_file.read_index, 0);

    Ok(())
}

#[test]
fn existing_config_file_is_not_rewritten() -> Result<(), DFTodoError> {
    let config_file: MemoryFile = get_config_file("dir/conf.json", "path/stack.txt", true)?;
    assert_eq!(config_file.data, "");

    Ok(())
}
