//! The stack-file layer: a capability interface over file-like handles,
//! an in-memory handle, and the operations of the todo stack.
//!
//! A handle is modelled by the path it was opened at, its open mode, the
//! full content of its backing file, and the part of that content not yet
//! read. The operations (resolve the data path, open the stack file, read
//! the top item, append an item, drop the last line) are verified against
//! that model.

use vstd::prelude::*;

use crate::config::Config;
use crate::config::DFTodoError;
use crate::config::DFTodoItem;
use crate::json::config_data_path_of;
use crate::json::config_json_of;
use crate::lines::encode_items;
use crate::lines::newline;
use crate::lines::spec_lines;
use crate::lines::spec_pop;
use crate::lines::spec_retained;
use crate::lines::split_lines;

verus! {

/// A handle that can be opened at a path, in append or truncate mode.
///
/// The spec functions model the handle; the defaults describe a handle
/// with no observable state, so that an implementation outside verified
/// code (a real file, a test double) need not restate them.
pub trait DFTodoCreate: Sized {
    /// The path this handle was opened at.
    open spec fn spec_path(&self) -> Seq<char> {
        Seq::empty()
    }

    /// Whether this handle was opened in append mode.
    open spec fn spec_append(&self) -> bool {
        false
    }

    /// The full content of the handle's backing file.
    open spec fn contents(&self) -> Seq<char> {
        Seq::empty()
    }

    /// The part of the content not yet read through this handle.
    open spec fn unread(&self) -> Seq<char> {
        Seq::empty()
    }

    /// The handle's internal well-formedness.
    open spec fn inv(&self) -> bool {
        true
    }

    /// The content that an append-mode open at `path` finds already stored.
    open spec fn existing(path: Seq<char>) -> Seq<char> {
        Seq::empty()
    }

    /// Opens a handle at `path`, creating the backing file (and its parent
    /// directories) if missing. Append mode keeps the stored content;
    /// truncate mode discards it.
    fn create(path: &str, append: bool) -> (r: Result<Self, DFTodoError>)
        ensures
            r matches Ok(f) ==> f.inv() && f.spec_path() == path@ && f.spec_append() == append
                && f.contents() == (if append {
                Self::existing(path@)
            } else {
                Seq::<char>::empty()
            }) && f.unread() == f.contents(),
    ;
}

/// A stack-file handle: it can be created, read once through, and written.
pub trait DFTodoStackFile: DFTodoCreate {
    /// Reads the not-yet-read part of the content; the read cursor moves
    /// to the end.
    fn read_rest(&mut self) -> (r: Result<String, DFTodoError>)
        requires
            old(self).inv(),
        ensures
            final (self).inv(),
            final (self).spec_path() == old(self).spec_path(),
            final (self).spec_append() == old(self).spec_append(),
            r matches Ok(s) ==> s@ == old(self).unread() && final (self).contents() == old(
                self,
            ).contents() && final (self).unread() == Seq::<char>::empty(),
    ;

    /// Writes text through the handle: after the stored content in append
    /// mode, in place of it in truncate mode.
    fn write_str(&mut self, s: &str) -> (r: Result<(), DFTodoError>)
        requires
            old(self).inv(),
        ensures
            final (self).inv(),
            final (self).spec_path() == old(self).spec_path(),
            final (self).spec_append() == old(self).spec_append(),
            r matches Ok(u) ==> final (self).contents() == (if old(self).spec_append() {
                old(self).contents() + s@
            } else {
                s@
            }) && final (self).unread() == (if old(self).spec_append() {
                old(self).unread() + s@
            } else {
                s@
            }),
    ;
}

/// An in-memory stack-file handle: the whole file lives in `data`. A
/// freshly opened memory file is always empty, whatever its path.
pub struct MemoryFile {
    pub path: String,
    pub data: String,
    pub append: bool,
    pub read_index: usize,
}

impl DFTodoCreate for MemoryFile {
    open spec fn spec_path(&self) -> Seq<char> {
        self.path@
    }

    open spec fn spec_append(&self) -> bool {
        self.append
    }

    open spec fn contents(&self) -> Seq<char> {
        self.data@
    }

    open spec fn unread(&self) -> Seq<char> {
        self.data@.skip(self.read_index as int)
    }

    open spec fn inv(&self) -> bool {
        self.read_index <= self.data@.len()
    }

    open spec fn existing(path: Seq<char>) -> Seq<char> {
        Seq::empty()
    }

    fn create(path: &str, append: bool) -> (r: Result<Self, DFTodoError>)
        ensures
            r is Ok,
    {
        let f = MemoryFile { path: String::from_str(path), data: String::new(), append, read_index: 0 };
        proof {
            assert(f.unread() =~= f.contents());
        }
        Ok(f)
    }
}

impl DFTodoStackFile for MemoryFile {
    fn read_rest(&mut self) -> (r: Result<String, DFTodoError>)
        ensures
            r is Ok,
    {
        let len = self.data.as_str().unicode_len();
        let rest = String::from_str(self.data.as_str().substring_char(self.read_index, len));
        self.read_index = len;
        proof {
            assert(rest@ =~= old(self).unread());
            assert(self.unread() =~= Seq::<char>::empty());
        }
        Ok(rest)
    }

    fn write_str(&mut self, s: &str) -> (r: Result<(), DFTodoError>)
        ensures
            r is Ok,
    {
        if self.append {
            let ghost d = self.data@;
            let ghost ri = self.read_index as int;
            self.data.append(s);
            proof {
                assert(self.data@.skip(ri) =~= d.skip(ri) + s@);
            }
        } else {
            self.data = String::from_str(s);
            self.read_index = 0;
            proof {
                assert(self.data@.skip(0) =~= s@);
            }
        }
        Ok(())
    }
}

/// The result of reading the top of the stack: the top item, or the
/// explicit signal that the stack holds no item.
#[derive(Debug, PartialEq, Eq)]
pub enum TopItem {
    Item(String),
    Empty,
}

/// The config-file content once resolution is done: what an append-mode
/// open at `config_path` finds stored, followed by the default record
/// where the config file was absent.
pub open spec fn resolved_config_text<F: DFTodoCreate>(
    config_path: Seq<char>,
    default_data_path: Seq<char>,
    config_exists: bool,
) -> Seq<char> {
    if config_exists {
        F::existing(config_path)
    } else {
        F::existing(config_path) + config_json_of(default_data_path)
    }
}

/// Opens the configuration file, writing a default record naming
/// `default_data_path` where the file was absent (`config_exists` says
/// whether it was there before the call).
pub fn get_config_file<F: DFTodoStackFile>(
    config_file_path: &str,
    default_data_path: &str,
    config_exists: bool,
) -> (r: Result<F, DFTodoError>)
    ensures
        r matches Ok(f) ==> f.inv() && f.spec_path() == config_file_path@ && f.spec_append()
            && f.contents() == resolved_config_text::<F>(
            config_file_path@,
            default_data_path@,
            config_exists,
        ) && f.unread() == f.contents(),
        r matches Err(e) ==> e == DFTodoError::ConfigError,
        (!config_exists && F::existing(config_file_path@) == Seq::<char>::empty()) ==> (r matches Ok(
            f,
        ) ==> config_data_path_of(f.contents()) == Some(default_data_path@)),
{
    let mut file: F = match F::create(config_file_path, true) {
        Ok(f) => f,
        Err(_) => {
            return Err(DFTodoError::ConfigError);
        },
    };
    if !config_exists {
        let config = Config { data_path: String::from_str(default_data_path) };
        let json = config.to_json();
        match file.write_str(json.as_str()) {
            Ok(u) => {},
            Err(_) => {
                return Err(DFTodoError::ConfigError);
            },
        }
        proof {
            if F::existing(config_file_path@) == Seq::<char>::empty() {
                assert(F::existing(config_file_path@) + config_json_of(default_data_path@)
                    =~= config_json_of(default_data_path@));
            }
        }
    }
    Ok(file)
}

/// Reads the configuration record from an open config-file handle and
/// returns the data path it names: where the stack file lives.
pub fn get_stack_directory<F: DFTodoStackFile>(config_file: F) -> (r: Result<
    String,
    DFTodoError,
>)
    requires
        config_file.inv(),
    ensures
        r matches Ok(p) ==> config_data_path_of(config_file.unread()) == Some(p@),
        r matches Err(e) ==> e == DFTodoError::ConfigError,
        config_data_path_of(config_file.unread()) is None ==> r is Err,
{
    let mut file = config_file;
    let content = match file.read_rest() {
        Ok(c) => c,
        Err(_) => {
            return Err(DFTodoError::ConfigError);
        },
    };
    match Config::from_json(content.as_str()) {
        Some(config) => Ok(config.data_path),
        None => Err(DFTodoError::ConfigError),
    }
}

/// Opens the stack file at `file_path` in the given mode, creating it
/// (with its parent directories) if missing.
pub fn get_stack_file<F: DFTodoStackFile>(file_path: &str, append: bool) -> (r: Result<
    F,
    DFTodoError,
>)
    ensures
        r matches Ok(f) ==> f.inv() && f.spec_path() == file_path@ && f.spec_append() == append
            && f.contents() == (if append {
            F::existing(file_path@)
        } else {
            Seq::<char>::empty()
        }) && f.unread() == f.contents(),
        r matches Err(e) ==> e == DFTodoError::FileAccessError,
{
    match F::create(file_path, append) {
        Ok(f) => Ok(f),
        Err(_) => Err(DFTodoError::FileAccessError),
    }
}

/// Resolves the path of the active stack file: ensures a configuration
/// record exists (writing one naming `default_data_path` where the config
/// file was absent) and returns the data path the record names.
pub fn get_active_stack_file_path<F: DFTodoStackFile>(
    config_file_path: &str,
    default_data_path: &str,
    config_exists: bool,
) -> (r: Result<String, DFTodoError>)
    ensures
        r matches Ok(p) ==> config_data_path_of(
            resolved_config_text::<F>(config_file_path@, default_data_path@, config_exists),
        ) == Some(p@),
        r matches Err(e) ==> e == DFTodoError::ConfigError,
        (!config_exists && F::existing(config_file_path@) == Seq::<char>::empty()) ==> (r matches Ok(
            p,
        ) ==> p@ == default_data_path@),
{
    let config_file: F = match get_config_file(config_file_path, default_data_path, config_exists) {
        Ok(f) => f,
        Err(e) => {
            return Err(e);
        },
    };
    get_stack_directory(config_file)
}

/// Opens the active stack file in the given mode, resolving its path
/// through the configuration record first.
pub fn get_active_stack_file<F: DFTodoStackFile>(
    append: bool,
    config_file_path: &str,
    default_data_path: &str,
    config_exists: bool,
) -> (r: Result<F, DFTodoError>)
    ensures
        r matches Ok(f) ==> f.inv() && f.spec_append() == append && f.unread() == f.contents()
            && config_data_path_of(
            resolved_config_text::<F>(config_file_path@, default_data_path@, config_exists),
        ) == Some(f.spec_path()) && f.contents() == (if append {
            F::existing(f.spec_path())
        } else {
            Seq::<char>::empty()
        }),
        r matches Err(e) ==> e == DFTodoError::ConfigError || e == DFTodoError::FileAccessError,
        (!config_exists && F::existing(config_file_path@) == Seq::<char>::empty()) ==> (r matches Ok(
            f,
        ) ==> f.spec_path() == default_data_path@),
{
    let stack_file_directory = match get_active_stack_file_path::<F>(
        config_file_path,
        default_data_path,
        config_exists,
    ) {
        Ok(p) => p,
        Err(e) => {
            return Err(e);
        },
    };
    get_stack_file(stack_file_directory.as_str(), append)
}

/// Appends one item, closed by a newline, to the end of the handle's
/// content. Nothing of the stored content is read or rewritten.
pub fn write_top_item<F: DFTodoStackFile>(stack_file: &mut F, item: DFTodoItem) -> (r: Result<
    (),
    DFTodoError,
>)
    requires
        old(stack_file).inv(),
    ensures
        final (stack_file).inv(),
        final (stack_file).spec_path() == old(stack_file).spec_path(),
        final (stack_file).spec_append() == old(stack_file).spec_append(),
        r matches Ok(u) ==> final (stack_file).contents() == (if old(stack_file).spec_append() {
            old(stack_file).contents() + item.item@ + newline()
        } else {
            item.item@ + newline()
        }) && final (stack_file).unread() == (if old(stack_file).spec_append() {
            old(stack_file).unread() + item.item@ + newline()
        } else {
            item.item@ + newline()
        }),
        r matches Err(e) ==> e == DFTodoError::WriteError,
{
    let ghost item_text = item.item@;
    let line = item.item.concat("\n");
    proof {
        reveal_strlit("\n");
        assert("\n"@ =~= newline());
        assert(line@ == item_text + newline());
    }
    match stack_file.write_str(line.as_str()) {
        Ok(u) => {
            proof {
                if old(stack_file).spec_append() {
                    assert(old(stack_file).contents() + (item_text + newline()) =~= old(
                        stack_file,
                    ).contents() + item_text + newline());
                    assert(old(stack_file).unread() + (item_text + newline()) =~= old(
                        stack_file,
                    ).unread() + item_text + newline());
                }
            }
            Ok(())
        },
        Err(_) => Err(DFTodoError::WriteError),
    }
}

/// Joins all lines but the last back into stack-file text, each line
/// closed by a newline; the last line (the top item) is left out. An
/// empty or one-line sequence yields empty text.
pub fn collect_all_but_last(lines: &Vec<String>) -> (collected: String)
    ensures
        collected@ == encode_items(spec_retained(lines.deep_view())),
{
    let mut collected = String::new();
    if lines.len() == 0 {
        return collected;
    }
    let n = lines.len() - 1;
    let mut i: usize = 0;
    while i < n
        invariant
            n < lines.deep_view().len(),
            lines.deep_view().len() == lines@.len(),
            i <= n,
            collected@ == encode_items(lines.deep_view().take(i as int)),
        decreases n - i,
    {
        collected.append(lines[i].as_str());
        collected.append("\n");
        proof {
            reveal_strlit("\n");
            assert("\n"@ =~= newline());
            let items = lines.deep_view();
            assert(items.take(i + 1) =~= items.take(i as int).push(items[i as int]));
            crate::lines::lemma_encode_push(items.take(i as int), items[i as int]);
            assert(encode_items(items.take(i as int)) + items[i as int] + newline()
                =~= encode_items(items.take(i as int)) + (items[i as int] + newline()));
        }
        i = i + 1;
    }
    proof {
        assert(lines.deep_view().take(n as int) =~= spec_retained(lines.deep_view()));
    }
    collected
}

/// The stack-file text after one pop: the given text's lines, minus the
/// last one, re-encoded. Text with no line or one line yields empty text.
pub fn pop_contents(content: &str) -> (r: String)
    ensures
        r@ == spec_pop(content@),
{
    let lines = split_lines(content);
    collect_all_but_last(&lines)
}

/// Removes the top item from the stack file at `stack_file_path`: reads
/// the full content through an append-mode handle, then rewrites all but
/// the last line through a truncate-mode handle, in that order. Popping
/// an empty stack succeeds and leaves it empty. Returns the handle that
/// wrote the retained content.
pub fn remove_top_item<F: DFTodoStackFile>(stack_file_path: &str) -> (r: Result<F, DFTodoError>)
    ensures
        r matches Ok(f) ==> f.inv() && f.spec_path() == stack_file_path@ && !f.spec_append()
            && f.contents() == spec_pop(F::existing(stack_file_path@)) && f.unread()
            == f.contents(),
        r matches Err(e) ==> e == DFTodoError::PopError,
{
    let mut read_file: F = match get_stack_file(stack_file_path, true) {
        Ok(f) => f,
        Err(_) => {
            return Err(DFTodoError::PopError);
        },
    };
    let content = match read_file.read_rest() {
        Ok(c) => c,
        Err(_) => {
            return Err(DFTodoError::PopError);
        },
    };
    let retained = pop_contents(content.as_str());
    let mut write_file: F = match get_stack_file(stack_file_path, false) {
        Ok(f) => f,
        Err(_) => {
            return Err(DFTodoError::PopError);
        },
    };
    match write_file.write_str(retained.as_str()) {
        Ok(u) => Ok(write_file),
        Err(_) => Err(DFTodoError::PopError),
    }
}

/// Reads the stack file through the handle and returns its top item: the
/// last line, or the explicit empty signal where the file holds no line.
pub fn get_top_item<F: DFTodoStackFile>(stack_file: F) -> (r: Result<TopItem, DFTodoError>)
    requires
        stack_file.inv(),
    ensures
        r matches Ok(t) ==> match t {
            TopItem::Empty => spec_lines(stack_file.unread()).len() == 0,
            TopItem::Item(s) => spec_lines(stack_file.unread()).len() > 0 && s@ == spec_lines(
                stack_file.unread(),
            ).last(),
        },
        r matches Err(e) ==> e == DFTodoError::ReadError,
{
    let mut file = stack_file;
    let content = match file.read_rest() {
        Ok(c) => c,
        Err(_) => {
            return Err(DFTodoError::ReadError);
        },
    };
    let mut lines = split_lines(content.as_str());
    let ghost items = lines.deep_view();
    match lines.pop() {
        Some(last) => {
            proof {
                assert(last@ == items.last());
            }
            Ok(TopItem::Item(last))
        },
        None => Ok(TopItem::Empty),
    }
}

} // verus!
