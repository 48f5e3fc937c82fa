use vstd::prelude::*;
use crate::callbacks::CallbackRegistry;
use crate::text::{push_char, push_str};

verus! {

/// A named group of file types offered by a file picker. An all-files filter
/// matches every file; otherwise the filter lists extensions without the dot.
pub struct FilePickerFilter {
    pub name: String,
    pub extensions: Vec<String>,
    pub all_files: bool,
}

impl FilePickerFilter {
    /// A filter for the given extensions.
    pub fn new(name: String, extensions: Vec<String>) -> (f: Self)
        ensures
            f.name == name,
            f.extensions == extensions,
            !f.all_files,
    {
        FilePickerFilter { name, extensions, all_files: false }
    }

    /// A filter that matches every file.
    pub fn all_files(name: String) -> (f: Self)
        ensures
            f.name == name,
            f.extensions@.len() == 0,
            f.all_files,
    {
        FilePickerFilter { name, extensions: Vec::new(), all_files: true }
    }

    /// Whether the filter matches every file.
    pub fn is_all_files(&self) -> (r: bool)
        ensures
            r == self.all_files,
    {
        self.all_files
    }
}

/// What a picker returned.
pub enum FilePickerOutcome {
    Cancelled,
    Selected(Vec<String>),
}

/// Why a picker that opened did not deliver a selection.
pub enum FilePickerError {
    /// The user picked something that has no file-system path.
    NonFilesystemSelection,
    Backend(String),
}

/// Why a picker could not be opened.
pub enum FilePickerOpenError {
    BackendUnavailable(String),
}

/// `.` followed by `ext`.
pub open spec fn dotted(ext: Seq<char>) -> Seq<char> {
    seq!['.'] + ext
}

/// The `FileTypeFilter` entries of an open picker for one filter: `*` for an
/// all-files filter, else each extension with a leading dot.
pub open spec fn open_patterns(f: FilePickerFilter) -> Seq<Seq<char>> {
    if f.all_files {
        seq![seq!['*']]
    } else {
        f.extensions@.map_values(|e: String| dotted(e@))
    }
}

/// The `FileTypeFilter` entries of an open picker, filter after filter.
pub open spec fn flattened(filters: Seq<FilePickerFilter>) -> Seq<Seq<char>>
    decreases filters.len(),
{
    if filters.len() == 0 {
        Seq::empty()
    } else {
        flattened(filters.drop_last()) + open_patterns(filters.last())
    }
}

/// Law: every file type an open picker offers is `*` or an extension that
/// starts with a dot, and there is one per extension (one per all-files filter).
pub proof fn lemma_flattened_patterns(filters: Seq<FilePickerFilter>)
    ensures
        forall|i: int| 0 <= i < flattened(filters).len() ==> #[trigger] flattened(filters)[i] == seq!['*'] || (
        flattened(filters)[i].len() >= 1 && flattened(filters)[i][0] == '.'),
    decreases filters.len(),
{
    if filters.len() > 0 {
        lemma_flattened_patterns(filters.drop_last());
        let a = flattened(filters.drop_last());
        let b = open_patterns(filters.last());
        assert forall|i: int| 0 <= i < (a + b).len() implies #[trigger] (a + b)[i] == seq!['*'] || ((a + b)[i].len() >= 1
            && (a + b)[i][0] == '.') by {
            if i < a.len() {
                assert((a + b)[i] == a[i]);
            } else {
                assert((a + b)[i] == b[i - a.len()]);
                if !filters.last().all_files {
                    assert(b[i - a.len()] == dotted(filters.last().extensions@[i - a.len()]@));
                }
            }
        }
    }
}

/// The characters of each string of `v`.
pub open spec fn string_views(v: Seq<String>) -> Seq<Seq<char>> {
    v.map_values(|s: String| s@)
}

fn dotted_string(ext: &String) -> (s: String)
    ensures
        s@ == dotted(ext@),
{
    let mut s = String::new();
    push_char(&mut s, '.');
    push_str(&mut s, ext.as_str());
    s
}

fn push_dotted_all(out: &mut Vec<String>, extensions: &Vec<String>)
    ensures
        string_views(final(out)@) == string_views(old(out)@) + extensions@.map_values(|e: String| dotted(e@)),
{
    let mut i: usize = 0;
    while i < extensions.len()
        invariant
            i <= extensions.len(),
            string_views(out@) == string_views(old(out)@) + extensions@.take(i as int).map_values(|e: String| dotted(e@)),
        decreases extensions.len() - i,
    {
        let ghost before = out@;
        out.push(dotted_string(&extensions[i]));
        proof {
            assert(string_views(out@) == string_views(before).push(dotted(extensions@[i as int]@)));
            assert(extensions@.take(i + 1).map_values(|e: String| dotted(e@)) == extensions@.take(i as int).map_values(|e: String| dotted(e@)).push(dotted(extensions@[i as int]@)));
        }
        i += 1;
    }
    assert(extensions@.take(extensions.len() as int) == extensions@);
}

/// The file types an open picker offers: for each filter in turn, `*` for an
/// all-files filter, else its extensions with a leading dot.
pub fn flattened_extensions(filters: &Vec<FilePickerFilter>) -> (out: Vec<String>)
    ensures
        string_views(out@) == flattened(filters@),
{
    let mut out: Vec<String> = Vec::new();
    let mut i: usize = 0;
    while i < filters.len()
        invariant
            i <= filters.len(),
            string_views(out@) == flattened(filters@.take(i as int)),
        decreases filters.len() - i,
    {
        let ghost before = out@;
        let f = &filters[i];
        if f.is_all_files() {
            let mut star = String::new();
            push_char(&mut star, '*');
            out.push(star);
            assert(string_views(out@) == string_views(before).push(seq!['*']));
            assert(string_views(out@) == string_views(before) + open_patterns(*f));
        } else {
            push_dotted_all(&mut out, &f.extensions);
        }
        assert(filters@.take(i + 1).drop_last() == filters@.take(i as int));
        assert(filters@.take(i + 1).last() == filters@[i as int]);
        i += 1;
    }
    assert(filters@.take(filters.len() as int) == filters@);
    out
}

/// The choices of a save picker for one filter: `*.*` for an all-files
/// filter, else each extension with a leading dot.
pub open spec fn save_patterns(f: FilePickerFilter) -> Seq<Seq<char>> {
    if f.all_files {
        seq![seq!['*', '.', '*']]
    } else {
        f.extensions@.map_values(|e: String| dotted(e@))
    }
}

/// The file-type choices of a save picker: one per filter, named like it.
pub fn save_choices(filters: &Vec<FilePickerFilter>) -> (out: Vec<(String, Vec<String>)>)
    ensures
        out@.len() == filters@.len(),
        forall|k: int|
            0 <= k < filters@.len() ==> (#[trigger] out@[k]).0@ == filters@[k].name@ && string_views(
                out@[k].1@,
            ) == save_patterns(filters@[k]),
{
    let mut out: Vec<(String, Vec<String>)> = Vec::new();
    let mut i: usize = 0;
    while i < filters.len()
        invariant
            i <= filters.len(),
            out@.len() == i,
            forall|k: int|
                0 <= k < i ==> (#[trigger] out@[k]).0@ == filters@[k].name@ && string_views(
                    out@[k].1@,
                ) == save_patterns(filters@[k]),
        decreases filters.len() - i,
    {
        let f = &filters[i];
        let mut patterns: Vec<String> = Vec::new();
        if f.is_all_files() {
            let mut any = String::new();
            push_str(&mut any, "*.*");
            proof {
                reveal_strlit("*.*");
                assert("*.*"@ =~= seq!['*', '.', '*']);
            }
            let ghost av = any@;
            patterns.push(any);
            assert(string_views(patterns@)[0] == av);
            assert(string_views(patterns@) =~= seq![seq!['*', '.', '*']]);
        } else {
            push_dotted_all(&mut patterns, &f.extensions);
            assert(string_views(Seq::<String>::empty()) =~= Seq::<Seq<char>>::empty());
        }
        out.push((f.name.clone(), patterns));
        i += 1;
    }
    out
}

/// The default extension of a save picker: the first extension of the first
/// filter that lists any, with a leading dot.
pub open spec fn default_extension_of(filters: Seq<FilePickerFilter>) -> Option<Seq<char>>
    decreases filters.len(),
{
    if filters.len() == 0 {
        None
    } else if filters[0].extensions@.len() > 0 {
        Some(dotted(filters[0].extensions@[0]@))
    } else {
        default_extension_of(filters.drop_first())
    }
}

/// Law: the default extension is the first extension of the FIRST filter
/// (in the order given) that lists any, with a leading dot; when no filter
/// lists an extension there is none.
pub proof fn lemma_default_extension_is_first(filters: Seq<FilePickerFilter>)
    ensures
        (forall|i: int| 0 <= i < filters.len() ==> (#[trigger] filters[i]).extensions@.len() == 0)
            ==> default_extension_of(filters) is None,
        forall|i: int|
            0 <= i < filters.len() && (#[trigger] filters[i]).extensions@.len() > 0 && (forall|j: int|
                0 <= j < i ==> filters[j].extensions@.len() == 0) ==> default_extension_of(filters)
                == Some(dotted(filters[i].extensions@[0]@)),
    decreases filters.len(),
{
    if filters.len() > 0 {
        let rest = filters.drop_first();
        lemma_default_extension_is_first(rest);
        assert forall|i: int| 0 <= i < rest.len() implies #[trigger] rest[i] == filters[i + 1] by {}
        assert forall|i: int|
            0 <= i < filters.len() && (#[trigger] filters[i]).extensions@.len() > 0 && (forall|j: int|
                0 <= j < i ==> filters[j].extensions@.len() == 0) implies default_extension_of(filters)
                == Some(dotted(filters[i].extensions@[0]@)) by {
            if i > 0 {
                assert(filters[0].extensions@.len() == 0);
                assert(rest[i - 1] == filters[i]);
                assert forall|j: int| 0 <= j < i - 1 implies rest[j].extensions@.len() == 0 by {
                    assert(rest[j] == filters[j + 1]);
                }
            }
        }
        if forall|i: int| 0 <= i < filters.len() ==> (#[trigger] filters[i]).extensions@.len() == 0 {
            assert(filters[0].extensions@.len() == 0);
            assert forall|i: int| 0 <= i < rest.len() implies (#[trigger] rest[i]).extensions@.len() == 0 by {
                assert(rest[i] == filters[i + 1]);
            }
        }
    }
}

/// Computes the default extension of a save picker.
pub fn default_extension(filters: &Vec<FilePickerFilter>) -> (r: Option<String>)
    ensures
        match r {
            Some(s) => default_extension_of(filters@) == Some(s@),
            None => default_extension_of(filters@) is None,
        },
{
    let mut i: usize = 0;
    assert(filters@.skip(0) == filters@);
    while i < filters.len()
        invariant
            i <= filters.len(),
            default_extension_of(filters@) == default_extension_of(filters@.skip(i as int)),
        decreases filters.len() - i,
    {
        assert(filters@.skip(i as int)[0] == filters@[i as int]);
        assert(filters@.skip(i as int).drop_first() == filters@.skip(i + 1));
        if filters[i].extensions.len() > 0 {
            return Some(dotted_string(&filters[i].extensions[0]));
        }
        i += 1;
    }
    None
}

/// The message of a picker failure.
pub open spec fn backend_message(message: Seq<char>) -> Seq<char> {
    seq!['W', 'i', 'n', 'U', 'I', ' ', 'f', 'i', 'l', 'e', ' ', 'p', 'i', 'c', 'k', 'e', 'r', ' ', 'f', 'a', 'i', 'l', 'e', 'd', ':', ' '] + message
}

/// The message of a picker that could not be opened.
pub open spec fn unavailable_message(message: Seq<char>) -> Seq<char> {
    seq!['W', 'i', 'n', 'U', 'I', ' ', 'f', 'i', 'l', 'e', ' ', 'p', 'i', 'c', 'k', 'e', 'r', ' ', 'u', 'n', 'a', 'v', 'a', 'i', 'l', 'a', 'b', 'l', 'e', ':', ' '] + message
}

/// A picker failure that carries the native error's description.
pub fn backend_error(message: &str) -> (e: FilePickerError)
    ensures
        e matches FilePickerError::Backend(m) && m@ == backend_message(message@),
{
    let mut m = String::new();
    push_str(&mut m, "WinUI file picker failed: ");
    proof {
        reveal_strlit("WinUI file picker failed: ");
    }
    push_str(&mut m, message);
    FilePickerError::Backend(m)
}

/// A picker that could not be opened, with the native error's description.
pub fn open_error(message: &str) -> (e: FilePickerOpenError)
    ensures
        e matches FilePickerOpenError::BackendUnavailable(m) && m@ == unavailable_message(message@),
{
    let mut m = String::new();
    push_str(&mut m, "WinUI file picker unavailable: ");
    proof {
        reveal_strlit("WinUI file picker unavailable: ");
    }
    push_str(&mut m, message);
    FilePickerOpenError::BackendUnavailable(m)
}

/// The outcome for a list of picked paths: cancelled when it is empty.
pub fn selected(paths: Vec<String>) -> (r: Result<FilePickerOutcome, FilePickerError>)
    ensures
        paths@.len() == 0 ==> r matches Ok(FilePickerOutcome::Cancelled),
        paths@.len() > 0 ==> (r matches Ok(FilePickerOutcome::Selected(p)) && p == paths),
{
    if paths.len() == 0 {
        Ok(FilePickerOutcome::Cancelled)
    } else {
        Ok(FilePickerOutcome::Selected(paths))
    }
}

/// The outcome for the path of one picked item (`Err` carries the
/// description of the native failure to read it): an empty path is not a
/// file-system selection.
pub fn path_result(path: Result<String, String>) -> (r: Result<FilePickerOutcome, FilePickerError>)
    ensures
        match path {
            Err(m) => r matches Err(FilePickerError::Backend(b)) && b@ == backend_message(m@),
            Ok(p) => if p@.len() == 0 {
                r matches Err(FilePickerError::NonFilesystemSelection)
            } else {
                r matches Ok(FilePickerOutcome::Selected(v)) && v@.len() == 1 && v@[0] == p
            },
        },
{
    match path {
        Err(m) => Err(backend_error(m.as_str())),
        Ok(p) => {
            if p.as_str().is_empty() {
                Err(FilePickerError::NonFilesystemSelection)
            } else {
                let mut v: Vec<String> = Vec::new();
                v.push(p);
                selected(v)
            }
        },
    }
}

/// The outcome of a single-item picker: `None` is the null result a cancelled
/// picker returns; otherwise the item's path as read.
pub fn single_result(picked: Option<Result<String, String>>) -> (r: Result<FilePickerOutcome, FilePickerError>)
    ensures
        picked is None ==> r matches Ok(FilePickerOutcome::Cancelled),
        picked matches Some(path) ==> match path {
            Err(m) => r matches Err(FilePickerError::Backend(b)) && b@ == backend_message(m@),
            Ok(p) => if p@.len() == 0 {
                r matches Err(FilePickerError::NonFilesystemSelection)
            } else {
                r matches Ok(FilePickerOutcome::Selected(v)) && v@.len() == 1 && v@[0] == p
            },
        },
{
    match picked {
        None => Ok(FilePickerOutcome::Cancelled),
        Some(path) => path_result(path),
    }
}

/// One entry of a multiple-file picker result, as read from the native list.
pub enum PickedItem {
    /// Reading the entry failed, with the failure's description.
    Unreadable(String),
    /// The entry is a null result.
    Null,
    /// The entry's path, or the description of the failure to read it.
    Located(Result<String, String>),
}

/// Whether an entry is a readable path.
pub open spec fn is_path(item: PickedItem) -> bool {
    item matches PickedItem::Located(Ok(_))
}

/// The path of a readable entry.
pub open spec fn path_of(item: PickedItem) -> String {
    match item {
        PickedItem::Located(Ok(p)) => p,
        _ => arbitrary(),
    }
}

/// Where the first entry that stops a multiple-file result is: an unreadable
/// entry, a null entry, or one whose path cannot be read.
pub open spec fn first_failure(items: Seq<PickedItem>) -> Option<int> {
    if exists|i: int| 0 <= i < items.len() && !is_path(items[i]) {
        Some(
            choose|i: int|
                0 <= i < items.len() && !is_path(items[i]) && forall|j: int|
                    0 <= j < i ==> is_path(items[j]),
        )
    } else {
        None
    }
}

/// The outcome of a multiple-file picker. `entries` is `Err` when the number of
/// entries could not be read. The entries are read in order; the first
/// unreadable, null or pathless entry ends the result with a backend error,
/// a non-file-system error, or a backend error respectively; otherwise every
/// path (even an empty one) is selected, and no entry at all is a cancellation.
pub fn multiple_file_result(entries: Result<Vec<PickedItem>, String>) -> (r: Result<FilePickerOutcome, FilePickerError>)
    ensures
        entries matches Err(m) ==> (r matches Err(FilePickerError::Backend(b)) && b@ == backend_message(m@)),
        entries matches Ok(v) ==> match first_failure(v@) {
            Some(i) => match v@[i] {
                PickedItem::Unreadable(m) => r matches Err(FilePickerError::Backend(b)) && b@ == backend_message(m@),
                PickedItem::Null => r matches Err(FilePickerError::NonFilesystemSelection),
                PickedItem::Located(Err(m)) => r matches Err(FilePickerError::Backend(b)) && b@ == backend_message(m@),
                PickedItem::Located(Ok(_)) => false,
            },
            None => if v@.len() == 0 {
                r matches Ok(FilePickerOutcome::Cancelled)
            } else {
                r matches Ok(FilePickerOutcome::Selected(p)) && p@.len() == v@.len() && forall|k: int|
                    0 <= k < v@.len() ==> is_path(#[trigger] v@[k]) && p@[k] == path_of(v@[k])
            },
        },
{
    let items = match entries {
        Err(m) => return Err(backend_error(m.as_str())),
        Ok(v) => v,
    };
    let mut paths: Vec<String> = Vec::new();
    let mut i: usize = 0;
    while i < items.len()
        invariant
            i <= items.len(),
            entries matches Ok(v) && v@ == items@,
            paths@.len() == i,
            forall|j: int| 0 <= j < i ==> is_path(#[trigger] items@[j]) && paths@[j] == path_of(items@[j]),
        decreases items.len() - i,
    {
        let ghost k = i as int;
        match &items[i] {
            PickedItem::Unreadable(m) => {
                proof {
                    assert(first_failure(items@) == Some(k)) by {
                        let c = choose|c: int|
                            0 <= c < items@.len() && !is_path(items@[c]) && forall|j: int|
                                0 <= j < c ==> is_path(items@[j]);
                        assert(!is_path(items@[k]));
                        if c < k {
                            assert(is_path(items@[c]));
                        } else if c > k {
                        }
                    }
                }
                return Err(backend_error(m.as_str()));
            },
            PickedItem::Null => {
                proof {
                    assert(first_failure(items@) == Some(k)) by {
                        let c = choose|c: int|
                            0 <= c < items@.len() && !is_path(items@[c]) && forall|j: int|
                                0 <= j < c ==> is_path(items@[j]);
                        assert(!is_path(items@[k]));
                        if c < k {
                            assert(is_path(items@[c]));
                        }
                    }
                }
                return Err(FilePickerError::NonFilesystemSelection);
            },
            PickedItem::Located(Err(m)) => {
                proof {
                    assert(first_failure(items@) == Some(k)) by {
                        let c = choose|c: int|
                            0 <= c < items@.len() && !is_path(items@[c]) && forall|j: int|
                                0 <= j < c ==> is_path(items@[j]);
                        assert(!is_path(items@[k]));
                        if c < k {
                            assert(is_path(items@[c]));
                        }
                    }
                }
                return Err(backend_error(m.as_str()));
            },
            PickedItem::Located(Ok(p)) => {
                paths.push(p.clone());
            },
        }
        i += 1;
    }
    proof {
        assert forall|j: int| !(0 <= j < items@.len() && !is_path(items@[j])) by {
            if 0 <= j < items@.len() {
                assert(is_path(items@[j]));
            }
        }
    }
    selected(paths)
}

/// The error type of WinRT calls (`windows_core::Error`), carried opaquely.
#[verifier::external_type_specification]
#[verifier::external_body]
pub struct ExWindowsError(windows_core::Error);

/// Reads the native error code (an `HRESULT`) of a picker failure.
#[verifier::external_body]
fn error_code(error: &windows_core::Error) -> i32 {
    error.code().0
}

/// Reads the description of a picker failure (its `Display` text).
#[verifier::external_body]
fn error_message(error: &windows_core::Error) -> String {
    error.to_string()
}

/// Whether an `HRESULT` is a success code (`HRESULT::is_ok`: not negative).
#[verifier::external_body]
fn hresult_is_ok(code: i32) -> (r: bool)
    ensures
        r == (code >= 0),
{
    windows_core::HRESULT(code).is_ok()
}

/// The outcome of a picker whose asynchronous operation failed with native
/// error `code`: a success code is how a null (cancelled) result arrives, any
/// other code is a backend failure described by `message`.
pub fn failure_result(code: i32, message: &str) -> (r: Result<FilePickerOutcome, FilePickerError>)
    ensures
        code >= 0 ==> r matches Ok(FilePickerOutcome::Cancelled),
        code < 0 ==> (r matches Err(FilePickerError::Backend(b)) && b@ == backend_message(message@)),
{
    if hresult_is_ok(code) {
        Ok(FilePickerOutcome::Cancelled)
    } else {
        Err(backend_error(message))
    }
}

/// Maps the completion of a picker operation to its outcome: a result is
/// passed to `map`; a failure is turned into an outcome by [`failure_result`]
/// from the error's code and description.
pub fn map_async_result<T, F: Fn(T) -> Result<FilePickerOutcome, FilePickerError>>(
    result: Result<T, windows_core::Error>,
    map: F,
) -> (r: Result<FilePickerOutcome, FilePickerError>)
    requires
        result matches Ok(v) ==> map.requires((v,)),
    ensures
        result matches Ok(v) ==> map.ensures((v,), r),
        result is Err ==> (r matches Ok(FilePickerOutcome::Cancelled) || r matches Err(FilePickerError::Backend(_))),
{
    match result {
        Ok(v) => map(v),
        Err(error) => {
            let code = error_code(&error);
            let message = error_message(&error);
            failure_result(code, message.as_str())
        },
    }
}

/// Registers the completion callback of a picker request.
pub fn register_callback<T>(callbacks: &mut CallbackRegistry<T>, callback: T) -> (id: u64)
    requires
        old(callbacks).wf(),
    ensures
        final(callbacks).wf(),
        id == old(callbacks).next(),
        id >= 1,
        final(callbacks)@ == old(callbacks)@.insert(id, callback),
{
    callbacks.register(callback)
}

/// Takes the completion callback of request `id` out, so that it runs once.
pub fn complete_callback<T>(callbacks: &mut CallbackRegistry<T>, id: u64) -> (r: Option<T>)
    ensures
        final(callbacks).wf() == old(callbacks).wf(),
        final(callbacks)@ == old(callbacks)@.remove(id),
        match r {
            Some(c) => old(callbacks)@.contains_key(id) && c == old(callbacks)@[id],
            None => !old(callbacks)@.contains_key(id),
        },
{
    callbacks.complete(id)
}

/// Drops the completion callback of request `id`, used when the native
/// operation could not be observed.
pub fn discard_callback<T>(callbacks: &mut CallbackRegistry<T>, id: u64)
    ensures
        final(callbacks).wf() == old(callbacks).wf(),
        final(callbacks)@ == old(callbacks)@.remove(id),
{
    callbacks.discard(id)
}

} // verus!
