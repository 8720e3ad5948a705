//! The decisions of the file-system source: which files name an app, and
//! what input a read of one gives.

use vstd::prelude::*;
use crate::input::{AppFileContents, AppFileInput};

verus! {

/// The last component of a path.
pub open spec fn file_name_of(p: Seq<char>) -> Seq<char>
    decreases p.len(),
{
    if p.len() == 0 {
        p
    } else if p.last() == '/' {
        Seq::empty()
    } else {
        file_name_of(p.drop_last()).push(p.last())
    }
}

/// The app that a data file names: the stem of a file whose extension is
/// `json`, that is a name that ends in `.json` after at least one character.
pub open spec fn app_id_of(p: Seq<char>) -> Option<Seq<char>> {
    let n = file_name_of(p);
    if n.len() > 5 && n.subrange(n.len() - 5, n.len() as int) == ".json"@ {
        Some(n.subrange(0, n.len() - 5))
    } else {
        None
    }
}

/// The app that the file at `path` holds the data of, if it is a `.json` file.
pub fn app_id_for_path(path: &str) -> (r: Option<String>)
    ensures
        opt_seq(r) == app_id_of(path@),
{
    let n = path.unicode_len();
    let mut start: usize = n;
    assert(path@.subrange(0, n as int) =~= path@);
    assert(path@.subrange(n as int, n as int) =~= Seq::<char>::empty());
    assert(file_name_of(path@) + Seq::<char>::empty() =~= file_name_of(path@));
    while start > 0 && path.get_char(start - 1) != '/'
        invariant
            start <= n,
            n == path@.len(),
            file_name_of(path@) == file_name_of(path@.subrange(0, start as int)) + path@.subrange(start as int, n as int),
        decreases start,
    {
        proof {
            let p = path@.subrange(0, start as int);
            assert(p.drop_last() =~= path@.subrange(0, start - 1));
            assert(path@.subrange(start - 1, n as int) =~= seq![p.last()] + path@.subrange(start as int, n as int));
            assert(file_name_of(p) == file_name_of(p.drop_last()).push(p.last()));
            assert(file_name_of(p.drop_last()).push(p.last()) + path@.subrange(start as int, n as int)
                =~= file_name_of(p.drop_last()) + path@.subrange(start - 1, n as int));
        }
        start = start - 1;
    }
    proof {
        let p = path@.subrange(0, start as int);
        if start > 0 {
            assert(p.last() == '/');
        }
        assert(file_name_of(p) =~= Seq::<char>::empty());
        assert(file_name_of(path@) =~= path@.subrange(start as int, n as int));
        reveal_strlit(".json");
    }
    let len = n - start;
    if len <= 5 {
        return None;
    }
    let name = path.substring_char(start, n);
    assert(name@ == file_name_of(path@));
    let ext = name.substring_char(len - 5, len);
    let dot_json = String::from_str(".json");
    let ext_s = String::from_str(ext);
    if ext_s == dot_json {
        let stem = name.substring_char(0, len - 5);
        Some(String::from_str(stem))
    } else {
        None
    }
}

pub open spec fn opt_seq(o: Option<String>) -> Option<Seq<char>> {
    match o {
        Some(s) => Some(s@),
        None => None,
    }
}

/// What reading a data file gave.
pub enum FileRead {
    /// The file's text
    Contents(String),
    /// The file does not exist: it was deleted
    Missing,
    /// Another error, described
    Failed(String),
}

/// The input for app `app_id` after a read of its data file: the text to
/// decode, an empty input for a deleted file, or the error of another failure.
pub fn input_for_read(app_id: String, read: FileRead) -> (r: Result<AppFileInput, String>)
    ensures
        match read {
            FileRead::Contents(t) => r matches Ok(i) && i.app_id == app_id && !i.merge_items
                && i.contents == AppFileContents::Raw(t),
            FileRead::Missing => r matches Ok(i) && i.app_id == app_id && !i.merge_items
                && i.contents is Empty,
            FileRead::Failed(e) => r == Err::<AppFileInput, String>(e),
        },
{
    match read {
        FileRead::Contents(t) => Ok(AppFileInput { app_id, contents: AppFileContents::Raw(t), merge_items: false }),
        FileRead::Missing => Ok(AppFileInput { app_id, contents: AppFileContents::Empty, merge_items: false }),
        FileRead::Failed(e) => Err(e),
    }
}

} // verus!
