//! Watching the game-log folder: which of its entries are game logs.
use vstd::prelude::*;

use crate::text::{count_char, count_seq, str_eq};

verus! {

/// The extension of game-log files.
pub const LOG_EXTENSION: &'static str = "txt";

/// A folder entry may be a game log when it is not a folder and its
/// extension is `txt`.
pub open spec fn log_entry_kind_ok(is_dir: bool, extension: Option<Seq<char>>) -> bool {
    !is_dir && extension == Some(LOG_EXTENSION@)
}

/// A game log's file name holds exactly two `_` (as in
/// `20220619_201441_2117846337.txt`).
pub open spec fn log_file_name_ok(file_name: Seq<char>) -> bool {
    count_seq(file_name, '_') == 2
}

/// Whether a folder entry may be a game log (see [`log_entry_kind_ok`]);
/// `extension` is `None` when the entry has none or it is not text.
pub fn is_log_entry_kind(is_dir: bool, extension: Option<&str>) -> (res: bool)
    ensures
        res == log_entry_kind_ok(
            is_dir,
            match extension {
                Some(e) => Some(e@),
                None => None,
            },
        ),
{
    if is_dir {
        return false;
    }
    match extension {
        Some(ext) => str_eq(ext, LOG_EXTENSION),
        None => false,
    }
}

/// Whether a file name has the form of a game log's (see
/// [`log_file_name_ok`]).
pub fn is_log_file_name(file_name: &str) -> (res: bool)
    ensures
        res == log_file_name_ok(file_name@),
{
    count_char(file_name, '_') == 2
}

/// The state of a watcher as mathematical values.
pub ghost struct DirWatcherView {
    pub path: Seq<char>,
    pub first_run: bool,
    pub ignor_files: Seq<Seq<char>>,
    pub act_files: Seq<Seq<char>>,
}

/// A watcher of the game-log folder.
#[derive(Debug)]
pub struct DirWatcher {
    path: String,
    first_run: bool,
    ignor_files: Vec<String>,
    act_files: Vec<String>,
}

impl View for DirWatcher {
    type V = DirWatcherView;

    closed spec fn view(&self) -> DirWatcherView {
        DirWatcherView {
            path: self.path@,
            first_run: self.first_run,
            ignor_files: self.ignor_files@.map_values(|s: String| s@),
            act_files: self.act_files@.map_values(|s: String| s@),
        }
    }
}

impl DirWatcher {
    /// A watcher of the folder `path` before its first run, with no files
    /// ignored or active yet.
    pub fn new(path: String) -> (res: Self)
        ensures
            res@ == (DirWatcherView {
                path: path@,
                first_run: true,
                ignor_files: Seq::empty(),
                act_files: Seq::empty(),
            }),
    {
        let res = Self {
            path,
            first_run: true,
            ignor_files: Vec::with_capacity(30),
            act_files: Vec::with_capacity(30),
        };
        proof {
            assert(res@.ignor_files =~= Seq::<Seq<char>>::empty());
            assert(res@.act_files =~= Seq::<Seq<char>>::empty());
        }
        res
    }

    /// The folder the watcher watches.
    pub fn path(&self) -> (res: &str)
        ensures
            res@ == self@.path,
    {
        self.path.as_str()
    }
}

} // verus!
