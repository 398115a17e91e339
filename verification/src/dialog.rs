//! File dialogs on a system without any: what a dialog asks for, and what became
//! of the answer.

use crate::paths::{base_name, file_name_of, join_path, under};
use crate::text::{lowercase, lowercased};
use vstd::prelude::*;

verus! {

/// A file that was picked.
pub struct FileHandle {
    pub path: String,
}

impl FileHandle {
    /// Where the file is.
    pub fn path(&self) -> (r: &str)
        ensures
            r@ == self.path@,
    {
        self.path.as_str()
    }

    /// The last part of the path; empty when it has none.
    pub fn file_name(&self) -> (r: String)
        ensures
            r@ == base_name(self.path@),
    {
        file_name_of(self.path.as_str())
    }
}

/// A dialog that is being put together.
pub struct AsyncFileDialog {
    pub exts: Vec<String>,
    pub title: String,
    pub file_name: Option<String>,
}

/// The extensions of a filter, in lower case.
pub open spec fn filter_texts(ext: Seq<&str>) -> Seq<Seq<char>> {
    Seq::new(ext.len(), |i: int| lowercased(ext[i]@))
}

impl AsyncFileDialog {
    /// A dialog with no filter, no title and no suggested name.
    pub fn new() -> (r: Self)
        ensures
            r.exts@.len() == 0,
            r.title@.len() == 0,
            r.file_name is None,
    {
        proof {
            reveal_strlit("");
        }
        AsyncFileDialog { exts: Vec::new(), title: "".to_owned(), file_name: None }
    }

    /// Also show files with these extensions, in whatever case.
    pub fn add_filter(self, name: &str, ext: &[&str]) -> (r: Self)
        ensures
            crate::text::texts(r.exts@) == crate::text::texts(self.exts@) + filter_texts(ext@),
            r.title == self.title,
            r.file_name == self.file_name,
    {
        let mut d: AsyncFileDialog = self;
        let ghost head = crate::text::texts(self.exts@);
        let mut i: usize = 0;
        assert(head + filter_texts(ext@).take(0) =~= head);
        while i < ext.len()
            invariant
                i <= ext@.len(),
                crate::text::texts(d.exts@) == head + filter_texts(ext@).take(i as int),
                d.title == self.title,
                d.file_name == self.file_name,
            decreases ext@.len() - i,
        {
            let low: String = lowercase(ext[i]);
            let ghost before = crate::text::texts(d.exts@);
            assert(low@ == filter_texts(ext@)[i as int]);
            d.exts.push(low);
            i += 1;
            assert(crate::text::texts(d.exts@) =~= before.push(low@));
            assert(filter_texts(ext@).take(i as int) =~= filter_texts(ext@).take(i - 1).push(low@));
            assert(before.push(low@) =~= head + filter_texts(ext@).take(i as int));
        }
        assert(filter_texts(ext@).take(ext@.len() as int) =~= filter_texts(ext@));
        d
    }

    pub fn set_title(self, t: &str) -> (r: Self)
        ensures
            r.title@ == t@,
            r.exts == self.exts,
            r.file_name == self.file_name,
    {
        let mut d: AsyncFileDialog = self;
        d.title = t.to_owned();
        d
    }

    /// Suggest a name to save under.
    pub fn set_file_name(self, n: &str) -> (r: Self)
        ensures
            r.file_name matches Some(s) && s@ == n@,
            r.exts == self.exts,
            r.title == self.title,
    {
        let mut d: AsyncFileDialog = self;
        d.file_name = Some(n.to_owned());
        d
    }

    /// The answer to a dialog for one file: the last path picked, if any.
    pub fn pick_file(self, picked: Vec<String>) -> (r: Option<FileHandle>)
        ensures
            r is Some <==> picked@.len() > 0,
            r matches Some(f) ==> f.path == picked@.last(),
    {
        let mut picked: Vec<String> = picked;
        match picked.pop() {
            Some(path) => Some(FileHandle { path }),
            None => None,
        }
    }

    /// The answer to a dialog for several files: none when nothing was picked.
    pub fn pick_files(self, picked: Vec<String>) -> (r: Option<Vec<FileHandle>>)
        ensures
            r is Some <==> picked@.len() > 0,
            r matches Some(v) ==> v@.len() == picked@.len() && forall|i: int|
                0 <= i < v@.len() ==> (#[trigger] v@[i]).path == picked@[i],
    {
        if picked.len() == 0 {
            return None;
        }
        let mut v: Vec<FileHandle> = Vec::new();
        let mut i: usize = 0;
        while i < picked.len()
            invariant
                i <= picked@.len(),
                v@.len() == i,
                forall|k: int| 0 <= k < i ==> (#[trigger] v@[k]).path == picked@[k],
            decreases picked@.len() - i,
        {
            v.push(FileHandle { path: picked[i].clone() });
            i += 1;
        }
        Some(v)
    }

    /// There is no dialog for a folder: it always counts as cancelled.
    pub fn pick_folder(self) -> (r: Option<FileHandle>)
        ensures
            r is None,
    {
        None
    }

    /// There is no dialog to save: the file goes under the suggested name into the
    /// directory that files are saved to.
    pub fn save_file(self, save_dir: &str) -> (r: Option<FileHandle>)
        ensures
            r matches Some(f) && f.path@ == under(
                save_dir@,
                match self.file_name {
                    Some(n) => n@,
                    None => "untitled"@,
                },
            ),
    {
        let name: String = match self.file_name {
            Some(n) => n,
            None => "untitled".to_owned(),
        };
        Some(FileHandle { path: join_path(save_dir, name.as_str()) })
    }
}

} // verus!
