use vstd::prelude::*;
use crate::text::strings_view;

verus! {

/// A file of the game as the update server describes it.
pub struct FileInfo {
    /// The path of the file relative to the root of the program
    pub path: String,
    /// The hash of the file (in Crockford's base 32)
    pub hash: String,
    /// A placeholder file will never be overwritten, only downloaded when absent
    pub placeholder: bool,
}

pub struct FileInfoView {
    pub path: Seq<char>,
    pub hash: Seq<char>,
    pub placeholder: bool,
}

impl View for FileInfo {
    type V = FileInfoView;

    open spec fn view(&self) -> FileInfoView {
        FileInfoView { path: self.path@, hash: self.hash@, placeholder: self.placeholder }
    }
}

/// What the update server sends to describe the files to keep up to date.
pub struct Info {
    /// Url of the root of the program on the remote server
    pub base_url: String,
    /// Algorithm to generate hashes
    pub algorithm: String,
    /// All files of the program
    pub files: Vec<FileInfo>,
    /// All the files and directories that are never modified
    pub ignored_files: Vec<String>,
}

pub struct InfoView {
    pub base_url: Seq<char>,
    pub algorithm: Seq<char>,
    pub files: Seq<FileInfoView>,
    pub ignored_files: Seq<Seq<char>>,
}

pub open spec fn files_view(files: Seq<FileInfo>) -> Seq<FileInfoView> {
    files.map_values(|f: FileInfo| f@)
}

impl View for Info {
    type V = InfoView;

    open spec fn view(&self) -> InfoView {
        InfoView {
            base_url: self.base_url@,
            algorithm: self.algorithm@,
            files: files_view(self.files@),
            ignored_files: strings_view(self.ignored_files@),
        }
    }
}

} // verus!
