//! The annotation data model: files own comments, comments own an
//! append-only history of position tags.

use vstd::prelude::*;

verus! {

/// Whether a tag's content is still present in the tracked file.
#[derive(Clone, Copy, Debug, PartialEq, Eq, Structural)]
pub enum TagStatus {
    Normal,
    Missing,
}

/// One point-in-time claim: "this comment's content sat at `line` as of
/// `revision`". A tag is never mutated; new knowledge is recorded by
/// appending a fresh tag to the owning comment.
#[derive(Debug, PartialEq)]
pub struct CommentTag {
    pub revision: String,
    pub line: i32,
    pub status: TagStatus,
}

/// A tag is well formed when its line number is positive (lines count from 1).
pub open spec fn tag_wf(tag: CommentTag) -> bool {
    tag.line >= 1
}

impl Clone for CommentTag {
    /// A clone equals the original, field for field.
    fn clone(&self) -> (res: Self)
        ensures
            res == *self,
    {
        CommentTag { revision: self.revision.clone(), line: self.line, status: self.status }
    }
}

/// One logical annotation together with the history of positions it has held.
/// The last tag is the most current known position.
#[derive(Debug, PartialEq)]
pub struct Comment {
    pub text: String,
    pub tags: Vec<CommentTag>,
}

/// The mathematical value of a `Comment`: its text and its tag history.
#[verifier::ext_equal]
pub struct CommentModel {
    pub text: Seq<char>,
    pub tags: Seq<CommentTag>,
}

impl View for Comment {
    type V = CommentModel;

    open spec fn view(&self) -> CommentModel {
        CommentModel { text: self.text@, tags: self.tags@ }
    }
}

impl Comment {
    /// The sole mutation primitive of the data model: append one tag,
    /// leaving the text and every existing tag untouched.
    pub fn push_tag(&mut self, tag: CommentTag)
        ensures
            final(self)@.text == old(self)@.text,
            final(self)@.tags == old(self)@.tags.push(tag),
    {
        self.tags.push(tag);
    }
}

impl Clone for Comment {
    /// A clone carries the same text and the same tag history.
    fn clone(&self) -> (res: Self)
        ensures
            res@ == self@,
    {
        let mut tags: Vec<CommentTag> = Vec::new();
        let mut i: usize = 0;
        while i < self.tags.len()
            invariant
                i <= self.tags.len(),
                tags@ =~= self.tags@.subrange(0, i as int),
            decreases self.tags.len() - i,
        {
            tags.push(self.tags[i].clone());
            i = i + 1;
        }
        let res = Comment { text: self.text.clone(), tags };
        proof {
            assert(res@ =~= self@);
        }
        res
    }
}

/// One tracked file and the comments pinned to it.
#[derive(Debug, PartialEq)]
pub struct FileData {
    pub path: String,
    pub comments: Vec<Comment>,
}

/// The mathematical value of a `FileData`.
#[verifier::ext_equal]
pub struct FileDataModel {
    pub path: Seq<char>,
    pub comments: Seq<CommentModel>,
}

impl View for FileData {
    type V = FileDataModel;

    open spec fn view(&self) -> FileDataModel {
        FileDataModel {
            path: self.path@,
            comments: self.comments@.map_values(|c: Comment| c@),
        }
    }
}

impl Clone for FileData {
    /// A clone carries the same path and the same comments.
    fn clone(&self) -> (res: Self)
        ensures
            res@ == self@,
    {
        let mut comments: Vec<Comment> = Vec::new();
        let mut i: usize = 0;
        while i < self.comments.len()
            invariant
                i <= self.comments.len(),
                comments@.len() == i,
                forall|k: int| 0 <= k < i ==> (#[trigger] comments@[k])@ == self.comments@[k]@,
            decreases self.comments.len() - i,
        {
            comments.push(self.comments[i].clone());
            i = i + 1;
        }
        let res = FileData { path: self.path.clone(), comments };
        proof {
            assert forall|k: int| 0 <= k < res@.comments.len() implies res@.comments[k]
                == self@.comments[k] by {
                assert(res@.comments[k] == comments@[k]@);
                assert(self@.comments[k] == self.comments@[k]@);
            }
            assert(res@.comments =~= self@.comments);
            assert(res@ =~= self@);
        }
        res
    }
}

/// The entire persisted state: every tracked file.
#[derive(Debug, PartialEq)]
pub struct RootData {
    pub files: Vec<FileData>,
}

/// The mathematical value of a `RootData`.
#[verifier::ext_equal]
pub struct RootDataModel {
    pub files: Seq<FileDataModel>,
}

impl View for RootData {
    type V = RootDataModel;

    open spec fn view(&self) -> RootDataModel {
        RootDataModel { files: self.files@.map_values(|f: FileData| f@) }
    }
}

impl Clone for RootData {
    /// The deep copy taken at the start of a pass: the copy's value equals
    /// the original's, so the input is never mutated.
    fn clone(&self) -> (res: Self)
        ensures
            res@ == self@,
    {
        let mut files: Vec<FileData> = Vec::new();
        let mut i: usize = 0;
        while i < self.files.len()
            invariant
                i <= self.files.len(),
                files@.len() == i,
                forall|k: int| 0 <= k < i ==> (#[trigger] files@[k])@ == self.files@[k]@,
            decreases self.files.len() - i,
        {
            files.push(self.files[i].clone());
            i = i + 1;
        }
        let res = RootData { files };
        proof {
            assert forall|k: int| 0 <= k < res@.files.len() implies res@.files[k]
                == self@.files[k] by {
                assert(res@.files[k] == files@[k]@);
                assert(self@.files[k] == self.files@[k]@);
            }
            assert(res@.files =~= self@.files);
            assert(res@ =~= self@);
        }
        res
    }
}

impl FileData {
    /// Append `tag` to the comment at `comment_index`, leaving the path and
    /// every other comment unchanged.
    pub fn append_tag_at(&mut self, comment_index: usize, tag: CommentTag)
        requires
            comment_index < old(self)@.comments.len(),
        ensures
            final(self)@.path == old(self)@.path,
            final(self)@.comments == old(self)@.comments.update(
                comment_index as int,
                CommentModel {
                    text: old(self)@.comments[comment_index as int].text,
                    tags: old(self)@.comments[comment_index as int].tags.push(tag),
                },
            ),
    {
        self.comments[comment_index].push_tag(tag);
        proof {
            assert(self@.comments =~= old(self)@.comments.update(
                comment_index as int,
                CommentModel {
                    text: old(self)@.comments[comment_index as int].text,
                    tags: old(self)@.comments[comment_index as int].tags.push(tag),
                },
            ));
        }
    }
}

impl RootData {
    /// Append `tag` to the comment at `comment_index` of the file at
    /// `file_index`, leaving everything else in the tree unchanged.
    pub fn append_tag_at(&mut self, file_index: usize, comment_index: usize, tag: CommentTag)
        requires
            file_index < old(self)@.files.len(),
            comment_index < old(self)@.files[file_index as int].comments.len(),
        ensures
            final(self)@.files == old(self)@.files.update(
                file_index as int,
                FileDataModel {
                    path: old(self)@.files[file_index as int].path,
                    comments: old(self)@.files[file_index as int].comments.update(
                        comment_index as int,
                        CommentModel {
                            text: old(self)@.files[file_index as int].comments[
                                comment_index as int
                            ].text,
                            tags: old(self)@.files[file_index as int].comments[
                                comment_index as int
                            ].tags.push(tag),
                        },
                    ),
                },
            ),
    {
        self.files[file_index].append_tag_at(comment_index, tag);
        proof {
            assert(self@.files =~= old(self)@.files.update(
                file_index as int,
                FileDataModel {
                    path: old(self)@.files[file_index as int].path,
                    comments: old(self)@.files[file_index as int].comments.update(
                        comment_index as int,
                        CommentModel {
                            text: old(self)@.files[file_index as int].comments[
                                comment_index as int
                            ].text,
                            tags: old(self)@.files[file_index as int].comments[
                                comment_index as int
                            ].tags.push(tag),
                        },
                    ),
                },
            ));
        }
    }
}

/// A small built-in example tree: one file with two commented lines, both
/// tagged at the same starting revision.
pub fn get_sample_data() -> (data: RootData)
    ensures
        data@.files.len() == 1,
        data@.files[0].path == "./README.md"@,
        data@.files[0].comments.len() == 2,
        data@.files[0].comments[0].text == "hello A"@,
        data@.files[0].comments[0].tags.len() == 1,
        data@.files[0].comments[0].tags[0].revision@ == "39690ed"@,
        data@.files[0].comments[0].tags[0].line == 1,
        data@.files[0].comments[0].tags[0].status == TagStatus::Normal,
        data@.files[0].comments[1].text == "hello B"@,
        data@.files[0].comments[1].tags.len() == 1,
        data@.files[0].comments[1].tags[0].revision@ == "39690ed"@,
        data@.files[0].comments[1].tags[0].line == 2,
        data@.files[0].comments[1].tags[0].status == TagStatus::Normal,
{
    let mut tags_a: Vec<CommentTag> = Vec::new();
    tags_a.push(CommentTag { revision: "39690ed".to_owned(), line: 1, status: TagStatus::Normal });
    let comment_a = Comment { text: "hello A".to_owned(), tags: tags_a };
    let mut tags_b: Vec<CommentTag> = Vec::new();
    tags_b.push(CommentTag { revision: "39690ed".to_owned(), line: 2, status: TagStatus::Normal });
    let comment_b = Comment { text: "hello B".to_owned(), tags: tags_b };
    let mut comments: Vec<Comment> = Vec::new();
    comments.push(comment_a);
    comments.push(comment_b);
    let mut files: Vec<FileData> = Vec::new();
    files.push(FileData { path: "./README.md".to_owned(), comments });
    RootData { files }
}

} // verus!
